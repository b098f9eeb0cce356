//! A loaded program: per-run fields beside one shared, immutable part.
use crate::felt::{Felt252, PRIME_STR};
use crate::hints::{
    flatten_hints, hint_lists, is_flattening, ApTracking, FlowTrackingData, HintParams,
};
use crate::identifier::{consts_have_values, constants_of, extract_constants, is_const, Identifier, ProgramError};
use crate::name_map::{map_of_entries, names_distinct, NameMap};
use crate::references::{get_reference_list, reduce_reference, HintReference, ReferenceManager};
use crate::relocatable::MaybeRelocatable;
use std::collections::HashMap;
use std::sync::Arc;
use vstd::prelude::*;
use vstd::std_specs::iter::IteratorSpec;

verus! {

broadcast use vstd::std_specs::hash::group_hash_axioms;

/// The builtin facilities that a program may ask for, in the order it declares them.
#[allow(non_camel_case_types)]
#[derive(Clone, Copy, Debug, PartialEq, Eq, Structural)]
pub enum BuiltinName {
    output,
    range_check,
    pedersen,
    ecdsa,
    keccak,
    bitwise,
    ec_op,
    poseidon,
    segment_arena,
}

/// The source file of a location.
#[derive(Clone, Debug, PartialEq, Eq)]
pub struct InputFile {
    pub filename: String,
}

/// A span of source text, with the location it was inlined from, if any.
#[derive(Debug, PartialEq, Eq)]
pub struct Location {
    pub end_line: u32,
    pub end_col: u32,
    pub input_file: InputFile,
    pub parent_location: Option<(Box<Location>, String)>,
    pub start_line: u32,
    pub start_col: u32,
}

/// Where a hint stands in the source.
#[derive(Debug, PartialEq, Eq)]
pub struct HintLocation {
    pub location: Location,
    pub n_prefix_newlines: u32,
}

/// Where an instruction and its hints stand in the source.
#[derive(Debug, PartialEq, Eq)]
pub struct InstructionLocation {
    pub inst: Location,
    pub hints: Vec<HintLocation>,
}

/// A diagnostic attribute over a range of program counters.
#[derive(Clone, Debug, PartialEq, Eq)]
pub struct Attribute {
    pub name: String,
    pub start_pc: usize,
    pub end_pc: usize,
    pub value: String,
    pub flow_tracking_data: Option<FlowTrackingData>,
}

/// The part of a program that every run shares and none changes.
#[derive(Debug, PartialEq, Eq)]
pub struct SharedProgramData {
    pub(crate) data: Vec<MaybeRelocatable>,
    pub(crate) hints: Vec<HintParams>,
    pub(crate) hints_ranges: Vec<Option<(usize, usize)>>,
    pub(crate) main: Option<usize>,
    pub(crate) start: Option<usize>,
    pub(crate) end: Option<usize>,
    pub(crate) error_message_attributes: Vec<Attribute>,
    pub(crate) instruction_locations: Option<HashMap<usize, InstructionLocation>>,
    pub(crate) identifiers: NameMap<Identifier>,
    pub(crate) reference_manager: Vec<HintReference>,
}

/// A loaded program. Cloning it copies the builtins and constants, which the run loop
/// reads most, and shares the rest.
#[derive(Clone, Debug, PartialEq, Eq)]
pub struct Program {
    pub(crate) shared_program_data: Arc<SharedProgramData>,
    pub(crate) constants: NameMap<Felt252>,
    pub(crate) builtins: Vec<BuiltinName>,
}

impl Program {
    pub closed spec fn builtins_view(self) -> Seq<BuiltinName> {
        self.builtins@
    }

    pub closed spec fn data_view(self) -> Seq<MaybeRelocatable> {
        self.shared_program_data.data@
    }

    pub closed spec fn main_view(self) -> Option<usize> {
        self.shared_program_data.main
    }

    pub closed spec fn hints_view(self) -> Seq<HintParams> {
        self.shared_program_data.hints@
    }

    pub closed spec fn hints_ranges_view(self) -> Seq<Option<(usize, usize)>> {
        self.shared_program_data.hints_ranges@
    }

    pub closed spec fn identifiers_view(self) -> Map<Seq<char>, Identifier> {
        self.shared_program_data.identifiers@
    }

    pub closed spec fn constants_view(self) -> Map<Seq<char>, Felt252> {
        self.constants@
    }

    pub closed spec fn references_view(self) -> Seq<HintReference> {
        self.shared_program_data.reference_manager@
    }

    pub closed spec fn attributes_view(self) -> Seq<Attribute> {
        self.shared_program_data.error_message_attributes@
    }

    pub closed spec fn instruction_locations_view(self) -> Option<
        HashMap<usize, InstructionLocation>,
    > {
        self.shared_program_data.instruction_locations
    }

    /// Builds a program from its parsed parts. Fails when an identifier tagged as a
    /// constant has no value; otherwise keeps the given parts, derives the constants,
    /// flattens the hints and reduces the references.
    pub fn new(
        builtins: Vec<BuiltinName>,
        data: Vec<MaybeRelocatable>,
        main: Option<usize>,
        hints: HashMap<usize, Vec<HintParams>>,
        reference_manager: ReferenceManager,
        identifiers: NameMap<Identifier>,
        error_message_attributes: Vec<Attribute>,
        instruction_locations: Option<HashMap<usize, InstructionLocation>>,
    ) -> (r: Result<Program, ProgramError>)
        requires
            forall|pc: usize| #[trigger] hints@.contains_key(pc) ==> pc < usize::MAX,
        ensures
            r is Ok <==> consts_have_values(identifiers@),
            r matches Err(e) ==> e matches ProgramError::ConstWithoutValue(name)
                && identifiers@.contains_key(name@) && is_const(identifiers@[name@])
                && identifiers@[name@].value is None,
            r matches Ok(p) ==> {
                &&& p.builtins_view() == builtins@
                &&& p.data_view() == data@
                &&& p.main_view() == main
                &&& p.identifiers_view() == identifiers@
                &&& p.constants_view() == constants_of(identifiers@)
                &&& is_flattening(hint_lists(hints@), p.hints_view(), p.hints_ranges_view())
                &&& p.references_view() == reference_manager.references@.map_values(
                    |x| reduce_reference(x),
                )
                &&& p.attributes_view() == error_message_attributes@
                &&& p.instruction_locations_view() == instruction_locations
            },
    {
        let constants = match extract_constants(&identifiers) {
            Ok(c) => c,
            Err(e) => {
                return Err(e);
            },
        };
        let (flat_hints, hints_ranges) = flatten_hints(hints);
        let reference_list = get_reference_list(&reference_manager);
        let shared_program_data = SharedProgramData {
            data,
            main,
            start: None,
            end: None,
            hints: flat_hints,
            hints_ranges,
            error_message_attributes,
            instruction_locations,
            identifiers,
            reference_manager: reference_list,
        };
        Ok(Program { shared_program_data: Arc::new(shared_program_data), constants, builtins })
    }

    /// The field's prime modulus in hexadecimal; the same for every program.
    pub fn prime(&self) -> (r: &'static str)
        ensures
            r == PRIME_STR,
    {
        PRIME_STR
    }

    /// The builtins, in declared order.
    pub fn iter_builtins(&self) -> (r: std::slice::Iter<'_, BuiltinName>)
        ensures
            r.remaining().unref() == self.builtins_view(),
    {
        self.builtins.as_slice().iter()
    }

    /// The instructions, in order.
    pub fn iter_data(&self) -> (r: std::slice::Iter<'_, MaybeRelocatable>)
        ensures
            r.remaining().unref() == self.data_view(),
    {
        self.shared_program_data.data.as_slice().iter()
    }

    /// The number of instructions.
    pub fn data_len(&self) -> (r: usize)
        ensures
            r == self.data_view().len(),
    {
        self.shared_program_data.data.len()
    }

    /// The number of builtins.
    pub fn builtins_len(&self) -> (r: usize)
        ensures
            r == self.builtins_view().len(),
    {
        self.builtins.len()
    }

    /// The identifier named exactly `id`, if any.
    pub fn get_identifier(&self, id: &str) -> (r: Option<&Identifier>)
        ensures
            match r {
                Some(v) => self.identifiers_view().contains_key(id@) && *v
                    == self.identifiers_view()[id@],
                None => !self.identifiers_view().contains_key(id@),
            },
    {
        self.shared_program_data.identifiers.get(id)
    }

    /// The identifiers with their names, each name once.
    pub fn iter_identifiers(&self) -> (r: std::slice::Iter<'_, (String, Identifier)>)
        ensures
            names_distinct(r.remaining().unref()),
            map_of_entries(r.remaining().unref()) == self.identifiers_view(),
    {
        let entries = self.shared_program_data.identifiers.entries();
        let it = entries.iter();
        assert(it.remaining().unref() =~= entries@);
        it
    }

    /// The constants: each identifier tagged as a constant, by name, with its value.
    pub fn constants(&self) -> (r: &NameMap<Felt252>)
        ensures
            r@ == self.constants_view(),
    {
        &self.constants
    }

    /// The entry point's program counter, if one was given.
    pub fn main(&self) -> (r: Option<usize>)
        ensures
            r == self.main_view(),
    {
        self.shared_program_data.main
    }

    /// The hints of all program counters, laid out one pc's hints after another.
    pub fn hints(&self) -> (r: &[HintParams])
        ensures
            r@ == self.hints_view(),
    {
        self.shared_program_data.hints.as_slice()
    }

    /// For each program counter up to the largest with hints, the (start, length) range of
    /// its hints in `hints()`, or `None` where it has none.
    pub fn hints_ranges(&self) -> (r: &[Option<(usize, usize)>])
        ensures
            r@ == self.hints_ranges_view(),
    {
        self.shared_program_data.hints_ranges.as_slice()
    }

    /// The reduced references, in the compiler's order.
    pub fn references(&self) -> (r: &[HintReference])
        ensures
            r@ == self.references_view(),
    {
        self.shared_program_data.reference_manager.as_slice()
    }

    /// The diagnostic attributes.
    pub fn error_message_attributes(&self) -> (r: &[Attribute])
        ensures
            r@ == self.attributes_view(),
    {
        self.shared_program_data.error_message_attributes.as_slice()
    }
}

/// The decimal digits of a number, most significant first.
pub open spec fn decimal(n: nat) -> Seq<char>
    decreases n,
{
    let digit = seq!['0', '1', '2', '3', '4', '5', '6', '7', '8', '9'][(n % 10) as int];
    if n < 10 {
        seq![digit]
    } else {
        decimal(n / 10).push(digit)
    }
}

/// Relies on `ToString` for `usize`, through its `Display`: the number's decimal digits,
/// without sign or padding.
#[verifier::external_body]
fn decimal_text(n: usize) -> (r: String)
    ensures
        r@ == decimal(n as nat),
{
    n.to_string()
}

/// The hint that stands for the hints of a compiled class at `pc`: its code is the pc in
/// decimal, with no scopes, zero allocation-pointer tracking and no reference ids.
pub open spec fn is_pc_hint(h: HintParams, pc: usize) -> bool {
    &&& h.code@ == decimal(pc as nat)
    &&& h.accessible_scopes@.len() == 0
    &&& h.flow_tracking_data.ap_tracking == ApTracking { group: 0, offset: 0 }
    &&& h.flow_tracking_data.reference_ids@ == Map::<Seq<char>, usize>::empty()
}

impl Program {
    /// Imports a compiled contract class: each bytecode word becomes one field-element
    /// instruction, and each pc with hints gets a single hint whose code is that pc, for a
    /// hint processor that resolves the class's own hints by pc. No builtins, entry point,
    /// identifiers, attributes or references.
    pub fn from_compiled_class(bytecode: Vec<Felt252>, hint_pcs: Vec<usize>) -> (r: Program)
        requires
            forall|i: int| 0 <= i < hint_pcs@.len() ==> #[trigger] hint_pcs@[i] < usize::MAX,
        ensures
            r.data_view() == bytecode@.map_values(|f: Felt252| MaybeRelocatable::Int(f)),
            r.builtins_view().len() == 0,
            r.main_view() is None,
            r.identifiers_view() == Map::<Seq<char>, Identifier>::empty(),
            r.constants_view() == Map::<Seq<char>, Felt252>::empty(),
            r.references_view().len() == 0,
            r.attributes_view().len() == 0,
            r.instruction_locations_view() is None,
            exists|m: Map<usize, Seq<HintParams>>|
                {
                    &&& is_flattening(m, r.hints_view(), r.hints_ranges_view())
                    &&& m.dom() == hint_pcs@.to_set()
                    &&& forall|pc: usize| #[trigger]
                        m.contains_key(pc) ==> m[pc].len() == 1 && is_pc_hint(m[pc][0], pc)
                },
    {
        let mut data: Vec<MaybeRelocatable> = Vec::new();
        let mut i: usize = 0;
        while i < bytecode.len()
            invariant
                i <= bytecode@.len(),
                data@ == bytecode@.take(i as int).map_values(|f: Felt252| MaybeRelocatable::Int(f)),
            decreases bytecode@.len() - i,
        {
            data.push(MaybeRelocatable::Int(bytecode[i]));
            proof {
                assert(bytecode@.take(i as int + 1) =~= bytecode@.take(i as int).push(
                    bytecode@[i as int],
                ));
                assert(data@ =~= bytecode@.take(i as int + 1).map_values(
                    |f: Felt252| MaybeRelocatable::Int(f),
                ));
            }
            i = i + 1;
        }
        proof {
            assert(bytecode@.take(i as int) =~= bytecode@);
        }
        let mut hints: HashMap<usize, Vec<HintParams>> = HashMap::new();
        let mut j: usize = 0;
        while j < hint_pcs.len()
            invariant
                j <= hint_pcs@.len(),
                forall|i: int| 0 <= i < hint_pcs@.len() ==> #[trigger] hint_pcs@[i] < usize::MAX,
                forall|k: usize| #[trigger]
                    hints@.contains_key(k) <==> hint_pcs@.take(j as int).contains(k),
                forall|k: usize| #[trigger]
                    hints@.contains_key(k) ==> hints@[k]@.len() == 1 && is_pc_hint(
                        hints@[k]@[0],
                        k,
                    ),
            decreases hint_pcs@.len() - j,
        {
            let pc = hint_pcs[j];
            let hint = HintParams {
                code: decimal_text(pc),
                accessible_scopes: Vec::new(),
                flow_tracking_data: FlowTrackingData {
                    ap_tracking: ApTracking { group: 0, offset: 0 },
                    reference_ids: NameMap::new(),
                },
            };
            let mut list: Vec<HintParams> = Vec::new();
            list.push(hint);
            hints.insert(pc, list);
            proof {
                assert forall|k: usize| #[trigger]
                    hints@.contains_key(k) <==> hint_pcs@.take(j as int + 1).contains(k) by {
                    let before = hint_pcs@.take(j as int);
                    let after = hint_pcs@.take(j as int + 1);
                    assert(after =~= before.push(pc));
                    if after.contains(k) {
                        let x = choose|x: int| 0 <= x < after.len() && after[x] == k;
                        if x < j {
                            assert(before[x] == k);
                        }
                    }
                    if before.contains(k) {
                        let x = choose|x: int| 0 <= x < before.len() && before[x] == k;
                        assert(after[x] == k);
                    }
                    if k == pc {
                        assert(after[j as int] == k);
                    }
                }
            }
            j = j + 1;
        }
        proof {
            assert(hint_pcs@.take(j as int) =~= hint_pcs@);
            assert forall|pc: usize| #[trigger] hints@.contains_key(pc) implies pc < usize::MAX by {
                let i = choose|i: int| 0 <= i < hint_pcs@.len() && hint_pcs@[i] == pc;
            }
        }
        let ghost m = hint_lists(hints@);
        let reference_manager = ReferenceManager { references: Vec::new() };
        match Program::new(
            Vec::new(),
            data,
            None,
            hints,
            reference_manager,
            NameMap::new(),
            Vec::new(),
            None,
        ) {
            Ok(p) => {
                proof {
                    assert(m.dom() =~= hint_pcs@.to_set());
                    assert(p.references_view() =~= Seq::<HintReference>::empty());
                }
                p
            },
            Err(_) => {
                proof {
                    assert(consts_have_values(Map::<Seq<char>, Identifier>::empty()));
                }
                Program::default()
            },
        }
    }
}

impl Default for Program {
    /// The empty program: no instructions, hints, identifiers, references or builtins.
    fn default() -> (r: Program)
        ensures
            r.builtins_view().len() == 0,
            r.data_view().len() == 0,
            r.main_view() is None,
            r.hints_view().len() == 0,
            r.hints_ranges_view().len() == 0,
            r.identifiers_view() == Map::<Seq<char>, Identifier>::empty(),
            r.constants_view() == Map::<Seq<char>, Felt252>::empty(),
            r.references_view().len() == 0,
            r.attributes_view().len() == 0,
            r.instruction_locations_view() is None,
    {
        let shared_program_data = SharedProgramData {
            data: Vec::new(),
            hints: Vec::new(),
            hints_ranges: Vec::new(),
            main: None,
            start: None,
            end: None,
            error_message_attributes: Vec::new(),
            instruction_locations: None,
            identifiers: NameMap::new(),
            reference_manager: Vec::new(),
        };
        Program {
            shared_program_data: Arc::new(shared_program_data),
            constants: NameMap::new(),
            builtins: Vec::new(),
        }
    }
}

} // verus!
