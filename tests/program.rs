use cairo_program::felt::{Felt252, PRIME_STR};
use cairo_program::hints::{ApTracking, FlowTrackingData, HintParams};
use cairo_program::identifier::{Identifier, ProgramError};
use cairo_program::name_map::NameMap;
use cairo_program::program::{BuiltinName, Program};
use cairo_program::references::ReferenceManager;
use cairo_program::relocatable::MaybeRelocatable;
use std::collections::HashMap;

fn word(n: u64) -> MaybeRelocatable {
    MaybeRelocatable::Int(Felt252::new(n))
}

fn sample_data() -> Vec<MaybeRelocatable> {
    vec![
        word(5189976364521848832),
        word(1000),
        word(5189976364521848832),
        word(2000),
        word(5201798304953696256),
        word(2345108766317314046),
    ]
}

fn no_references() -> ReferenceManager {
    ReferenceManager {
        references: Vec::new(),
    }
}

fn hint(code: &str) -> HintParams {
    HintParams {
        code: code.to_string(),
        accessible_scopes: vec![],
        flow_tracking_data: FlowTrackingData {
            ap_tracking: ApTracking {
                group: 0,
                offset: 0,
            },
            reference_ids: NameMap::new(),
        },
    }
}

fn identifier(pc: Option<usize>, type_: &str, value: Option<Felt252>) -> Identifier {
    Identifier {
        pc,
        type_: Some(String::from(type_)),
        value,
        full_name: None,
        members: None,
        cairo_type: None,
    }
}

fn sample_identifiers() -> NameMap<Identifier> {
    let mut identifiers: NameMap<Identifier> = NameMap::new();
    identifiers.insert(
        String::from("__main__.main"),
        identifier(Some(0), "function", None),
    );
    identifiers.insert(
        String::from("__main__.main.SIZEOF_LOCALS"),
        identifier(None, "const", Some(Felt252::zero())),
    );
    identifiers
}

#[test]
fn new() {
    let builtins: Vec<BuiltinName> = Vec::new();
    let data = sample_data();

    let program = Program::new(
        builtins.clone(),
        data.clone(),
        None,
        HashMap::new(),
        no_references(),
        NameMap::new(),
        Vec::new(),
        None,
    )
    .unwrap();

    assert_eq!(program.iter_builtins().cloned().collect::<Vec<_>>(), builtins);
    assert_eq!(program.iter_data().cloned().collect::<Vec<_>>(), data);
    assert_eq!(program.main(), None);
    assert_eq!(program.iter_identifiers().count(), 0);
    assert_eq!(program.hints(), &[] as &[HintParams]);
    assert_eq!(program.hints_ranges(), &[] as &[Option<(usize, usize)>]);
}

#[test]
fn new_program_with_hints() {
    let builtins: Vec<BuiltinName> = Vec::new();
    let data = sample_data();

    let hints = HashMap::from([
        (5, vec![hint("c"), hint("d")]),
        (1, vec![hint("a")]),
        (4, vec![hint("b")]),
    ]);

    let program = Program::new(
        builtins.clone(),
        data.clone(),
        None,
        hints.clone(),
        no_references(),
        NameMap::new(),
        Vec::new(),
        None,
    )
    .unwrap();

    assert_eq!(program.iter_builtins().cloned().collect::<Vec<_>>(), builtins);
    assert_eq!(program.iter_data().cloned().collect::<Vec<_>>(), data);
    assert_eq!(program.main(), None);
    assert_eq!(program.iter_identifiers().count(), 0);

    let program_hints: HashMap<usize, Vec<HintParams>> = program
        .hints_ranges()
        .iter()
        .enumerate()
        .filter_map(|(pc, r)| r.map(|(s, l)| (pc, (s, s + l))))
        .map(|(pc, (s, e))| (pc, program.hints()[s..e].to_vec()))
        .collect();
    assert_eq!(program_hints, hints);
}

#[test]
fn new_program_with_identifiers() {
    let builtins: Vec<BuiltinName> = Vec::new();
    let data = sample_data();
    let identifiers = sample_identifiers();

    let program = Program::new(
        builtins.clone(),
        data.clone(),
        None,
        HashMap::new(),
        no_references(),
        identifiers.clone(),
        Vec::new(),
        None,
    )
    .unwrap();

    assert_eq!(program.iter_builtins().cloned().collect::<Vec<_>>(), builtins);
    assert_eq!(program.iter_data().cloned().collect::<Vec<_>>(), data);
    assert_eq!(program.main(), None);
    assert_eq!(
        program.iter_identifiers().cloned().collect::<Vec<_>>(),
        identifiers.entries().to_vec()
    );
    let constants = program.constants();
    assert_eq!(constants.len(), 1);
    assert_eq!(
        constants.get("__main__.main.SIZEOF_LOCALS"),
        Some(&Felt252::zero())
    );
    assert_eq!(constants.get("__main__.main"), None);
}

#[test]
fn get_prime() {
    let program = Program::default();
    assert_eq!(PRIME_STR, program.prime());
}

#[test]
fn iter_builtins() {
    let builtins: Vec<_> = vec![BuiltinName::range_check, BuiltinName::bitwise];

    let program = Program::new(
        builtins.clone(),
        sample_data(),
        None,
        HashMap::new(),
        no_references(),
        NameMap::new(),
        Vec::new(),
        None,
    )
    .unwrap();

    assert_eq!(
        program.iter_builtins().cloned().collect::<Vec<_>>(),
        builtins
    );

    assert_eq!(program.builtins_len(), 2);
}

#[test]
fn iter_data() {
    let data = sample_data();

    let program = Program::new(
        Vec::new(),
        data.clone(),
        None,
        HashMap::new(),
        no_references(),
        NameMap::new(),
        Vec::new(),
        None,
    )
    .unwrap();

    assert_eq!(program.iter_data().cloned().collect::<Vec<_>>(), data);
}

#[test]
fn data_len() {
    let data = sample_data();

    let program = Program::new(
        Vec::new(),
        data.clone(),
        None,
        HashMap::new(),
        no_references(),
        NameMap::new(),
        Vec::new(),
        None,
    )
    .unwrap();

    assert_eq!(program.data_len(), data.len());
}

#[test]
fn get_identifier() {
    let identifiers = sample_identifiers();

    let program = Program::new(
        Vec::new(),
        sample_data(),
        None,
        HashMap::new(),
        no_references(),
        identifiers.clone(),
        Vec::new(),
        None,
    )
    .unwrap();

    assert_eq!(
        program.get_identifier("__main__.main"),
        identifiers.get("__main__.main"),
    );
    assert_eq!(
        program.get_identifier("__main__.main.SIZEOF_LOCALS"),
        identifiers.get("__main__.main.SIZEOF_LOCALS"),
    );
    assert_eq!(
        program.get_identifier("missing"),
        identifiers.get("missing"),
    );
    assert!(program.get_identifier("__main__.main").is_some());
    assert!(program.get_identifier("missing").is_none());
}

#[test]
fn iter_identifiers() {
    let identifiers = sample_identifiers();

    let program = Program::new(
        Vec::new(),
        sample_data(),
        None,
        HashMap::new(),
        no_references(),
        identifiers.clone(),
        Vec::new(),
        None,
    )
    .unwrap();

    let collected_identifiers: HashMap<_, _> = program
        .iter_identifiers()
        .map(|(name, identifier)| (name.to_string(), identifier.clone()))
        .collect();
    let expected: HashMap<_, _> = identifiers
        .entries()
        .iter()
        .map(|(name, identifier)| (name.clone(), identifier.clone()))
        .collect();

    assert_eq!(collected_identifiers, expected);
}

#[test]
fn new_program_with_invalid_identifiers() {
    let mut identifiers: NameMap<Identifier> = NameMap::new();
    identifiers.insert(
        String::from("__main__.main"),
        identifier(Some(0), "function", None),
    );
    identifiers.insert(
        String::from("__main__.main.SIZEOF_LOCALS"),
        identifier(None, "const", None),
    );

    let program = Program::new(
        Vec::new(),
        sample_data(),
        None,
        HashMap::new(),
        no_references(),
        identifiers.clone(),
        Vec::new(),
        None,
    );

    assert!(program.is_err());
    assert_eq!(
        program.unwrap_err(),
        ProgramError::ConstWithoutValue(String::from("__main__.main.SIZEOF_LOCALS"))
    );
}

#[test]
fn default_program() {
    let program = Program::new(
        Vec::new(),
        Vec::new(),
        None,
        HashMap::new(),
        no_references(),
        NameMap::new(),
        Vec::new(),
        None,
    )
    .unwrap();

    assert_eq!(program, Program::default());
}

#[test]
fn six_instructions_no_entrypoint() {
    let program = Program::new(
        Vec::new(),
        sample_data(),
        None,
        HashMap::new(),
        no_references(),
        NameMap::new(),
        Vec::new(),
        None,
    )
    .unwrap();

    assert_eq!(program.data_len(), 6);
    assert_eq!(program.constants().len(), 0);
    assert_eq!(
        program.prime(),
        "0x800000000000011000000000000000000000000000000000000000000000001"
    );
}

#[test]
fn clone_shares_and_compares_equal() {
    let program = Program::new(
        vec![BuiltinName::output],
        sample_data(),
        Some(0),
        HashMap::from([(2, vec![hint("x")])]),
        no_references(),
        sample_identifiers(),
        Vec::new(),
        None,
    )
    .unwrap();
    let copy = program.clone();
    assert_eq!(copy, program);
    assert_eq!(copy.main(), Some(0));
    assert_eq!(copy.hints_ranges(), &[None, None, Some((0, 1))]);
}

#[test]
fn builtins_keep_declared_order() {
    let builtins = vec![
        BuiltinName::pedersen,
        BuiltinName::output,
        BuiltinName::range_check,
    ];
    let program = Program::new(
        builtins.clone(),
        Vec::new(),
        None,
        HashMap::new(),
        no_references(),
        NameMap::new(),
        Vec::new(),
        None,
    )
    .unwrap();
    assert_eq!(program.iter_builtins().cloned().collect::<Vec<_>>(), builtins);
    assert_eq!(program.builtins_len(), 3);
}

#[test]
fn compiled_class_import() {
    let program = Program::from_compiled_class(
        vec![Felt252::new(7), Felt252::new(8), Felt252::new(9)],
        vec![12, 0],
    );
    assert_eq!(
        program.iter_data().cloned().collect::<Vec<_>>(),
        vec![word(7), word(8), word(9)]
    );
    assert_eq!(program.builtins_len(), 0);
    assert_eq!(program.main(), None);
    assert_eq!(program.iter_identifiers().count(), 0);
    let ranges = program.hints_ranges();
    assert_eq!(ranges.len(), 13);
    let (s, l) = ranges[12].unwrap();
    assert_eq!(l, 1);
    assert_eq!(program.hints()[s].code, "12");
    let (s, l) = ranges[0].unwrap();
    assert_eq!(l, 1);
    assert_eq!(program.hints()[s].code, "0");
    assert!(ranges[1..12].iter().all(|r| r.is_none()));
    assert!(program.hints()[s].accessible_scopes.is_empty());
}
