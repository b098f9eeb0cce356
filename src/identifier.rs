//! Identifiers of a program and the constants among them.
use crate::felt::Felt252;
use crate::name_map::{map_of_entries, names_distinct, NameMap, lemma_map_of_entries};
use vstd::prelude::*;

verus! {

/// A member of a struct identifier: its type and offset.
#[derive(Clone, Debug, PartialEq, Eq)]
pub struct Member {
    pub cairo_type: String,
    pub offset: usize,
}

/// A named symbol of the program.
#[derive(Clone, Debug, PartialEq, Eq)]
pub struct Identifier {
    pub pc: Option<usize>,
    pub type_: Option<String>,
    pub value: Option<Felt252>,
    pub full_name: Option<String>,
    pub members: Option<NameMap<Member>>,
    pub cairo_type: Option<String>,
}

/// The errors of building a program.
#[derive(Clone, Debug, PartialEq, Eq)]
pub enum ProgramError {
    /// An identifier tagged as a constant carries no value; holds its name.
    ConstWithoutValue(String),
    /// Reading the program's bytes failed; holds the reason.
    IO(String),
    /// The program's bytes could not be parsed; holds the reason.
    Parse(String),
}

/// The type tag of constants.
pub open spec fn const_tag() -> Seq<char> {
    seq!['c', 'o', 'n', 's', 't']
}

/// The identifier is tagged as a constant.
pub open spec fn is_const(id: Identifier) -> bool {
    id.type_ matches Some(t) && t@ == const_tag()
}

/// Every identifier tagged as a constant carries a value.
pub open spec fn consts_have_values(ids: Map<Seq<char>, Identifier>) -> bool {
    forall|k: Seq<char>| #[trigger] ids.contains_key(k) && is_const(ids[k]) ==> ids[k].value is Some
}

/// The constants among the identifiers: the name of each identifier tagged as a constant,
/// mapped to its value.
pub open spec fn constants_of(ids: Map<Seq<char>, Identifier>) -> Map<Seq<char>, Felt252> {
    Map::new(|k: Seq<char>| ids.contains_key(k) && is_const(ids[k]), |k: Seq<char>| ids[k].value->0)
}

/// A table whose one constant `k` carries the value `v` has exactly the constant `k` with
/// value `v`: identifiers of other kinds are left out.
pub proof fn lemma_single_constant(ids: Map<Seq<char>, Identifier>, k: Seq<char>, v: Felt252)
    requires
        ids.contains_key(k),
        is_const(ids[k]),
        ids[k].value == Some(v),
        forall|k2: Seq<char>| #[trigger] ids.contains_key(k2) && k2 != k ==> !is_const(ids[k2]),
    ensures
        consts_have_values(ids),
        constants_of(ids) == map![k => v],
{
    assert(constants_of(ids) =~= map![k => v]);
}

/// A table with a constant that carries no value has its constants undefined.
pub proof fn lemma_constant_without_value(ids: Map<Seq<char>, Identifier>, k: Seq<char>)
    requires
        ids.contains_key(k),
        is_const(ids[k]),
        ids[k].value is None,
    ensures
        !consts_have_values(ids),
{
}

fn has_const_tag(t: &Option<String>) -> (r: bool)
    ensures
        r == (*t matches Some(s) && s@ == const_tag()),
{
    match t {
        Some(s) => {
            let tag = "const".to_owned();
            proof {
                reveal_strlit("const");
                assert(tag@ =~= const_tag());
            }
            *s == tag
        },
        None => false,
    }
}

/// The constants of an identifier table: fails with the name of an identifier tagged as a
/// constant that carries no value, if there is one.
pub fn extract_constants(identifiers: &NameMap<Identifier>) -> (r: Result<
    NameMap<Felt252>,
    ProgramError,
>)
    ensures
        r is Ok <==> consts_have_values(identifiers@),
        r matches Ok(c) ==> c@ == constants_of(identifiers@),
        r matches Err(e) ==> e matches ProgramError::ConstWithoutValue(name) && identifiers@.contains_key(
            name@,
        ) && is_const(identifiers@[name@]) && identifiers@[name@].value is None,
{
    let entries = identifiers.entries();
    let ghost ids = identifiers@;
    proof {
        lemma_map_of_entries(entries@);
    }
    let mut constants: NameMap<Felt252> = NameMap::new();
    let mut i: usize = 0;
    while i < entries.len()
        invariant
            i <= entries@.len(),
            names_distinct(entries@),
            ids == map_of_entries(entries@),
            ids == identifiers@,
            forall|k: Seq<char>| #[trigger]
                constants@.contains_key(k) <==> exists|j: int|
                    0 <= j < i && entries@[j].0@ == k && is_const(entries@[j].1),
            forall|j: int|
                0 <= j < i && is_const(#[trigger] entries@[j].1) ==> entries@[j].1.value is Some
                    && constants@[entries@[j].0@] == entries@[j].1.value->0,
        decreases entries@.len() - i,
    {
        let (name, id) = &entries[i];
        if has_const_tag(&id.type_) {
            match id.value {
                Some(v) => {
                    proof {
                        assert(!constants@.contains_key(name@)) by {
                            if constants@.contains_key(name@) {
                                let j = choose|j: int|
                                    0 <= j < i && entries@[j].0@ == name@ && is_const(
                                        entries@[j].1,
                                    );
                                assert(entries@[j].0@ != entries@[i as int].0@);
                            }
                        }
                    }
                    let ghost before = constants@;
                    constants.insert_new(name.clone(), v);
                    proof {
                        assert forall|j: int|
                            0 <= j < i + 1 && is_const(#[trigger] entries@[j].1) implies entries@[j].1.value is Some
                                && constants@[entries@[j].0@] == entries@[j].1.value->0 by {
                            if j < i {
                                assert(entries@[j].0@ != entries@[i as int].0@);
                            }
                        }
                        assert forall|k: Seq<char>| #[trigger]
                            constants@.contains_key(k) <==> exists|j: int|
                                0 <= j < i + 1 && entries@[j].0@ == k && is_const(entries@[j].1) by {
                            if k == name@ {
                                assert(entries@[i as int].0@ == k);
                            }
                            if exists|j: int|
                                0 <= j < i + 1 && entries@[j].0@ == k && is_const(entries@[j].1) {
                                let j = choose|j: int|
                                    0 <= j < i + 1 && entries@[j].0@ == k && is_const(entries@[j].1);
                                if j < i {
                                    assert(before.contains_key(k));
                                }
                            }
                        }
                    }
                },
                None => {
                    proof {
                        lemma_map_of_entries(entries@);
                        assert(ids[entries@[i as int].0@] == entries@[i as int].1);
                        assert(ids.contains_key(name@));
                        assert(is_const(ids[name@]));
                        assert(!consts_have_values(ids));
                    }
                    return Err(ProgramError::ConstWithoutValue(name.clone()));
                },
            }
        } else {
            proof {
                assert forall|k: Seq<char>| #[trigger]
                    constants@.contains_key(k) <==> exists|j: int|
                        0 <= j < i + 1 && entries@[j].0@ == k && is_const(entries@[j].1) by {
                    if exists|j: int|
                        0 <= j < i + 1 && entries@[j].0@ == k && is_const(entries@[j].1) {
                        let j = choose|j: int|
                            0 <= j < i + 1 && entries@[j].0@ == k && is_const(entries@[j].1);
                        assert(j < i);
                    }
                }
            }
        }
        i = i + 1;
    }
    proof {
        lemma_map_of_entries(entries@);
        assert forall|k: Seq<char>| #[trigger] ids.contains_key(k) && is_const(ids[k]) implies ids[k].value is Some by {
            let j = choose|j: int| 0 <= j < entries@.len() && entries@[j].0@ == k;
            assert(ids[entries@[j].0@] == entries@[j].1);
        }
        assert forall|k: Seq<char>| #[trigger] constants@.contains_key(k) <==> constants_of(ids).contains_key(k) by {
            if ids.contains_key(k) && is_const(ids[k]) {
                let j = choose|j: int| 0 <= j < entries@.len() && entries@[j].0@ == k;
                assert(ids[entries@[j].0@] == entries@[j].1);
            }
            if constants@.contains_key(k) {
                let j = choose|j: int|
                    0 <= j < i && entries@[j].0@ == k && is_const(entries@[j].1);
                assert(ids[entries@[j].0@] == entries@[j].1);
            }
        }
        assert forall|k: Seq<char>| #[trigger] constants@.contains_key(k) implies constants@[k] == constants_of(ids)[k] by {
            let j = choose|j: int|
                0 <= j < i && entries@[j].0@ == k && is_const(entries@[j].1);
            assert(ids[entries@[j].0@] == entries@[j].1);
        }
        assert(constants@ =~= constants_of(ids));
    }
    Ok(constants)
}

} // verus!
