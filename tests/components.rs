use cairo_program::felt::Felt252;
use cairo_program::fibonacci::fibonacci;
use cairo_program::hints::{flatten_hints, ApTracking, FlowTrackingData, HintParams};
use cairo_program::identifier::{extract_constants, Identifier, ProgramError};
use cairo_program::name_map::NameMap;
use cairo_program::references::{
    get_reference_list, OffsetValue, Reference, ReferenceManager, Register, ValueAddress,
};
use std::collections::HashMap;

fn hint(code: &str) -> HintParams {
    HintParams {
        code: code.to_string(),
        accessible_scopes: vec![String::from("__main__")],
        flow_tracking_data: FlowTrackingData {
            ap_tracking: ApTracking { group: 1, offset: 2 },
            reference_ids: NameMap::new(),
        },
    }
}

fn tagged(type_: Option<&str>, value: Option<Felt252>) -> Identifier {
    Identifier {
        pc: None,
        type_: type_.map(String::from),
        value,
        full_name: None,
        members: None,
        cairo_type: None,
    }
}

fn reference(offset1: OffsetValue, offset2: OffsetValue) -> Reference {
    Reference {
        ap_tracking_data: ApTracking { group: 3, offset: 4 },
        pc: Some(0),
        value_address: ValueAddress {
            offset1,
            offset2,
            dereference: true,
            value_type: String::from("felt"),
        },
    }
}

fn rebuild(
    values: &[HintParams],
    ranges: &[Option<(usize, usize)>],
) -> HashMap<usize, Vec<HintParams>> {
    ranges
        .iter()
        .enumerate()
        .filter_map(|(pc, r)| r.map(|(s, l)| (pc, values[s..s + l].to_vec())))
        .collect()
}

#[test]
fn flatten_empty_mapping() {
    let (values, ranges) = flatten_hints(HashMap::new());
    assert!(values.is_empty());
    assert!(ranges.is_empty());
}

#[test]
fn flatten_round_trip_keeps_order() {
    let hints = HashMap::from([
        (5, vec![hint("c"), hint("d")]),
        (1, vec![hint("a")]),
        (4, vec![hint("b")]),
    ]);
    let (values, ranges) = flatten_hints(hints.clone());
    assert_eq!(values.len(), 4);
    assert_eq!(ranges.len(), 6);
    assert_eq!(ranges[0], None);
    assert_eq!(ranges[2], None);
    assert_eq!(ranges[3], None);
    assert_eq!(ranges[5].unwrap().1, 2);
    assert_eq!(rebuild(&values, &ranges), hints);
}

#[test]
fn flatten_skips_empty_lists() {
    let hints = HashMap::from([(7, vec![]), (2, vec![hint("x"), hint("y")])]);
    let (values, ranges) = flatten_hints(hints);
    assert_eq!(ranges.len(), 8);
    assert_eq!(ranges[7], None);
    assert_eq!(ranges[2], Some((0, 2)));
    assert_eq!(values[0].code, "x");
    assert_eq!(values[1].code, "y");
}

#[test]
fn flatten_only_empty_list() {
    let (values, ranges) = flatten_hints(HashMap::from([(3, vec![])]));
    assert!(values.is_empty());
    assert_eq!(ranges, vec![None, None, None, None]);
}

#[test]
fn constants_exclude_other_identifiers() {
    let mut ids: NameMap<Identifier> = NameMap::new();
    ids.insert(String::from("a.f"), tagged(Some("function"), None));
    ids.insert(String::from("a.S"), tagged(Some("struct"), Some(Felt252::new(9))));
    ids.insert(String::from("a.untagged"), tagged(None, Some(Felt252::new(8))));
    ids.insert(String::from("a.K"), tagged(Some("const"), Some(Felt252::new(3))));
    let constants = extract_constants(&ids).unwrap();
    assert_eq!(constants.len(), 1);
    assert_eq!(constants.get("a.K"), Some(&Felt252::new(3)));
    assert_eq!(constants.get("a.S"), None);
    assert_eq!(constants.get("a.untagged"), None);
}

#[test]
fn constant_without_value_is_rejected() {
    let mut ids: NameMap<Identifier> = NameMap::new();
    ids.insert(String::from("a.K"), tagged(Some("const"), Some(Felt252::new(3))));
    ids.insert(String::from("a.L"), tagged(Some("const"), None));
    assert_eq!(
        extract_constants(&ids),
        Err(ProgramError::ConstWithoutValue(String::from("a.L")))
    );
}

#[test]
fn tag_comparison_is_exact() {
    let mut ids: NameMap<Identifier> = NameMap::new();
    ids.insert(String::from("a.C"), tagged(Some("Const"), None));
    ids.insert(String::from("a.D"), tagged(Some("constant"), None));
    assert_eq!(extract_constants(&ids).unwrap().len(), 0);
}

#[test]
fn ap_relative_reference_keeps_tracking() {
    let manager = ReferenceManager {
        references: vec![
            reference(
                OffsetValue::Reference(Register::AP, -1, true),
                OffsetValue::Value(0),
            ),
            reference(
                OffsetValue::Reference(Register::FP, 2, false),
                OffsetValue::Reference(Register::AP, 0, false),
            ),
            reference(
                OffsetValue::Reference(Register::FP, -3, true),
                OffsetValue::Reference(Register::FP, 1, false),
            ),
            reference(
                OffsetValue::Immediate(Felt252::new(5)),
                OffsetValue::Value(2),
            ),
        ],
    };
    let reduced = get_reference_list(&manager);
    assert_eq!(reduced.len(), 4);
    let tracking = Some(ApTracking { group: 3, offset: 4 });
    assert_eq!(reduced[0].ap_tracking_data, tracking);
    assert_eq!(reduced[1].ap_tracking_data, tracking);
    assert_eq!(reduced[2].ap_tracking_data, None);
    assert_eq!(reduced[3].ap_tracking_data, None);
    assert_eq!(
        reduced[2].offset1,
        OffsetValue::Reference(Register::FP, -3, true)
    );
    assert!(reduced[2].dereference);
    assert_eq!(reduced[0].cairo_type, Some(String::from("felt")));
}

#[test]
fn felt_limbs_below_prime() {
    let top = 0x0800000000000011u64;
    assert!(Felt252::from_limbs(0, 0, 0, top).is_some());
    assert!(Felt252::from_limbs(1, 0, 0, top).is_none());
    assert!(Felt252::from_limbs(0, 5, 0, top).is_none());
    assert!(Felt252::from_limbs(u64::MAX, u64::MAX, u64::MAX, top - 1).is_some());
    assert!(Felt252::from_limbs(0, 0, 0, top + 1).is_none());
    let f = Felt252::from_limbs(1, 2, 3, 4).unwrap();
    assert_eq!(f.to_limbs(), (1, 2, 3, 4));
    assert_eq!(Felt252::new(42).to_limbs(), (42, 0, 0, 0));
    assert_eq!(Felt252::zero(), Felt252::new(0));
}

#[test]
fn name_map_insert_replaces() {
    let mut m: NameMap<u32> = NameMap::new();
    m.insert(String::from("x"), 1);
    m.insert(String::from("y"), 2);
    m.insert(String::from("x"), 3);
    assert_eq!(m.len(), 2);
    assert_eq!(m.get("x"), Some(&3));
    assert_eq!(m.get("y"), Some(&2));
    assert_eq!(m.get("z"), None);
    let copy = m.clone();
    assert_eq!(copy, m);
}

#[test]
fn fibonacci_values() {
    assert_eq!(fibonacci(1), 1);
    assert_eq!(fibonacci(2), 1);
    assert_eq!(fibonacci(3), 2);
    assert_eq!(fibonacci(10), 55);
    assert_eq!(fibonacci(90), 2880067194370816120);
    assert_eq!(fibonacci(92), 7540113804746346429);
    assert_eq!(fibonacci(-4), 0);
}

