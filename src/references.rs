//! Compile-time references and the reduced form that hints consume.
use crate::felt::Felt252;
use crate::hints::ApTracking;
use vstd::prelude::*;

verus! {

/// The registers that an offset expression may be relative to.
#[derive(Clone, Copy, Debug, PartialEq, Eq, Structural)]
pub enum Register {
    AP,
    FP,
}

/// One offset expression of a reference.
#[derive(Clone, Copy, Debug, PartialEq, Eq, Structural)]
pub enum OffsetValue {
    Immediate(Felt252),
    Value(i32),
    /// Relative to a register: the register, an offset and whether it is dereferenced.
    Reference(Register, i32, bool),
}

/// Where a reference's value lives: two offset expressions, a dereference flag and the
/// declared type.
#[derive(Clone, Debug, PartialEq, Eq)]
pub struct ValueAddress {
    pub offset1: OffsetValue,
    pub offset2: OffsetValue,
    pub dereference: bool,
    pub value_type: String,
}

/// A reference as the compiler records it.
#[derive(Clone, Debug, PartialEq, Eq)]
pub struct Reference {
    pub ap_tracking_data: ApTracking,
    pub pc: Option<usize>,
    pub value_address: ValueAddress,
}

/// The compiler's ordered list of references.
#[derive(Clone, Debug, PartialEq, Eq)]
pub struct ReferenceManager {
    pub references: Vec<Reference>,
}

/// A reference reduced to what hints need.
#[derive(Clone, Debug, PartialEq, Eq)]
pub struct HintReference {
    pub offset1: OffsetValue,
    pub offset2: OffsetValue,
    pub dereference: bool,
    pub ap_tracking_data: Option<ApTracking>,
    pub cairo_type: Option<String>,
}

/// The offset expression is relative to the allocation pointer.
pub open spec fn is_ap_relative(o: OffsetValue) -> bool {
    o matches OffsetValue::Reference(Register::AP, _, _)
}

/// The reduced form of a reference: both offsets, the dereference flag and the declared
/// type are kept; the allocation-pointer tracking only where an offset is relative to
/// the allocation pointer.
pub open spec fn reduce_reference(r: Reference) -> HintReference {
    HintReference {
        offset1: r.value_address.offset1,
        offset2: r.value_address.offset2,
        dereference: r.value_address.dereference,
        ap_tracking_data: if is_ap_relative(r.value_address.offset1) || is_ap_relative(
            r.value_address.offset2,
        ) {
            Some(r.ap_tracking_data)
        } else {
            None
        },
        cairo_type: Some(r.value_address.value_type),
    }
}

/// A reduced reference keeps its allocation-pointer tracking exactly when one of its
/// offsets is relative to the allocation pointer; a reference anchored to other registers
/// or to constants on both sides loses it.
pub proof fn lemma_ap_tracking_kept(r: Reference)
    ensures
        (is_ap_relative(r.value_address.offset1) || is_ap_relative(r.value_address.offset2))
            ==> reduce_reference(r).ap_tracking_data == Some(r.ap_tracking_data),
        !is_ap_relative(r.value_address.offset1) && !is_ap_relative(r.value_address.offset2)
            ==> reduce_reference(r).ap_tracking_data is None,
{
}

fn is_ap_offset(o: &OffsetValue) -> (r: bool)
    ensures
        r == is_ap_relative(*o),
{
    match o {
        OffsetValue::Reference(Register::AP, _, _) => true,
        _ => false,
    }
}

/// Reduces each reference of the manager, in order.
pub fn get_reference_list(reference_manager: &ReferenceManager) -> (r: Vec<HintReference>)
    ensures
        r@ == reference_manager.references@.map_values(|x: Reference| reduce_reference(x)),
{
    let refs = &reference_manager.references;
    let mut out: Vec<HintReference> = Vec::new();
    let mut i: usize = 0;
    while i < refs.len()
        invariant
            i <= refs@.len(),
            out@ == refs@.take(i as int).map_values(|x: Reference| reduce_reference(x)),
        decreases refs@.len() - i,
    {
        let r = &refs[i];
        let a = &r.value_address;
        let ap_tracking_data = if is_ap_offset(&a.offset1) || is_ap_offset(&a.offset2) {
            Some(r.ap_tracking_data)
        } else {
            None
        };
        let reduced = HintReference {
            offset1: a.offset1,
            offset2: a.offset2,
            dereference: a.dereference,
            ap_tracking_data,
            cairo_type: Some(a.value_type.clone()),
        };
        out.push(reduced);
        proof {
            assert(refs@.take(i as int + 1) =~= refs@.take(i as int).push(refs@[i as int]));
            assert(out@ =~= refs@.take(i as int + 1).map_values(|x: Reference| reduce_reference(x)));
        }
        i = i + 1;
    }
    proof {
        assert(refs@.take(i as int) =~= refs@);
    }
    out
}

} // verus!
