//! Machine words: field elements or addresses within a memory segment.
use crate::felt::Felt252;
use vstd::prelude::*;

verus! {

/// An address before relocation: a segment and an offset within it.
#[derive(Clone, Copy, Debug, PartialEq, Eq, Structural)]
pub struct Relocatable {
    pub segment_index: isize,
    pub offset: usize,
}

/// A machine word: an address or a field element.
#[derive(Clone, Copy, Debug, PartialEq, Eq, Structural)]
pub enum MaybeRelocatable {
    RelocatableValue(Relocatable),
    Int(Felt252),
}

} // verus!
