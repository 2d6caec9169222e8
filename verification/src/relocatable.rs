//! Addresses and values of the Cairo memory.
use vstd::prelude::*;
use crate::felt::Felt;

verus! {

/// An address: a segment and an offset into it. Temporary segments have negative indexes.
#[derive(Clone, Copy, Debug, PartialEq, Eq, Structural)]
pub struct Relocatable {
    pub segment_index: isize,
    pub offset: usize,
}

/// What a memory cell holds.
#[derive(Clone, Copy, Debug, PartialEq, Eq, Structural)]
pub enum MaybeRelocatable {
    RelocatableValue(Relocatable),
    Int(Felt),
}

impl Relocatable {
    /// The address `n` cells further on.
    pub open spec fn plus(self, n: int) -> Relocatable {
        Relocatable { segment_index: self.segment_index, offset: (self.offset + n) as usize }
    }

    /// How many cells `self` lies behind `other` in one segment.
    pub open spec fn distance_from(self, other: Relocatable) -> Option<usize> {
        if self.segment_index == other.segment_index && other.offset <= self.offset {
            Some((self.offset - other.offset) as usize)
        } else {
            None
        }
    }

    /// The number of cells from `other` to `self`, when both lie in one segment in that order.
    pub fn sub(&self, other: &Relocatable) -> (r: Option<usize>)
        ensures
            r == self.distance_from(*other),
    {
        if self.segment_index == other.segment_index && other.offset <= self.offset {
            Some(self.offset - other.offset)
        } else {
            None
        }
    }
}

impl MaybeRelocatable {
    /// The address, when the value is one.
    pub fn get_relocatable(&self) -> (r: Option<Relocatable>)
        ensures
            r == match *self {
                MaybeRelocatable::RelocatableValue(pointer) => Some(pointer),
                MaybeRelocatable::Int(_) => None,
            },
    {
        match *self {
            MaybeRelocatable::RelocatableValue(pointer) => Some(pointer),
            MaybeRelocatable::Int(_) => None,
        }
    }
}

} // verus!
