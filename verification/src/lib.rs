//! Dot-level model of an 8-bit home computer's video generation hardware:
//! the address each raster position scans, the visible spans touched by a
//! memory write, and the composite luminance samples produced from display
//! memory bytes.

use vstd::prelude::*;

pub mod video;

verus! {

/// Hardware generations in chronological order. Addressing quirks are
/// selected by comparing a generation against a fixed reference point,
/// so the order here is load-bearing.
#[derive(Clone, Copy, Debug, PartialEq, Eq, Structural)]
pub enum Model {
    II,
    IIPlus,
    IIe,
    IIc,
}

impl Model {
    /// Position of this generation in the chronological sequence.
    pub open spec fn rank(self) -> int {
        match self {
            Model::II => 0,
            Model::IIPlus => 1,
            Model::IIe => 2,
            Model::IIc => 3,
        }
    }

    /// True when `self` is an earlier generation than `other`.
    pub fn precedes(self, other: Model) -> (r: bool)
        ensures
            r == (self.rank() < other.rank()),
    {
        let a: u8 = match self {
            Model::II => 0,
            Model::IIPlus => 1,
            Model::IIe => 2,
            Model::IIc => 3,
        };
        let b: u8 = match other {
            Model::II => 0,
            Model::IIPlus => 1,
            Model::IIe => 2,
            Model::IIc => 3,
        };
        a < b
    }
}

} // verus!
