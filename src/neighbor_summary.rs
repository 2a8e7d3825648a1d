//! Per-block summary that the context model keeps for the blocks of the two
//! most recent rows.
use vstd::prelude::*;

verus! {

/// Summary of one coded block, read back when coding its neighbors.
#[derive(Clone, Copy, Debug)]
pub struct NeighborSummary {
    num_non_zeros: u8,
}

impl NeighborSummary {
    /// Number of nonzero coefficients in the 7x7 square of the block.
    pub closed spec fn spec_num_non_zeros(&self) -> u8 {
        self.num_non_zeros
    }

    pub fn new(num_non_zeros: u8) -> (r: NeighborSummary)
        ensures
            r.spec_num_non_zeros() == num_non_zeros,
    {
        NeighborSummary { num_non_zeros }
    }

    pub fn get_num_non_zeros(&self) -> (r: u8)
        ensures
            r == self.spec_num_non_zeros(),
    {
        self.num_non_zeros
    }

    pub fn set_num_non_zeros(&mut self, num_non_zeros: u8)
        ensures
            final(self).spec_num_non_zeros() == num_non_zeros,
    {
        self.num_non_zeros = num_non_zeros;
    }
}

} // verus!
