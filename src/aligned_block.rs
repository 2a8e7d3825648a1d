//! One 8x8 block of quantized coefficients, stored in aligned order.
use vstd::prelude::*;

use crate::coefficient_order::{
    lemma_coefficient_orders_are_permutations, raster_slot, raster_to_aligned, zigzag_slot,
    zigzag_to_aligned, ALIGNED_BLOCK_INDEX_DC_INDEX, NUM_7X7_COEFFICIENTS,
};

verus! {

/// The all-zero coefficients of a block that is absent.
pub open spec fn zero_coefficients() -> Seq<i16> {
    Seq::new(64, |i: int| 0i16)
}

/// Sum of the first `n` coefficients.
pub open spec fn coefficient_sum(s: Seq<i16>, n: int) -> int
    decreases n,
{
    if n <= 0 {
        0
    } else {
        coefficient_sum(s, n - 1) + s[n - 1]
    }
}

/// Number of nonzero coefficients among the first `n`.
pub open spec fn count_nonzero(s: Seq<i16>, n: int) -> int
    decreases n,
{
    if n <= 0 {
        0
    } else {
        count_nonzero(s, n - 1) + if s[n - 1] != 0 {
            1int
        } else {
            0int
        }
    }
}

proof fn lemma_count_nonzero_bounds(s: Seq<i16>, n: int)
    requires
        0 <= n,
    ensures
        0 <= count_nonzero(s, n) <= n,
    decreases n,
{
    if n > 0 {
        lemma_count_nonzero_bounds(s, n - 1);
    }
}

/// Writing coefficient `i` of a block through zigzag addressing and reading
/// it back through zigzag addressing gives the value written, and leaves
/// every other zigzag coefficient as it was; likewise for raster addressing.
pub proof fn lemma_coefficient_round_trip(block: Seq<i16>, i: int, j: int, v: i16)
    requires
        block.len() == 64,
        0 <= i < 64,
        0 <= j < 64,
    ensures
        block.update(zigzag_to_aligned(i), v)[zigzag_to_aligned(i)] == v,
        i != j ==> block.update(zigzag_to_aligned(i), v)[zigzag_to_aligned(j)]
            == block[zigzag_to_aligned(j)],
        block.update(raster_to_aligned(i), v)[raster_to_aligned(i)] == v,
        i != j ==> block.update(raster_to_aligned(i), v)[raster_to_aligned(j)]
            == block[raster_to_aligned(j)],
{
    lemma_coefficient_orders_are_permutations();
}

/// Block of 64 coefficients in aligned order: the 7x7 AC square first, then
/// the DC coefficient, then the edges.
#[derive(Clone, Copy, Debug)]
pub struct AlignedBlock {
    raw_data: [i16; 64],
}

impl View for AlignedBlock {
    type V = Seq<i16>;

    closed spec fn view(&self) -> Seq<i16> {
        self.raw_data@
    }
}

impl AlignedBlock {
    /// A block that holds the given coefficients, in aligned order.
    pub fn new(raw_data: [i16; 64]) -> (r: AlignedBlock)
        ensures
            r@ == raw_data@,
    {
        AlignedBlock { raw_data }
    }

    /// A block whose coefficients are all zero.
    pub fn empty() -> (r: AlignedBlock)
        ensures
            r@ == zero_coefficients(),
    {
        let r = AlignedBlock { raw_data: [0i16; 64] };
        assert(r@ =~= zero_coefficients());
        r
    }

    pub fn get_dc(&self) -> (r: i16)
        ensures
            r == self@[ALIGNED_BLOCK_INDEX_DC_INDEX as int],
    {
        self.raw_data[ALIGNED_BLOCK_INDEX_DC_INDEX]
    }

    pub fn set_dc(&mut self, value: i16)
        ensures
            final(self)@ == old(self)@.update(ALIGNED_BLOCK_INDEX_DC_INDEX as int, value),
    {
        self.raw_data[ALIGNED_BLOCK_INDEX_DC_INDEX] = value;
    }

    /// Writes the coefficient of zigzag index `index` into raw aligned data.
    pub fn set_coefficient_zigzag_block(block_data: &mut [i16; 64], index: u8, value: i16)
        requires
            index < 64,
        ensures
            final(block_data)@ == old(block_data)@.update(zigzag_to_aligned(index as int), value),
    {
        block_data[zigzag_slot(index as usize)] = value;
    }

    pub fn get_block(&self) -> (r: &[i16; 64])
        ensures
            r@ == self@,
    {
        &self.raw_data
    }

    pub fn get_block_mut(&mut self) -> (r: &mut [i16; 64])
        ensures
            r@ == old(self)@,
            final(self)@ == final(r)@,
    {
        &mut self.raw_data
    }

    /// Sum of all 64 coefficients.
    pub fn get_hash(&self) -> (r: i32)
        ensures
            r == coefficient_sum(self@, 64),
    {
        let mut sum: i32 = 0;
        let mut i: usize = 0;
        while i < 64
            invariant
                i <= 64,
                sum == coefficient_sum(self@, i as int),
                -32768 * i <= sum <= 32767 * i,
            decreases 64 - i,
        {
            sum = sum + self.raw_data[i] as i32;
            i = i + 1;
        }
        sum
    }

    /// Number of nonzero coefficients in the 7x7 AC square (aligned slots
    /// 0..49); the DC coefficient and the edges are not counted.
    pub fn get_count_of_non_zeros_7x7(&self) -> (r: u8)
        ensures
            r == count_nonzero(self@, NUM_7X7_COEFFICIENTS as int),
    {
        let mut num_non_zeros7x7: u8 = 0;
        let mut index: usize = 0;
        while index < NUM_7X7_COEFFICIENTS
            invariant
                index <= NUM_7X7_COEFFICIENTS,
                num_non_zeros7x7 == count_nonzero(self@, index as int),
            decreases NUM_7X7_COEFFICIENTS - index,
        {
            proof {
                lemma_count_nonzero_bounds(self@, index as int);
            }
            if self.raw_data[index] != 0 {
                num_non_zeros7x7 = num_non_zeros7x7 + 1;
            }
            index = index + 1;
        }
        num_non_zeros7x7
    }

    pub fn get_coefficient(&self, index: usize) -> (r: i16)
        requires
            index < 64,
        ensures
            r == self@[index as int],
    {
        self.raw_data[index]
    }

    pub fn set_coefficient(&mut self, index: usize, v: i16)
        requires
            index < 64,
        ensures
            final(self)@ == old(self)@.update(index as int, v),
    {
        self.raw_data[index] = v;
    }

    pub fn set_coefficient_zigzag(&mut self, index: usize, v: i16)
        requires
            index < 64,
        ensures
            final(self)@ == old(self)@.update(zigzag_to_aligned(index as int), v),
    {
        self.raw_data[zigzag_slot(index)] = v;
    }

    pub fn get_coefficient_zigzag(&self, index: usize) -> (r: i16)
        requires
            index < 64,
        ensures
            r == self@[zigzag_to_aligned(index as int)],
    {
        self.raw_data[zigzag_slot(index)]
    }

    pub fn set_coefficient_raster(&mut self, index: usize, v: i16)
        requires
            index < 64,
        ensures
            final(self)@ == old(self)@.update(raster_to_aligned(index as int), v),
    {
        self.raw_data[raster_slot(index)] = v;
    }

    pub fn get_coefficient_raster(&self, index: usize) -> (r: i16)
        requires
            index < 64,
        ensures
            r == self@[raster_to_aligned(index as int)],
    {
        self.raw_data[raster_slot(index)]
    }
}

} // verus!
