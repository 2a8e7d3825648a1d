//! Fixed coefficient permutations between the JPEG zigzag order, the natural
//! raster order and the aligned order that blocks are stored in.
//!
//! In aligned order the 7x7 square of AC coefficients that excludes the first
//! row and the first column comes first (slots 0..49, itself in zigzag order),
//! then the DC coefficient (slot 49), then the rest of the first row (slots
//! 50..57) and the rest of the first column (slots 57..64).
use vstd::prelude::*;

verus! {

/// Aligned slot of the DC coefficient.
pub const ALIGNED_BLOCK_INDEX_DC_INDEX: usize = 49;

/// Number of aligned slots that make up the 7x7 AC square.
pub const NUM_7X7_COEFFICIENTS: usize = 49;

/// Aligned slot of each zigzag index.
pub const ZIGZAG_TO_ALIGNED: [u8; 64] = [
    49, 50, 57, 58, 0, 51, 52, 1, 2, 59, 60, 3, 4, 5, 53, 54,
    6, 7, 8, 9, 61, 62, 10, 11, 12, 13, 14, 55, 56, 15, 16, 17,
    18, 19, 20, 63, 21, 22, 23, 24, 25, 26, 27, 28, 29, 30, 31, 32,
    33, 34, 35, 36, 37, 38, 39, 40, 41, 42, 43, 44, 45, 46, 47, 48,
];

/// Aligned slot of each raster (row-major) index.
pub const RASTER_TO_ALIGNED: [u8; 64] = [
    49, 50, 51, 52, 53, 54, 55, 56,
    57, 0, 1, 5, 6, 14, 15, 27,
    58, 2, 4, 7, 13, 16, 26, 28,
    59, 3, 8, 12, 17, 25, 29, 38,
    60, 9, 11, 18, 24, 30, 37, 39,
    61, 10, 19, 23, 31, 36, 40, 45,
    62, 20, 22, 32, 35, 41, 44, 46,
    63, 21, 33, 34, 42, 43, 47, 48,
];

/// Zigzag index of each aligned slot (the inverse of `ZIGZAG_TO_ALIGNED`).
pub const ALIGNED_TO_ZIGZAG: [u8; 64] = [
    4, 7, 8, 11, 12, 13, 16, 17, 18, 19, 22, 23, 24, 25, 26, 29,
    30, 31, 32, 33, 34, 36, 37, 38, 39, 40, 41, 42, 43, 44, 45, 46,
    47, 48, 49, 50, 51, 52, 53, 54, 55, 56, 57, 58, 59, 60, 61, 62,
    63, 0, 1, 5, 6, 14, 15, 27, 28, 2, 3, 9, 10, 20, 21, 35,
];

/// Raster index of each aligned slot (the inverse of `RASTER_TO_ALIGNED`).
pub const ALIGNED_TO_RASTER: [u8; 64] = [
    9, 10, 17, 25, 18, 11, 12, 19, 26, 33, 41, 34, 27, 20, 13, 14,
    21, 28, 35, 42, 49, 57, 50, 43, 36, 29, 22, 15, 23, 30, 37, 44,
    51, 58, 59, 52, 45, 38, 31, 39, 46, 53, 60, 61, 54, 47, 55, 62,
    63, 0, 1, 2, 3, 4, 5, 6, 7, 8, 16, 24, 32, 40, 48, 56,
];

/// Raster index of each zigzag index: the JPEG scan order of an 8x8 block.
pub const ZIGZAG_TO_RASTER: [u8; 64] = [
    0, 1, 8, 16, 9, 2, 3, 10, 17, 24, 32, 25, 18, 11, 4, 5,
    12, 19, 26, 33, 40, 48, 41, 34, 27, 20, 13, 6, 7, 14, 21, 28,
    35, 42, 49, 56, 57, 50, 43, 36, 29, 22, 15, 23, 30, 37, 44, 51,
    58, 59, 52, 45, 38, 31, 39, 46, 53, 60, 61, 54, 47, 55, 62, 63,
];

pub open spec fn zigzag_to_aligned(i: int) -> int {
    ZIGZAG_TO_ALIGNED@[i] as int
}

pub open spec fn raster_to_aligned(i: int) -> int {
    RASTER_TO_ALIGNED@[i] as int
}

pub open spec fn aligned_to_zigzag(a: int) -> int {
    ALIGNED_TO_ZIGZAG@[a] as int
}

pub open spec fn aligned_to_raster(a: int) -> int {
    ALIGNED_TO_RASTER@[a] as int
}

pub open spec fn zigzag_to_raster(i: int) -> int {
    ZIGZAG_TO_RASTER@[i] as int
}

/// The tables agree on the first `n` indices: each forward table maps into
/// 0..64 and is undone by its inverse, and the zigzag and raster tables meet
/// through the JPEG scan order.
spec fn tables_agree_below(n: nat) -> bool
    decreases n,
{
    if n == 0 {
        true
    } else {
        let i = n - 1;
        &&& 0 <= zigzag_to_aligned(i) < 64
        &&& 0 <= raster_to_aligned(i) < 64
        &&& 0 <= aligned_to_zigzag(i) < 64
        &&& 0 <= aligned_to_raster(i) < 64
        &&& aligned_to_zigzag(zigzag_to_aligned(i)) == i
        &&& zigzag_to_aligned(aligned_to_zigzag(i)) == i
        &&& aligned_to_raster(raster_to_aligned(i)) == i
        &&& raster_to_aligned(aligned_to_raster(i)) == i
        &&& zigzag_to_aligned(i) == raster_to_aligned(zigzag_to_raster(i))
        &&& tables_agree_below(i as nat)
    }
}

proof fn lemma_tables_agree_below(n: nat, i: int)
    requires
        tables_agree_below(n),
        0 <= i < n,
    ensures
        0 <= zigzag_to_aligned(i) < 64,
        0 <= raster_to_aligned(i) < 64,
        0 <= aligned_to_zigzag(i) < 64,
        0 <= aligned_to_raster(i) < 64,
        aligned_to_zigzag(zigzag_to_aligned(i)) == i,
        zigzag_to_aligned(aligned_to_zigzag(i)) == i,
        aligned_to_raster(raster_to_aligned(i)) == i,
        raster_to_aligned(aligned_to_raster(i)) == i,
        zigzag_to_aligned(i) == raster_to_aligned(zigzag_to_raster(i)),
    decreases n,
{
    if i < n - 1 {
        lemma_tables_agree_below((n - 1) as nat, i);
    }
}

/// The zigzag and the raster tables are each a permutation of the 64 aligned
/// slots, undone by the matching inverse table, so that every coefficient of a
/// block can be reached, once, through either order. The DC coefficient is
/// index 0 in both orders, and a zigzag index and the raster index that the
/// JPEG scan order gives it name the same aligned slot.
pub proof fn lemma_coefficient_orders_are_permutations()
    ensures
        forall|i: int|
            0 <= i < 64 ==> {
                &&& 0 <= #[trigger] zigzag_to_aligned(i) < 64
                &&& aligned_to_zigzag(zigzag_to_aligned(i)) == i
            },
        forall|i: int|
            0 <= i < 64 ==> {
                &&& 0 <= #[trigger] raster_to_aligned(i) < 64
                &&& aligned_to_raster(raster_to_aligned(i)) == i
            },
        forall|a: int|
            0 <= a < 64 ==> {
                &&& 0 <= #[trigger] aligned_to_zigzag(a) < 64
                &&& zigzag_to_aligned(aligned_to_zigzag(a)) == a
            },
        forall|a: int|
            0 <= a < 64 ==> {
                &&& 0 <= #[trigger] aligned_to_raster(a) < 64
                &&& raster_to_aligned(aligned_to_raster(a)) == a
            },
        forall|i: int, j: int|
            0 <= i < 64 && 0 <= j < 64 && i != j ==> #[trigger] zigzag_to_aligned(i)
                != #[trigger] zigzag_to_aligned(j),
        forall|i: int, j: int|
            0 <= i < 64 && 0 <= j < 64 && i != j ==> #[trigger] raster_to_aligned(i)
                != #[trigger] raster_to_aligned(j),
        forall|i: int|
            0 <= i < 64 ==> #[trigger] zigzag_to_aligned(i) == raster_to_aligned(
                zigzag_to_raster(i),
            ),
        zigzag_to_aligned(0) == ALIGNED_BLOCK_INDEX_DC_INDEX,
        raster_to_aligned(0) == ALIGNED_BLOCK_INDEX_DC_INDEX,
{
    reveal_with_fuel(tables_agree_below, 65);
    assert(tables_agree_below(64));
    assert forall|i: int| 0 <= i < 64 implies {
        &&& 0 <= zigzag_to_aligned(i) < 64
        &&& 0 <= raster_to_aligned(i) < 64
        &&& 0 <= aligned_to_zigzag(i) < 64
        &&& 0 <= aligned_to_raster(i) < 64
        &&& aligned_to_zigzag(zigzag_to_aligned(i)) == i
        &&& zigzag_to_aligned(aligned_to_zigzag(i)) == i
        &&& aligned_to_raster(raster_to_aligned(i)) == i
        &&& raster_to_aligned(aligned_to_raster(i)) == i
        &&& zigzag_to_aligned(i) == raster_to_aligned(zigzag_to_raster(i))
    } by {
        lemma_tables_agree_below(64, i);
    }
}

/// Aligned slot of zigzag index `i`.
pub fn zigzag_slot(i: usize) -> (r: usize)
    requires
        i < 64,
    ensures
        r == zigzag_to_aligned(i as int),
        r < 64,
{
    proof {
        lemma_coefficient_orders_are_permutations();
    }
    ZIGZAG_TO_ALIGNED[i] as usize
}

/// Aligned slot of raster index `i`.
pub fn raster_slot(i: usize) -> (r: usize)
    requires
        i < 64,
    ensures
        r == raster_to_aligned(i as int),
        r < 64,
{
    proof {
        lemma_coefficient_orders_are_permutations();
    }
    RASTER_TO_ALIGNED[i] as usize
}

} // verus!
