//! The blocks of one color component, or of a contiguous range of its block
//! rows, addressed by global block position.
use vstd::prelude::*;

use crate::aligned_block::{zero_coefficients, AlignedBlock};
use crate::block_context::BlockContext;

verus! {

/// Number of blocks that a range of `rows` luma rows covers in a component of
/// `area` blocks, where the luma component is `luma_height` block rows high,
/// rounded up.
pub open spec fn rows_capacity(area: int, rows: int, luma_height: int) -> int {
    (area * rows + luma_height - 1) / luma_height
}

/// Global position of the first block of the component that luma row
/// `luma_y` covers, rounded down.
pub open spec fn rows_offset(area: int, luma_y: int, luma_height: int) -> int {
    (area * luma_y) / luma_height
}

/// For the luma component itself (whose height in blocks is `luma_height`),
/// a store of luma rows `[y_start, y_end)` is sized for exactly the blocks of
/// those rows and starts at the first block of row `y_start`.
pub proof fn lemma_luma_rows_exact(block_width: int, luma_height: int, y_start: int, y_end: int)
    requires
        0 <= block_width,
        0 < luma_height,
        0 <= y_start <= y_end,
    ensures
        rows_capacity(block_width * luma_height, y_end - y_start, luma_height) == block_width * (
        y_end - y_start),
        rows_offset(block_width * luma_height, y_start, luma_height) == block_width * y_start,
{
    let w = block_width;
    let h = luma_height;
    assert(w * h * (y_end - y_start) + h - 1 == h * (w * (y_end - y_start)) + (h - 1))
        by (nonlinear_arith);
    vstd::arithmetic::div_mod::lemma_fundamental_div_mod_converse(
        w * h * (y_end - y_start) + h - 1,
        h,
        w * (y_end - y_start),
        h - 1,
    );
    assert(w * h * y_start == h * (w * y_start) + 0) by (nonlinear_arith);
    vstd::arithmetic::div_mod::lemma_fundamental_div_mod_converse(
        w * h * y_start,
        h,
        w * y_start,
        0,
    );
}

proof fn lemma_floor_sum(p: int, q: int, h: int)
    requires
        0 <= p,
        0 <= q,
        0 < h,
    ensures
        p / h + q / h <= (p + q) / h,
{
    vstd::arithmetic::div_mod::lemma_fundamental_div_mod(p, h);
    vstd::arithmetic::div_mod::lemma_fundamental_div_mod(q, h);
    vstd::arithmetic::div_mod::lemma_fundamental_div_mod(p + q, h);
    let a = p / h;
    let b = q / h;
    let c = (p + q) / h;
    assert(h * c + (p + q) % h == h * a + p % h + h * b + q % h);
    assert(0 <= p % h < h && 0 <= q % h < h && 0 <= (p + q) % h < h);
    assert(h * (a + b - c) == (p + q) % h - p % h - q % h) by (nonlinear_arith)
        requires h * c + (p + q) % h == h * a + p % h + h * b + q % h;
    if a + b - c >= 1 {
        vstd::arithmetic::mul::lemma_mul_inequality(1, a + b - c, h);
        assert(h * (a + b - c) >= h) by (nonlinear_arith)
            requires a + b - c >= 1, h > 0;
    }
}

proof fn lemma_div_le(p: int, q: int, h: int)
    requires
        0 <= p <= q,
        0 < h,
    ensures
        p / h <= q / h,
{
    vstd::arithmetic::div_mod::lemma_div_is_ordered(p, q, h);
}

/// The blocks of the stores at `index` of the first `n` groups, in order.
pub open spec fn merged_blocks(images: Seq<Vec<BlockBasedImage>>, index: int, n: int) -> Seq<
    Seq<i16>,
>
    decreases n,
{
    if n <= 0 {
        Seq::empty()
    } else {
        merged_blocks(images, index, n - 1) + images[n - 1]@[index]@
    }
}

/// The stores at `index` of the groups can be merged: there is at least one,
/// each is well formed, they share the geometry of the first, and each
/// starts right where the blocks of the ones before it end.
pub open spec fn can_merge(images: Seq<Vec<BlockBasedImage>>, index: int) -> bool {
    &&& images.len() > 0
    &&& forall|k: int| 0 <= k < images.len() ==> 0 <= index < (#[trigger] images[k])@.len()
    &&& forall|k: int| 0 <= k < images.len() ==> (#[trigger] images[k])@[index].wf()
    &&& forall|k: int|
        0 <= k < images.len() ==> (#[trigger] images[k])@[index].spec_block_width()
            == images[0]@[index].spec_block_width()
    &&& forall|k: int|
        0 <= k < images.len() ==> (#[trigger] images[k])@[index].spec_original_height()
            == images[0]@[index].spec_original_height()
    &&& forall|k: int|
        0 <= k < images.len() ==> (#[trigger] images[k])@[index].spec_dpos_offset()
            == merged_blocks(images, index, k).len()
}

proof fn lemma_merged_blocks_prefix(
    images: Seq<Vec<BlockBasedImage>>,
    index: int,
    m: int,
    n: int,
    j: int,
)
    requires
        0 <= m <= n <= images.len(),
        0 <= j < merged_blocks(images, index, m).len(),
    ensures
        merged_blocks(images, index, m).len() <= merged_blocks(images, index, n).len(),
        merged_blocks(images, index, n)[j] == merged_blocks(images, index, m)[j],
    decreases n - m,
{
    if m < n {
        lemma_merged_blocks_prefix(images, index, m, n - 1, j);
    }
}

/// Merging stores that can be merged gives, at every global position, the
/// block that the store covering that position held: the same blocks as one
/// store built for the whole component. Its length is the sum of theirs.
pub proof fn lemma_merge_keeps_positions(
    images: Seq<Vec<BlockBasedImage>>,
    index: int,
    k: int,
    dpos: int,
)
    requires
        can_merge(images, index),
        0 <= k < images.len(),
        images[k]@[index].holds(dpos),
    ensures
        merged_blocks(images, index, images.len() as int)[dpos] == images[k]@[index].block_at(dpos),
        merged_blocks(images, index, images.len() as int).len() == images[images.len()
            - 1]@[index].end_dpos(),
{
    let n = images.len() as int;
    let off = images[k]@[index].spec_dpos_offset();
    assert(merged_blocks(images, index, k + 1)[dpos] == images[k]@[index]@[dpos - off]);
    lemma_merged_blocks_prefix(images, index, k + 1, n, dpos);
}

/// The blocks of one component, or of a contiguous range of its block rows
/// that one worker builds. Slot 0 of the store holds the block at global
/// position `dpos_offset`; stores of consecutive ranges can be merged.
pub struct BlockBasedImage {
    block_width: i32,
    original_height: i32,
    dpos_offset: i32,
    capacity: usize,
    image: Vec<AlignedBlock>,
}

impl View for BlockBasedImage {
    /// The coefficients of each block held, from slot 0 on.
    type V = Seq<Seq<i16>>;

    closed spec fn view(&self) -> Seq<Seq<i16>> {
        self.image@.map_values(|b: AlignedBlock| b@)
    }
}

impl BlockBasedImage {
    /// Blocks per row of the component.
    pub closed spec fn spec_block_width(&self) -> int {
        self.block_width as int
    }

    /// Block rows of the whole component.
    pub closed spec fn spec_original_height(&self) -> int {
        self.original_height as int
    }

    /// Global position of slot 0.
    pub closed spec fn spec_dpos_offset(&self) -> int {
        self.dpos_offset as int
    }

    /// Number of blocks that the store was sized for.
    pub closed spec fn spec_capacity(&self) -> int {
        self.capacity as int
    }

    /// The store never holds more than its capacity, and every position it
    /// can hold fits in an `i32`.
    pub closed spec fn wf(&self) -> bool {
        &&& 0 <= self.dpos_offset
        &&& self.dpos_offset + self.capacity <= i32::MAX
        &&& self.image@.len() <= self.capacity
    }

    /// One past the global position of the last block held.
    pub open spec fn end_dpos(&self) -> int {
        self.spec_dpos_offset() + self@.len()
    }

    /// Whether the store holds the block at global position `dpos`.
    pub open spec fn holds(&self, dpos: int) -> bool {
        self.spec_dpos_offset() <= dpos < self.end_dpos()
    }

    /// The block at global position `dpos`, or the zero block where the store
    /// holds none.
    pub open spec fn block_at(&self, dpos: int) -> Seq<i16> {
        if self.holds(dpos) {
            self@[dpos - self.spec_dpos_offset()]
        } else {
            zero_coefficients()
        }
    }

    /// A neighbor position is either -1 (absent) or a block held before `here`.
    pub open spec fn valid_neighbor(&self, dpos: int, here: int) -> bool {
        dpos == -1 || (self.spec_dpos_offset() <= dpos < here)
    }

    /// The coefficients of a neighbor: zero where it is absent.
    pub open spec fn neighbor_at(&self, dpos: int) -> Seq<i16> {
        if dpos == -1 {
            zero_coefficients()
        } else {
            self.block_at(dpos)
        }
    }

    /// Whether the store can grow to hold position `dpos`: the position lies
    /// within its capacity, and the first block written is the one at its
    /// own offset.
    pub open spec fn can_fill_to(&self, dpos: int) -> bool {
        &&& self.spec_dpos_offset() <= dpos < self.spec_dpos_offset() + self.spec_capacity()
        &&& self@.len() == 0 ==> dpos == self.spec_dpos_offset()
    }

    /// The blocks held after growing with zero blocks up to position `dpos`.
    pub open spec fn filled_to(&self, dpos: int) -> Seq<Seq<i16>> {
        let n = dpos - self.spec_dpos_offset() + 1;
        if n <= self@.len() {
            self@
        } else {
            self@ + Seq::new((n - self@.len()) as nat, |i: int| zero_coefficients())
        }
    }

    /// Whether `other` has the same geometry, offset and capacity.
    pub open spec fn same_frame(&self, other: &BlockBasedImage) -> bool {
        &&& self.spec_block_width() == other.spec_block_width()
        &&& self.spec_original_height() == other.spec_original_height()
        &&& self.spec_dpos_offset() == other.spec_dpos_offset()
        &&& self.spec_capacity() == other.spec_capacity()
    }

    /// After the block at `dpos` is stored, reading it back gives the
    /// coefficients stored, and every other position reads as before: the
    /// zero block where nothing was stored, including the positions that
    /// the store grew over.
    pub proof fn lemma_set_then_get(
        before: BlockBasedImage,
        after: BlockBasedImage,
        dpos: int,
        data: Seq<i16>,
        p: int,
    )
        requires
            before.wf(),
            before.can_fill_to(dpos),
            after.same_frame(&before),
            after@ == before.filled_to(dpos).update(dpos - before.spec_dpos_offset(), data),
        ensures
            after.block_at(dpos) == data,
            p != dpos ==> after.block_at(p) == before.block_at(p),
    {
    }

    /// What a well-formed store guarantees of its scalars.
    pub proof fn lemma_wf_bounds(&self)
        requires
            self.wf(),
        ensures
            0 <= self.spec_dpos_offset(),
            self.spec_dpos_offset() + self.spec_capacity() <= i32::MAX,
            self@.len() <= self.spec_capacity(),
    {
    }

    proof fn lemma_view_index(&self, i: int)
        requires
            0 <= i < self.image@.len(),
        ensures
            self@[i] == self.image@[i]@,
            self@.len() == self.image@.len(),
    {
    }

    /// An empty store for the component rows that luma rows
    /// `[luma_y_start, luma_y_end)` cover. The component is `block_width`
    /// blocks wide and `original_height` blocks high; the luma component is
    /// `luma_height` blocks high.
    pub fn new(
        block_width: i32,
        original_height: i32,
        luma_height: i32,
        luma_y_start: i32,
        luma_y_end: i32,
    ) -> (r: BlockBasedImage)
        requires
            0 <= block_width,
            0 <= original_height,
            block_width * original_height <= i32::MAX,
            0 < luma_height,
            0 <= luma_y_start <= luma_y_end <= luma_height,
        ensures
            r.wf(),
            r@.len() == 0,
            r.spec_block_width() == block_width,
            r.spec_original_height() == original_height,
            r.spec_capacity() == rows_capacity(
                block_width * original_height,
                luma_y_end - luma_y_start,
                luma_height as int,
            ),
            r.spec_dpos_offset() == rows_offset(
                block_width * original_height,
                luma_y_start as int,
                luma_height as int,
            ),
    {
        let max_size: i32 = block_width * original_height;
        let rows: i32 = luma_y_end - luma_y_start;
        let ghost a = max_size as int;
        let ghost h = luma_height as int;
        let ghost s = luma_y_start as int;
        let ghost e = luma_y_end as int;
        proof {
            assert(0 <= a * (e - s) <= a * h) by (nonlinear_arith)
                requires 0 <= a, 0 <= e - s <= h;
            assert(a * h <= 0x7fff_ffff * 0x7fff_ffff) by (nonlinear_arith)
                requires 0 <= a <= 0x7fff_ffff, 0 < h <= 0x7fff_ffff;
            assert(0 <= a * s <= a * h) by (nonlinear_arith)
                requires 0 <= a, 0 <= s <= h;
            assert(a * s + a * (e - s) == a * e) by (nonlinear_arith);
            assert(a * e <= a * h) by (nonlinear_arith)
                requires 0 <= a, 0 <= e <= h;
        }
        let image_capacity_wide: i64 = ((max_size as i64) * (rows as i64) + (luma_height as i64 - 1))
            / (luma_height as i64);
        let dpos_offset_wide: i64 = (max_size as i64) * (luma_y_start as i64) / (luma_height as i64);
        proof {
            lemma_floor_sum(a * s, a * (e - s) + h - 1, h);
            lemma_div_le(a * e + h - 1, a * h + h - 1, h);
            vstd::arithmetic::div_mod::lemma_fundamental_div_mod_converse(a * h + h - 1, h, a, h - 1);
            assert(0 <= image_capacity_wide);
            assert(0 <= dpos_offset_wide);
        }
        BlockBasedImage {
            block_width,
            original_height,
            image: Vec::with_capacity(image_capacity_wide as usize),
            capacity: image_capacity_wide as usize,
            dpos_offset: dpos_offset_wide as i32,
        }
    }

    pub fn get_block_width(&self) -> (r: i32)
        ensures
            r == self.spec_block_width(),
    {
        self.block_width
    }

    pub fn get_original_height(&self) -> (r: i32)
        ensures
            r == self.spec_original_height(),
    {
        self.original_height
    }

    /// Global position of slot 0.
    pub fn get_dpos_offset(&self) -> (r: i32)
        ensures
            r == self.spec_dpos_offset(),
    {
        self.dpos_offset
    }

    /// Number of blocks that the store was sized for.
    pub fn get_capacity(&self) -> (r: usize)
        ensures
            r == self.spec_capacity(),
    {
        self.capacity
    }

    /// Number of blocks held.
    pub fn len(&self) -> (r: usize)
        ensures
            r == self@.len(),
    {
        self.image.len()
    }

    /// Appends zero blocks until the store holds position `dpos`.
    fn fill_up_to_dpos(&mut self, dpos: i32)
        requires
            old(self).wf(),
            old(self).can_fill_to(dpos as int),
        ensures
            final(self).wf(),
            final(self).same_frame(old(self)),
            final(self)@ == old(self).filled_to(dpos as int),
            final(self).holds(dpos as int),
    {
        let target: usize = (dpos - self.dpos_offset) as usize;
        let ghost start = self@;
        while self.image.len() <= target
            invariant
                self.wf(),
                self.same_frame(old(self)),
                target == dpos - self.dpos_offset,
                target < self.capacity,
                start == old(self)@,
                self.image@.len() <= target + 1 || self.image@.len() == start.len(),
                self.image@.len() >= start.len(),
                self@ =~= start + Seq::new(
                    (self.image@.len() - start.len()) as nat,
                    |i: int| zero_coefficients(),
                ),
            decreases target + 1 - self.image@.len(),
        {
            let b = AlignedBlock::empty();
            let ghost prev = self@;
            self.image.push(b);
            assert(self@ =~= prev.push(zero_coefficients()));
        }
        assert(self@ =~= old(self).filled_to(dpos as int));
    }

    /// Stores the coefficients of the block at position `dpos`, growing the
    /// store with zero blocks up to it.
    pub fn set_block_data(&mut self, dpos: i32, block_data: &[i16; 64])
        requires
            old(self).wf(),
            old(self).can_fill_to(dpos as int),
        ensures
            final(self).wf(),
            final(self).same_frame(old(self)),
            final(self)@ == old(self).filled_to(dpos as int).update(
                dpos - old(self).spec_dpos_offset(),
                block_data@,
            ),
    {
        self.fill_up_to_dpos(dpos);
        let idx: usize = (dpos - self.dpos_offset) as usize;
        let ghost before = self@;
        self.image.set(idx, AlignedBlock::new(*block_data));
        assert(self@ =~= before.update(idx as int, block_data@));
    }

    /// The block at position `dpos`, or the zero block where the store holds
    /// none.
    pub fn get_block(&self, dpos: i32) -> (r: AlignedBlock)
        requires
            self.wf(),
        ensures
            r@ == self.block_at(dpos as int),
    {
        if dpos < self.dpos_offset || (dpos - self.dpos_offset) as usize >= self.image.len() {
            AlignedBlock::empty()
        } else {
            let r = self.image[(dpos - self.dpos_offset) as usize];
            proof {
                self.lemma_view_index(dpos - self.dpos_offset);
            }
            r
        }
    }

    /// The block at position `dpos` for writing, growing the store with zero
    /// blocks up to it.
    pub fn get_block_mut(&mut self, dpos: i32) -> (r: &mut AlignedBlock)
        requires
            old(self).wf(),
            old(self).can_fill_to(dpos as int),
        ensures
            r@ == old(self).block_at(dpos as int),
            final(self).wf(),
            final(self).same_frame(old(self)),
            final(self)@ == old(self).filled_to(dpos as int).update(
                dpos - old(self).spec_dpos_offset(),
                final(r)@,
            ),
    {
        self.fill_up_to_dpos(dpos);
        let idx: usize = (dpos - self.dpos_offset) as usize;
        proof {
            self.lemma_view_index(idx as int);
        }
        &mut self.image[idx]
    }

    /// Coefficients of the block at `dpos`, or zeros where `dpos` is -1.
    fn neighbor_data(&self, dpos: i32) -> (r: [i16; 64])
        requires
            self.wf(),
            dpos == -1 || self.holds(dpos as int),
        ensures
            r@ == self.neighbor_at(dpos as int),
    {
        if dpos == -1 {
            let r = [0i16; 64];
            assert(r@ =~= zero_coefficients());
            r
        } else {
            proof {
                self.lemma_view_index(dpos - self.dpos_offset);
            }
            *self.image[(dpos - self.dpos_offset) as usize].get_block()
        }
    }

    /// The coefficients of the blocks above, to the left and above-left of
    /// the block at `here`, zeros for each that is -1, and the block at
    /// `here` itself.
    pub fn get_blocks(&self, above: i32, left: i32, above_left: i32, here: i32) -> (r: (
        [i16; 64],
        [i16; 64],
        [i16; 64],
        &AlignedBlock,
    ))
        requires
            self.wf(),
            above == -1 || self.holds(above as int),
            left == -1 || self.holds(left as int),
            above_left == -1 || self.holds(above_left as int),
            self.holds(here as int),
        ensures
            r.0@ == self.neighbor_at(above as int),
            r.1@ == self.neighbor_at(left as int),
            r.2@ == self.neighbor_at(above_left as int),
            r.3@ == self.block_at(here as int),
    {
        proof {
            self.lemma_view_index(here - self.dpos_offset);
        }
        (
            self.neighbor_data(above),
            self.neighbor_data(left),
            self.neighbor_data(above_left),
            &self.image[(here - self.dpos_offset) as usize],
        )
    }

    /// As `get_blocks`, but the block at `here` is handed out for writing,
    /// and the store first grows with zero blocks up to it. Every neighbor
    /// that is present lies before `here`, so it is final already.
    pub fn get_blocks_mut(&mut self, above: i32, left: i32, above_left: i32, here: i32) -> (r: (
        [i16; 64],
        [i16; 64],
        [i16; 64],
        &mut AlignedBlock,
    ))
        requires
            old(self).wf(),
            old(self).can_fill_to(here as int),
            old(self).valid_neighbor(above as int, here as int),
            old(self).valid_neighbor(left as int, here as int),
            old(self).valid_neighbor(above_left as int, here as int),
        ensures
            r.0@ == old(self).neighbor_at(above as int),
            r.1@ == old(self).neighbor_at(left as int),
            r.2@ == old(self).neighbor_at(above_left as int),
            r.3@ == old(self).block_at(here as int),
            final(self).wf(),
            final(self).same_frame(old(self)),
            final(self)@ == old(self).filled_to(here as int).update(
                here - old(self).spec_dpos_offset(),
                final(r.3)@,
            ),
    {
        self.fill_up_to_dpos(here);
        let above_data = self.neighbor_data(above);
        let left_data = self.neighbor_data(left);
        let above_left_data = self.neighbor_data(above_left);
        let idx: usize = (here - self.dpos_offset) as usize;
        proof {
            self.lemma_view_index(idx as int);
        }
        (above_data, left_data, above_left_data, &mut self.image[idx])
    }

    /// A cursor on the first block of block row `y`. Its summary slots lie in
    /// the first half of the two-row ring on even rows, in the second half on
    /// odd rows.
    pub fn off_y(&self, y: i32) -> (r: BlockContext)
        requires
            0 <= y,
            0 <= self.spec_block_width(),
            self.spec_block_width() * y <= i32::MAX,
        ensures
            r.spec_block_width() == self.spec_block_width(),
            r.here_index() == self.spec_block_width() * y,
            r.above_index() == if y != 0 {
                self.spec_block_width() * (y - 1)
            } else {
                -1
            },
            r.here_summary_index() == if y % 2 == 1 {
                self.spec_block_width()
            } else {
                0
            },
            r.above_summary_index() == if y % 2 == 1 {
                0
            } else {
                self.spec_block_width()
            },
            self.spec_block_width() > 0 ==> r.is_at(y as int, 0),
    {
        proof {
            let w = self.spec_block_width();
            if y >= 1 {
                assert(0 <= w * (y - 1) <= w * y) by (nonlinear_arith)
                    requires 0 <= w, 1 <= y;
            }
        }
        BlockContext::new(
            self.block_width * y,
            if y != 0 {
                self.block_width * (y - 1)
            } else {
                -1
            },
            if y % 2 == 1 {
                self.block_width
            } else {
                0
            },
            if y % 2 == 1 {
                0
            } else {
                self.block_width
            },
            self,
        )
    }

    /// Merges the stores at `index` of each group, in the order given, into
    /// one store that starts at position 0. The blocks move out of the
    /// stores merged, which are left empty.
    pub fn merge(images: &mut Vec<Vec<BlockBasedImage>>, index: usize) -> (r: BlockBasedImage)
        requires
            can_merge(old(images)@, index as int),
        ensures
            r.wf(),
            r@ == merged_blocks(old(images)@, index as int, old(images)@.len() as int),
            r.spec_dpos_offset() == 0,
            r.spec_capacity() == r@.len(),
            r.spec_block_width() == old(images)@[0]@[index as int].spec_block_width(),
            r.spec_original_height() == old(images)@[0]@[index as int].spec_original_height(),
            final(images)@.len() == old(images)@.len(),
            forall|k: int|
                0 <= k < old(images)@.len() ==> (#[trigger] final(images)@[k])@.len() == old(
                    images,
                )@[k]@.len(),
            forall|k: int, j: int|
                0 <= k < old(images)@.len() && 0 <= j < old(images)@[k]@.len() && j != index
                    ==> #[trigger] final(images)@[k]@[j] == old(images)@[k]@[j],
            forall|k: int|
                0 <= k < old(images)@.len() ==> {
                    &&& (#[trigger] final(images)@[k])@[index as int].wf()
                    &&& final(images)@[k]@[index as int].same_frame(&old(images)@[k]@[index as int])
                    &&& final(images)@[k]@[index as int]@.len() == 0
                },
    {
        let ghost start = images@;
        let n = images.len();
        let mut total_size: usize = 0;
        let mut k: usize = 0;
        while k < n
            invariant
                images@ == start,
                n == start.len(),
                can_merge(start, index as int),
                k <= n,
                total_size == merged_blocks(start, index as int, k as int).len(),
                total_size <= i32::MAX,
            decreases n - k,
        {
            proof {
                start[k as int]@[index as int].lemma_wf_bounds();
                if k + 1 < n {
                    start[k + 1]@[index as int].lemma_wf_bounds();
                }
            }
            total_size = total_size + images[k][index].image.len();
            k = k + 1;
        }

        let mut contents: Vec<AlignedBlock> = Vec::with_capacity(total_size);
        let block_width = images[0][index].block_width;
        let original_height = images[0][index].original_height;
        k = 0;
        while k < n
            invariant
                n == start.len(),
                can_merge(start, index as int),
                k <= n,
                images@.len() == n,
                contents@.map_values(|b: AlignedBlock| b@) =~= merged_blocks(
                    start,
                    index as int,
                    k as int,
                ),
                total_size == merged_blocks(start, index as int, n as int).len(),
                block_width == start[0]@[index as int].block_width,
                original_height == start[0]@[index as int].original_height,
                forall|k2: int| 0 <= k2 < n ==> (#[trigger] images@[k2])@.len() == start[k2]@.len(),
                forall|k2: int, j: int|
                    0 <= k2 < n && 0 <= j < start[k2]@.len() && j != index
                        ==> #[trigger] images@[k2]@[j] == start[k2]@[j],
                forall|k2: int| k <= k2 < n ==> (#[trigger] images@[k2])@[index as int] == start[k2]@[index as int],
                forall|k2: int|
                    0 <= k2 < k ==> {
                        &&& (#[trigger] images@[k2])@[index as int].wf()
                        &&& images@[k2]@[index as int].same_frame(&start[k2]@[index as int])
                        &&& images@[k2]@[index as int]@.len() == 0
                    },
            decreases n - k,
        {
            let ghost before = contents@;
            let row: &mut Vec<BlockBasedImage> = &mut images[k];
            let store: &mut BlockBasedImage = &mut row[index];
            let ghost taken = store.image@;
            contents.append(&mut store.image);
            proof {
                assert(taken.map_values(|b: AlignedBlock| b@) == start[k as int]@[index as int]@);
                assert(contents@ == before + taken);
                assert(contents@.map_values(|b: AlignedBlock| b@) =~= before.map_values(
                    |b: AlignedBlock| b@,
                ) + taken.map_values(|b: AlignedBlock| b@));
            }
            assert(images@[k as int]@[index as int]@ =~= Seq::<Seq<i16>>::empty());
            k = k + 1;
        }
        proof {
            let last = start[n - 1]@[index as int];
            last.lemma_wf_bounds();
        }
        BlockBasedImage {
            block_width,
            original_height,
            image: contents,
            capacity: total_size,
            dpos_offset: 0,
        }
    }
}

} // verus!
