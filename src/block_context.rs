//! Cursor over the blocks of a store, in row-major order, that tracks the
//! positions of the neighbors of the current block and the slots of a
//! two-row ring of neighbor summaries.
use vstd::prelude::*;

use crate::aligned_block::AlignedBlock;
use crate::block_based_image::BlockBasedImage;
use crate::neighbor_summary::NeighborSummary;

verus! {

/// The cursor after `k` steps from `start`, each step telling whether the
/// block left was not the last of its row.
pub open spec fn walk(start: BlockContext, k: nat) -> BlockContext
    decreases k,
{
    if k == 0 {
        start
    } else {
        let prev = walk(start, (k - 1) as nat);
        prev.stepped((prev.here_index() + 1) % prev.spec_block_width() != 0)
    }
}

/// Position of the cursor over a component that is `block_width` blocks
/// wide. The summary ring holds two rows: even rows use its first half,
/// odd rows its second.
pub struct BlockContext {
    block_width: i32,
    cur_block_index: i32,
    above_block_index: i32,
    cur_num_non_zeros_index: i32,
    above_num_non_zero_index: i32,
}

impl BlockContext {
    pub closed spec fn spec_block_width(&self) -> int {
        self.block_width as int
    }

    /// Global position of the current block.
    pub closed spec fn here_index(&self) -> int {
        self.cur_block_index as int
    }

    /// Global position of the block above (a placeholder on the first row).
    pub closed spec fn above_index(&self) -> int {
        self.above_block_index as int
    }

    /// Ring slot of the current block's summary.
    pub closed spec fn here_summary_index(&self) -> int {
        self.cur_num_non_zeros_index as int
    }

    /// Ring slot of the summary of the block above.
    pub closed spec fn above_summary_index(&self) -> int {
        self.above_num_non_zero_index as int
    }

    /// The cursor after one step; `has_more` says whether the block it
    /// leaves is not the last of its row.
    pub closed spec fn stepped(self, has_more: bool) -> BlockContext {
        let w = self.block_width as int;
        let cur = self.cur_block_index + 1;
        let above = if cur < w {
            cur + w
        } else {
            cur - w
        };
        let cur_nz = self.cur_num_non_zeros_index + 1;
        let above_nz = self.above_num_non_zero_index + 1;
        let (cur_nz, above_nz) = if has_more {
            (cur_nz, above_nz)
        } else if cur_nz < above_nz {
            (cur_nz, above_nz - 2 * w)
        } else {
            (cur_nz - 2 * w, above_nz)
        };
        BlockContext {
            block_width: self.block_width,
            cur_block_index: cur as i32,
            above_block_index: above as i32,
            cur_num_non_zeros_index: cur_nz as i32,
            above_num_non_zero_index: above_nz as i32,
        }
    }

    /// Every index that a step computes fits in an `i32`.
    pub open spec fn can_step(&self) -> bool {
        let w = self.spec_block_width();
        let cur = self.here_index() + 1;
        &&& 0 <= w
        &&& 2 * w <= i32::MAX
        &&& cur + w <= i32::MAX
        &&& cur - w >= i32::MIN
        &&& self.here_summary_index() + 1 <= i32::MAX
        &&& self.above_summary_index() + 1 <= i32::MAX
        &&& self.here_summary_index() + 1 - 2 * w >= i32::MIN
        &&& self.above_summary_index() + 1 - 2 * w >= i32::MIN
    }

    /// The cursor stands on row `y`, column `x` of the component: every
    /// index is the one that a walk from the start of a row reaches there.
    pub open spec fn is_at(&self, y: int, x: int) -> bool {
        let w = self.spec_block_width();
        &&& 0 <= y
        &&& 0 <= x < w
        &&& self.here_index() == w * y + x
        &&& self.above_index() == if y > 0 {
            w * (y - 1) + x
        } else if x == 0 {
            -1
        } else {
            w * y + x + w
        }
        &&& self.here_summary_index() == (if y % 2 == 1 {
            w
        } else {
            0
        }) + x
        &&& self.above_summary_index() == (if y % 2 == 1 {
            0
        } else {
            w
        }) + x
    }

    /// Position handed to the store for the block above: -1 where absent.
    pub open spec fn above_neighbor(&self, above_present: bool) -> int {
        if above_present {
            self.above_index()
        } else {
            -1
        }
    }

    /// Position handed to the store for the block to the left: -1 where absent.
    pub open spec fn left_neighbor(&self, left_present: bool) -> int {
        if left_present {
            self.here_index() - 1
        } else {
            -1
        }
    }

    /// Position handed to the store for the block above-left: -1 where absent.
    pub open spec fn above_left_neighbor(&self, left_present: bool, above_present: bool) -> int {
        if above_present && left_present {
            self.above_index() - 1
        } else {
            -1
        }
    }

    pub fn new(
        cur_block_index: i32,
        above_block_index: i32,
        cur_num_non_zeros_index: i32,
        above_num_non_zero_index: i32,
        image_data: &BlockBasedImage,
    ) -> (r: BlockContext)
        ensures
            r.spec_block_width() == image_data.spec_block_width(),
            r.here_index() == cur_block_index,
            r.above_index() == above_block_index,
            r.here_summary_index() == cur_num_non_zeros_index,
            r.above_summary_index() == above_num_non_zero_index,
    {
        BlockContext {
            block_width: image_data.get_block_width(),
            cur_block_index,
            above_block_index,
            cur_num_non_zeros_index,
            above_num_non_zero_index,
        }
    }

    /// Global position of the current block.
    pub fn get_here_index(&self) -> (r: i32)
        ensures
            r == self.here_index(),
    {
        self.cur_block_index
    }

    /// Moves to the next block and returns its position. `has_more` is false
    /// when the block left is the last of its row: the summary slot that is
    /// about to start a new row then wraps back by two rows.
    pub fn next(&mut self, has_more: bool) -> (r: i32)
        requires
            old(self).can_step(),
        ensures
            *final(self) == old(self).stepped(has_more),
            r == final(self).here_index(),
    {
        self.cur_block_index = self.cur_block_index + 1;

        let retval = self.cur_block_index;

        if retval < self.block_width {
            self.above_block_index = self.cur_block_index + self.block_width;
        } else {
            self.above_block_index = self.cur_block_index - self.block_width;
        }

        self.cur_num_non_zeros_index = self.cur_num_non_zeros_index + 1;
        self.above_num_non_zero_index = self.above_num_non_zero_index + 1;

        if !has_more {
            let cur_row_first = self.cur_num_non_zeros_index < self.above_num_non_zero_index;
            if cur_row_first {
                self.above_num_non_zero_index = self.above_num_non_zero_index - self.block_width * 2;
            } else {
                self.cur_num_non_zeros_index = self.cur_num_non_zeros_index - self.block_width * 2;
            }
        }

        retval
    }

    /// The coefficients of the neighbors of the current block in `image_data`,
    /// zeros for each that the flags mark absent, and the current block
    /// handed out for writing.
    pub fn get_blocks_mut<'a>(
        &self,
        image_data: &'a mut BlockBasedImage,
        left_present: bool,
        above_present: bool,
    ) -> (r: ([i16; 64], [i16; 64], [i16; 64], &'a mut AlignedBlock))
        requires
            old(image_data).wf(),
            old(image_data).can_fill_to(self.here_index()),
            old(image_data).valid_neighbor(self.above_neighbor(above_present), self.here_index()),
            old(image_data).valid_neighbor(self.left_neighbor(left_present), self.here_index()),
            old(image_data).valid_neighbor(
                self.above_left_neighbor(left_present, above_present),
                self.here_index(),
            ),
        ensures
            r.0@ == old(image_data).neighbor_at(self.above_neighbor(above_present)),
            r.1@ == old(image_data).neighbor_at(self.left_neighbor(left_present)),
            r.2@ == old(image_data).neighbor_at(
                self.above_left_neighbor(left_present, above_present),
            ),
            r.3@ == old(image_data).block_at(self.here_index()),
            final(image_data).wf(),
            final(image_data).same_frame(old(image_data)),
            final(image_data)@ == old(image_data).filled_to(self.here_index()).update(
                self.here_index() - old(image_data).spec_dpos_offset(),
                final(r.3)@,
            ),
    {
        proof {
            old(image_data).lemma_wf_bounds();
        }
        image_data.get_blocks_mut(
            if above_present {
                self.above_block_index
            } else {
                -1
            },
            if left_present {
                self.cur_block_index - 1
            } else {
                -1
            },
            if above_present && left_present {
                self.above_block_index - 1
            } else {
                -1
            },
            self.cur_block_index,
        )
    }

    /// The coefficients of the neighbors of the current block in `image_data`,
    /// zeros for each that the flags mark absent, and the current block.
    pub fn get_blocks<'a>(
        &self,
        image_data: &'a BlockBasedImage,
        left_present: bool,
        above_present: bool,
    ) -> (r: ([i16; 64], [i16; 64], [i16; 64], &'a AlignedBlock))
        requires
            image_data.wf(),
            image_data.holds(self.here_index()),
            self.above_neighbor(above_present) == -1 || image_data.holds(
                self.above_neighbor(above_present),
            ),
            self.left_neighbor(left_present) == -1 || image_data.holds(
                self.left_neighbor(left_present),
            ),
            self.above_left_neighbor(left_present, above_present) == -1 || image_data.holds(
                self.above_left_neighbor(left_present, above_present),
            ),
        ensures
            r.0@ == image_data.neighbor_at(self.above_neighbor(above_present)),
            r.1@ == image_data.neighbor_at(self.left_neighbor(left_present)),
            r.2@ == image_data.neighbor_at(self.above_left_neighbor(left_present, above_present)),
            r.3@ == image_data.block_at(self.here_index()),
    {
        proof {
            image_data.lemma_wf_bounds();
        }
        image_data.get_blocks(
            if above_present {
                self.above_block_index
            } else {
                -1
            },
            if left_present {
                self.cur_block_index - 1
            } else {
                -1
            },
            if above_present && left_present {
                self.above_block_index - 1
            } else {
                -1
            },
            self.cur_block_index,
        )
    }

    /// Number of nonzero coefficients of the block above, from the ring.
    pub fn get_non_zeros_above(&self, num_non_zeros: &[NeighborSummary]) -> (r: u8)
        requires
            0 <= self.above_summary_index() < num_non_zeros@.len(),
        ensures
            r == num_non_zeros@[self.above_summary_index()].spec_num_non_zeros(),
    {
        num_non_zeros[self.above_num_non_zero_index as usize].get_num_non_zeros()
    }

    /// Number of nonzero coefficients of the block to the left, from the ring.
    pub fn get_non_zeros_left(&self, num_non_zeros: &[NeighborSummary]) -> (r: u8)
        requires
            0 <= self.here_summary_index() - 1 < num_non_zeros@.len(),
        ensures
            r == num_non_zeros@[self.here_summary_index() - 1].spec_num_non_zeros(),
    {
        num_non_zeros[(self.cur_num_non_zeros_index - 1) as usize].get_num_non_zeros()
    }

    /// The ring slot of the current block, for writing its summary.
    pub fn neighbor_context_here<'a>(
        &mut self,
        num_non_zeros: &'a mut [NeighborSummary],
    ) -> (r: &'a mut NeighborSummary)
        requires
            0 <= old(self).here_summary_index() < old(num_non_zeros)@.len(),
        ensures
            *final(self) == *old(self),
            *r == old(num_non_zeros)@[old(self).here_summary_index()],
            final(num_non_zeros)@ == old(num_non_zeros)@.update(
                old(self).here_summary_index(),
                *final(r),
            ),
    {
        &mut num_non_zeros[self.cur_num_non_zeros_index as usize]
    }

    /// The summary of the block above.
    pub fn neighbor_context_above<'a>(&self, num_non_zeros: &'a [NeighborSummary]) -> (r:
        &'a NeighborSummary)
        requires
            0 <= self.above_summary_index() < num_non_zeros@.len(),
        ensures
            *r == num_non_zeros@[self.above_summary_index()],
    {
        &num_non_zeros[self.above_num_non_zero_index as usize]
    }

    /// The summary of the block to the left.
    pub fn neighbor_context_left<'a>(&self, num_non_zeros: &'a [NeighborSummary]) -> (r:
        &'a NeighborSummary)
        requires
            0 <= self.here_summary_index() - 1 < num_non_zeros@.len(),
        ensures
            *r == num_non_zeros@[self.here_summary_index() - 1],
    {
        &num_non_zeros[(self.cur_num_non_zeros_index - 1) as usize]
    }

    /// From row `y`, column `x`, a step that is told whether the block left
    /// is the last of its row reaches the next block in row-major order; on
    /// a row change the summary slots move to the other half of the ring.
    pub proof fn lemma_step_row_major(self, y: int, x: int)
        requires
            self.is_at(y, x),
            self.can_step(),
        ensures
            ({
                let next = self.stepped(x + 1 < self.spec_block_width());
                &&& next.spec_block_width() == self.spec_block_width()
                &&& next.here_index() == self.here_index() + 1
                &&& x + 1 < self.spec_block_width() ==> next.is_at(y, x + 1)
                &&& x + 1 == self.spec_block_width() ==> next.is_at(y + 1, 0)
            }),
    {
        let w = self.spec_block_width();
        assert(w * (y + 1) == w * y + w) by (nonlinear_arith);
        if y >= 1 {
            assert(w * y >= w) by (nonlinear_arith)
                requires y >= 1, w > 0;
            assert(w * (y - 1) == w * y - w) by (nonlinear_arith);
        } else {
            assert(w * y == 0) by (nonlinear_arith)
                requires y == 0;
        }
    }

    /// With the presence flags set from the row and column that the cursor
    /// stands on, the positions handed to the store are the grid neighbors
    /// of the current block: above, left and above-left, each absent (-1) on
    /// the first row or the first column.
    pub proof fn lemma_neighbors_on_grid(self, y: int, x: int)
        requires
            self.is_at(y, x),
        ensures
            self.above_neighbor(y > 0) == if y > 0 {
                self.here_index() - self.spec_block_width()
            } else {
                -1
            },
            self.left_neighbor(x > 0) == if x > 0 {
                self.here_index() - 1
            } else {
                -1
            },
            self.above_left_neighbor(x > 0, y > 0) == if x > 0 && y > 0 {
                self.here_index() - self.spec_block_width() - 1
            } else {
                -1
            },
    {
        let w = self.spec_block_width();
        assert(w * (y - 1) == w * y - w) by (nonlinear_arith);
    }
}

/// A walk from the first block of row `y` visits the component's blocks in
/// row-major order, one position per step: after `k` steps it stands on row
/// `y + k / w`, column `k % w`. Its two summary slots always lie in a ring of
/// two rows (`2 * w` slots), however many rows it crosses.
pub proof fn lemma_walk_row_major(start: BlockContext, y: int, k: nat)
    requires
        start.is_at(y, 0),
        start.spec_block_width() > 0,
        start.spec_block_width() * (y + k as int / start.spec_block_width() + 2) <= i32::MAX,
    ensures
        ({
            let w = start.spec_block_width();
            let c = walk(start, k);
            &&& c.spec_block_width() == w
            &&& c.is_at(y + k as int / w, k as int % w)
            &&& c.here_index() == start.here_index() + k
            &&& 0 <= c.here_summary_index() < 2 * w
            &&& 0 <= c.above_summary_index() < 2 * w
        }),
    decreases k,
{
    let w = start.spec_block_width();
    if k == 0 {
        vstd::arithmetic::div_mod::lemma_fundamental_div_mod_converse(0, w, 0, 0);
    } else {
        let k1 = (k - 1) as nat;
        vstd::arithmetic::div_mod::lemma_fundamental_div_mod(k1 as int, w);
        vstd::arithmetic::div_mod::lemma_fundamental_div_mod(k as int, w);
        let q = k1 as int / w;
        let r = k1 as int % w;
        if r + 1 < w {
            assert(k == q * w + (r + 1)) by (nonlinear_arith)
                requires k1 == w * q + r, k == k1 + 1;
            vstd::arithmetic::div_mod::lemma_fundamental_div_mod_converse(k as int, w, q, r + 1);
        } else {
            assert(k == (q + 1) * w + 0) by (nonlinear_arith)
                requires k1 == w * q + r, r + 1 == w, k == k1 + 1;
            vstd::arithmetic::div_mod::lemma_fundamental_div_mod_converse(k as int, w, q + 1, 0);
        }
        assert(w * (y + q + 2) <= w * (y + k as int / w + 2)) by (nonlinear_arith)
            requires w > 0, q <= k as int / w;
        lemma_walk_row_major(start, y, k1);
        let prev = walk(start, k1);
        let py = y + q;
        assert(w * (py + 2) == w * py + 2 * w) by (nonlinear_arith);
        assert(w * py >= 0) by (nonlinear_arith)
            requires w > 0, py >= 0;
        assert(2 * w <= w * (py + 2)) by (nonlinear_arith)
            requires w > 0, py >= 0;
        assert(prev.can_step());
        if r + 1 < w {
            assert(prev.here_index() + 1 == py * w + (r + 1)) by (nonlinear_arith)
                requires prev.here_index() == w * py + r;
            vstd::arithmetic::div_mod::lemma_fundamental_div_mod_converse(
                prev.here_index() + 1,
                w,
                py,
                r + 1,
            );
        } else {
            assert(prev.here_index() + 1 == (py + 1) * w + 0) by (nonlinear_arith)
                requires prev.here_index() == w * py + r, r + 1 == w;
            vstd::arithmetic::div_mod::lemma_fundamental_div_mod_converse(
                prev.here_index() + 1,
                w,
                py + 1,
                0,
            );
        }
        prev.lemma_step_row_major(py, r);
        assert(walk(start, k) == prev.stepped(r + 1 < w));
        if r + 1 < w {
            assert(walk(start, k).is_at(py, r + 1));
        } else {
            assert(walk(start, k).is_at(py + 1, 0));
        }
    }
}

} // verus!
