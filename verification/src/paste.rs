//! Putting a processed crop back into the frame it was cut from.

use crate::fixed::{floor_div, lemma_mul_bound, FRAC, PX};
use crate::grid::{grid_dim, grid_get, Grid};
use crate::tensor::{Tensor, TensorView};
use crate::umeyama::SimilarityTransform;
use vstd::prelude::*;

verus! {

impl SimilarityTransform {
    /// The column of the crop pixel onto which the transform maps frame pixel
    /// `(x, y)`: the x coordinate of the image point, in pixels, rounded down.
    pub open spec fn target_col(&self, x: int, y: int) -> int {
        (self.m11 * (x * PX) + self.m12 * (y * PX) + self.t1 * FRAC) / (FRAC * PX)
    }

    /// The row of that crop pixel.
    pub open spec fn target_row(&self, x: int, y: int) -> int {
        (self.m21 * (x * PX) + self.m22 * (y * PX) + self.t2 * FRAC) / (FRAC * PX)
    }

    /// The crop pixel `(column, row)` onto which the transform maps frame
    /// pixel `(x, y)`.
    pub fn target_pixel(&self, x: usize, y: usize) -> (p: (i128, i128))
        requires
            self.wf(),
            x <= isize::MAX,
            y <= isize::MAX,
        ensures
            p.0 == self.target_col(x as int, y as int),
            p.1 == self.target_row(x as int, y as int),
    {
        let px: i128 = (x as i128) * (PX as i128);
        let py: i128 = (y as i128) * (PX as i128);
        proof {
            lemma_mul_bound(self.m11 as int, px as int, 0x8_0000_0000, 0x2_0000_0000_0000_0000_0000);
            lemma_mul_bound(self.m12 as int, py as int, 0x8_0000_0000, 0x2_0000_0000_0000_0000_0000);
            lemma_mul_bound(self.m21 as int, px as int, 0x8_0000_0000, 0x2_0000_0000_0000_0000_0000);
            lemma_mul_bound(self.m22 as int, py as int, 0x8_0000_0000, 0x2_0000_0000_0000_0000_0000);
            lemma_mul_bound(self.t1 as int, FRAC as int, 0x2000_0000_0000, FRAC as int);
            lemma_mul_bound(self.t2 as int, FRAC as int, 0x2000_0000_0000, FRAC as int);
        }
        let unit: i128 = (FRAC as i128) * (PX as i128);
        let nx: i128 = (self.m11 as i128) * px + (self.m12 as i128) * py + (self.t1 as i128) * (
        FRAC as i128);
        let ny: i128 = (self.m21 as i128) * px + (self.m22 as i128) * py + (self.t2 as i128) * (
        FRAC as i128);
        (floor_div(nx, unit), floor_div(ny, unit))
    }
}

impl TensorView {
    /// The sample at `(n, c, y, x)` of this frame once `patch` has been put
    /// back through `warp`: where `warp` maps the pixel onto a pixel of the
    /// patch, and the patch has that channel, the patch's sample; elsewhere
    /// the frame's own.
    pub open spec fn composited_at(
        self,
        patch: TensorView,
        warp: SimilarityTransform,
        n: int,
        c: int,
        y: int,
        x: int,
    ) -> int {
        let col = warp.target_col(x, y);
        let row = warp.target_row(x, y);
        if patch.has(0, c, row, col) {
            patch.at(0, c, row, col)
        } else {
            self.at(n, c, y, x)
        }
    }

    /// This frame with `patch` put back through `warp`: the frame's shape and
    /// encoding, each sample [`TensorView::composited_at`].
    pub open spec fn composited(self, patch: TensorView, warp: SimilarityTransform) -> TensorView {
        TensorView::tabulated(
            self.normal,
            self.dim,
            |n: int, c: int, y: int, x: int| self.composited_at(patch, warp, n, c, y, x),
        )
    }
}

impl Tensor {
    /// One sample of this frame with `patch` put back through `warp`: that at
    /// `(n, c, y, x)`. The samples do not depend on one another.
    pub fn sample_composite(
        &self,
        patch: &Tensor,
        warp: &SimilarityTransform,
        n: usize,
        c: usize,
        y: usize,
        x: usize,
    ) -> (v: i32)
        requires
            warp.wf(),
            self.has(n as int, c as int, y as int, x as int),
        ensures
            v == self@.composited_at(patch@, *warp, n as int, c as int, y as int, x as int),
    {
        let d = grid_dim(&self.data);
        assert(x <= isize::MAX && y <= isize::MAX) by (nonlinear_arith)
            requires
                d.0 * d.1 * d.2 * d.3 <= isize::MAX,
                n < d.0,
                c < d.1,
                y < d.2,
                x < d.3,
        ;
        let pd = patch.dim();
        let (col, row) = warp.target_pixel(x, y);
        if pd.0 >= 1 && c < pd.1 && 0 <= row && row < pd.2 as i128 && 0 <= col && col
            < pd.3 as i128 {
            grid_get(&patch.data, 0, c, row as usize, col as usize)
        } else {
            grid_get(&self.data, n, c, y, x)
        }
    }

    /// This frame with `patch` put back into it through `warp`, the transform
    /// through which the patch was cut from the frame. The result,
    /// [`TensorView::composited`], has the frame's shape and encoding.
    pub fn composite(&self, patch: &Tensor, warp: &SimilarityTransform) -> (t: Tensor)
        requires
            warp.wf(),
        ensures
            t@ == self@.composited(patch@, *warp),
    {
        let d = grid_dim(&self.data);
        let ghost goal = |n: int, c: int, y: int, x: int|
            self@.composited_at(patch@, *warp, n, c, y, x);
        let f = |n: usize, c: usize, y: usize, x: usize| -> (v: i32)
            requires
                n < d.0 && c < d.1 && y < d.2 && x < d.3,
            ensures
                v == goal(n as int, c as int, y as int, x as int),
            { self.sample_composite(patch, warp, n, c, y, x) };
        let data = Grid::tabulate(d.0, d.1, d.2, d.3, f);
        let t = Tensor { normal: self.normal, data };
        proof {
            assert forall|n: int, c: int, y: int, x: int| t.has(n, c, y, x) implies #[trigger] t.at(
                n,
                c,
                y,
                x,
            ) == goal(n, c, y, x) by {
                assert(call_ensures(
                    f,
                    (n as usize, c as usize, y as usize, x as usize),
                    t.data.at(
                        n as usize as int,
                        c as usize as int,
                        y as usize as int,
                        x as usize as int,
                    ),
                ));
            }
            t.lemma_tabulated(goal);
        }
        t
    }
}

} // verus!
