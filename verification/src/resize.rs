//! Bilinear resizing of a tensor's two spatial axes.

use crate::error::Error;
use crate::fixed::{floor_div, lemma_div_between};
use crate::grid::{grid_get, shape_fits, Grid};
use crate::tensor::{Tensor, TensorView};
use vstd::prelude::*;

verus! {

/// The lower source neighbour of output position `x`, when `target` output
/// positions are spread over `cur` source positions: the floor of the
/// continuous position `x * cur / target`.
pub open spec fn axis_low(cur: int, target: int, x: int) -> int {
    (x * cur) / target
}

/// The upper source neighbour: the ceiling of the continuous position, held
/// back to the last source position `cur - 1`.
pub open spec fn axis_high(cur: int, target: int, x: int) -> int {
    if (x * cur) % target == 0 || axis_low(cur, target, x) + 1 > cur - 1 {
        axis_low(cur, target, x)
    } else {
        axis_low(cur, target, x) + 1
    }
}

/// The weight of the upper neighbour, in units of `1 / target`: the distance
/// from the lower neighbour to the continuous position. It is zero when the
/// two neighbours coincide, so that the lower one is sampled directly.
pub open spec fn axis_weight(cur: int, target: int, x: int) -> int {
    if axis_high(cur, target, x) == axis_low(cur, target, x) {
        0
    } else {
        (x * cur) % target
    }
}

/// The bilinear blend of four corner samples, rounded down. `wx` of `tx` and
/// `wy` of `ty` are the weights of the upper neighbours along the two axes.
pub open spec fn blend(
    v_ll: int,
    v_hl: int,
    v_lh: int,
    v_hh: int,
    tx: int,
    ty: int,
    wx: int,
    wy: int,
) -> int {
    (v_ll * ((tx - wx) * (ty - wy)) + v_hl * (wx * (ty - wy)) + v_lh * ((tx - wx) * wy) + v_hh * (wx
        * wy)) / (tx * ty)
}

/// The neighbours and upper weight of output position `x` along one axis.
pub fn axis_sample(cur: usize, target: usize, x: usize) -> (r: (usize, usize, usize))
    requires
        cur > 0,
        x < target,
    ensures
        r.0 == axis_low(cur as int, target as int, x as int),
        r.1 == axis_high(cur as int, target as int, x as int),
        r.2 == axis_weight(cur as int, target as int, x as int),
        r.0 <= r.1 < cur,
        r.1 <= r.0 + 1,
        r.2 < target,
{
    assert(0 <= x * cur < target * cur <= 0xffff_ffff_ffff_ffff * 0xffff_ffff_ffff_ffff)
        by (nonlinear_arith)
        requires
            0 <= x < target <= 0xffff_ffff_ffff_ffff,
            0 < cur <= 0xffff_ffff_ffff_ffff,
    ;
    let pos: u128 = (x as u128) * (cur as u128);
    let lo: u128 = pos / (target as u128);
    let rem: u128 = pos % (target as u128);
    proof {
        assert(0 * target <= pos < (cur - 1 + 1) * target) by (nonlinear_arith)
            requires
                pos == x * cur,
                0 <= x < target,
                cur > 0,
        ;
        lemma_div_between(pos as int, target as int, 0, cur as int - 1);
    }
    if rem == 0 || lo + 1 > (cur as u128) - 1 {
        (lo as usize, lo as usize, 0)
    } else {
        (lo as usize, (lo + 1) as usize, rem as usize)
    }
}

impl TensorView {
    /// Whether the tensor already has the spatial size `size`.
    pub open spec fn sized(self, size: (int, int)) -> bool {
        self.dim.2 == size.0 && self.dim.3 == size.1
    }

    /// Whether the tensor can be resized to `size`: the new shape can be
    /// allocated and, unless it is empty, the tensor has a first batch entry,
    /// three channels and a non-empty plane to sample.
    pub open spec fn resizable(self, size: (int, int)) -> bool {
        &&& Tensor::shape_fits(1, 3, size.0 as nat, size.1 as nat)
        &&& (size.0 == 0 || size.1 == 0 || (self.dim.0 >= 1 && self.dim.1 >= 3 && self.dim.2 >= 1
            && self.dim.3 >= 1))
    }

    /// The sample of channel `c` at output position `(x, y)` after resizing to
    /// `size`: the blend of the four source neighbours of the continuous
    /// position `(x * rows / size.0, y * columns / size.1)`.
    pub open spec fn resized_at(self, size: (int, int), c: int, x: int, y: int) -> int {
        let cx = self.dim.2 as int;
        let cy = self.dim.3 as int;
        let xl = axis_low(cx, size.0, x);
        let xh = axis_high(cx, size.0, x);
        let yl = axis_low(cy, size.1, y);
        let yh = axis_high(cy, size.1, y);
        blend(
            self.at(0, c, xl, yl),
            self.at(0, c, xh, yl),
            self.at(0, c, xl, yh),
            self.at(0, c, xh, yh),
            size.0,
            size.1,
            axis_weight(cx, size.0, x),
            axis_weight(cy, size.1, y),
        )
    }

    /// The tensor resized to the spatial size `size`. A tensor already of that
    /// size is unchanged; any other becomes one image of three channels whose
    /// samples are [`TensorView::resized_at`].
    pub open spec fn resized(self, size: (int, int)) -> TensorView {
        if self.sized(size) {
            self
        } else {
            TensorView::tabulated(
                self.normal,
                (1, 3, size.0 as nat, size.1 as nat),
                |n: int, c: int, x: int, y: int| self.resized_at(size, c, x, y),
            )
        }
    }
}

impl Tensor {
    /// One sample of the tensor resized to `size`: that of channel `c` at
    /// output position `(x, y)`. The samples do not depend on one another, so
    /// they may be computed in any order, or side by side.
    pub fn sample_resized(&self, size: (usize, usize), c: usize, x: usize, y: usize) -> (v: i32)
        requires
            self.dims().0 >= 1,
            self.dims().1 >= 3,
            self.dims().2 >= 1,
            self.dims().3 >= 1,
            c < 3,
            x < size.0,
            y < size.1,
            size.0 * size.1 <= isize::MAX,
        ensures
            v == self@.resized_at((size.0 as int, size.1 as int), c as int, x as int, y as int),
    {
        let d = self.dim();
        let (xl, xh, wx) = axis_sample(d.2, size.0, x);
        let (yl, yh, wy) = axis_sample(d.3, size.1, y);
        let v_ll = grid_get(&self.data, 0, c, xl, yl) as i128;
        let v_hl = grid_get(&self.data, 0, c, xh, yl) as i128;
        let v_lh = grid_get(&self.data, 0, c, xl, yh) as i128;
        let v_hh = grid_get(&self.data, 0, c, xh, yh) as i128;
        let tx = size.0 as i128;
        let ty = size.1 as i128;
        let ax = tx - wx as i128;
        let ay = ty - wy as i128;
        let bx = wx as i128;
        let by = wy as i128;
        proof {
            lemma_blend_weights(tx as int, ty as int, bx as int, by as int);
            lemma_weighted(v_ll as int, ax * ay, tx * ty);
            lemma_weighted(v_hl as int, bx * ay, tx * ty);
            lemma_weighted(v_lh as int, ax * by, tx * ty);
            lemma_weighted(v_hh as int, bx * by, tx * ty);
        }
        assert(0 < tx * ty) by (nonlinear_arith)
            requires
                0 < tx,
                0 < ty,
        ;
        let total: i128 = tx * ty;
        let w_ll: i128 = ax * ay;
        let w_hl: i128 = bx * ay;
        let w_lh: i128 = ax * by;
        let w_hh: i128 = bx * by;
        let num: i128 = v_ll * w_ll + v_hl * w_hl + v_lh * w_lh + v_hh * w_hh;
        proof {
            lemma_convex(
                v_ll as int,
                v_hl as int,
                v_lh as int,
                v_hh as int,
                w_ll as int,
                w_hl as int,
                w_lh as int,
                w_hh as int,
                total as int,
            );
            assert(num < (i32::MAX + 1) * total) by (nonlinear_arith)
                requires
                    num <= i32::MAX * total,
                    total > 0,
            ;
            lemma_div_between(num as int, total as int, i32::MIN as int, i32::MAX as int);
        }
        floor_div(num, total) as i32
    }

    /// Resizes the two spatial axes to `size` by bilinear interpolation.
    ///
    /// The result is [`TensorView::resized`]: a copy when the tensor already
    /// has that size, and otherwise one image of three channels, each sample
    /// blended from its source neighbours. Fails with
    /// [`Error::ShapeMismatch`] exactly when the sizes differ and the tensor is
    /// not [`TensorView::resizable`] to `size`.
    pub fn resize(&self, size: (usize, usize)) -> (r: Result<Tensor, Error>)
        ensures
            r is Ok <==> self@.sized((size.0 as int, size.1 as int)) || self@.resizable(
                (size.0 as int, size.1 as int),
            ),
            r matches Err(e) ==> e == Error::ShapeMismatch,
            r matches Ok(t) ==> t@ == self@.resized((size.0 as int, size.1 as int)),
    {
        let d = self.dim();
        if d.2 == size.0 && d.3 == size.1 {
            return Ok(self.duplicate());
        }
        if !shape_fits(1, 3, size.0, size.1) {
            return Err(Error::ShapeMismatch);
        }
        let empty = size.0 == 0 || size.1 == 0;
        if !empty && !(d.0 >= 1 && d.1 >= 3 && d.2 >= 1 && d.3 >= 1) {
            return Err(Error::ShapeMismatch);
        }
        proof {
            if !empty {
                assert(size.0 * size.1 <= isize::MAX) by (nonlinear_arith)
                    requires
                        1 * 3 * size.0 * size.1 <= isize::MAX,
                        size.0 > 0,
                        size.1 > 0,
                ;
            }
        }
        let ghost goal = |n: int, c: int, x: int, y: int|
            self@.resized_at((size.0 as int, size.1 as int), c, x, y);
        let f = |n: usize, c: usize, x: usize, y: usize| -> (v: i32)
            requires
                n < 1 && c < 3 && x < size.0 && y < size.1,
            ensures
                v == goal(n as int, c as int, x as int, y as int),
            { self.sample_resized(size, c, x, y) };
        let data = Grid::tabulate(1, 3, size.0, size.1, f);
        let t = Tensor { normal: self.normal, data };
        proof {
            assert forall|n: int, c: int, x: int, y: int| t.has(n, c, x, y) implies #[trigger] t.at(
                n,
                c,
                x,
                y,
            ) == goal(n, c, x, y) by {
                assert(call_ensures(
                    f,
                    (n as usize, c as usize, x as usize, y as usize),
                    t.data.at(
                        n as usize as int,
                        c as usize as int,
                        x as usize as int,
                        y as usize as int,
                    ),
                ));
            }
            t.lemma_tabulated(goal);
        }
        Ok(t)
    }
}

/// Resizing a tensor to the size it has gives the tensor back exactly.
pub proof fn lemma_resize_to_own_size(t: TensorView)
    ensures
        t.resized((t.dim.2 as int, t.dim.3 as int)) == t,
{
}

/// A resized image has one batch entry, three channels and the size asked
/// for. A tensor that already has that size is returned as it is, so there
/// the claim is that of its own batch and channel count.
pub proof fn lemma_resize_shape(t: TensorView, size: (int, int))
    requires
        0 <= size.0,
        0 <= size.1,
        t.sized(size) ==> t.dim.0 == 1 && t.dim.1 == 3,
    ensures
        t.resized(size).dim == (1nat, 3nat, size.0 as nat, size.1 as nat),
{
}

/// The four blend weights are non-negative and add up to the whole.
proof fn lemma_blend_weights(tx: int, ty: int, wx: int, wy: int)
    requires
        0 <= wx <= tx,
        0 <= wy <= ty,
    ensures
        0 <= (tx - wx) * (ty - wy) <= tx * ty,
        0 <= wx * (ty - wy) <= tx * ty,
        0 <= (tx - wx) * wy <= tx * ty,
        0 <= wx * wy <= tx * ty,
        (tx - wx) * (ty - wy) + wx * (ty - wy) + (tx - wx) * wy + wx * wy == tx * ty,
{
    assert(0 <= (tx - wx) * (ty - wy) <= tx * ty) by (nonlinear_arith)
        requires
            0 <= wx <= tx,
            0 <= wy <= ty,
    ;
    assert(0 <= wx * (ty - wy) <= tx * ty) by (nonlinear_arith)
        requires
            0 <= wx <= tx,
            0 <= wy <= ty,
    ;
    assert(0 <= (tx - wx) * wy <= tx * ty) by (nonlinear_arith)
        requires
            0 <= wx <= tx,
            0 <= wy <= ty,
    ;
    assert(0 <= wx * wy <= tx * ty) by (nonlinear_arith)
        requires
            0 <= wx <= tx,
            0 <= wy <= ty,
    ;
    assert((tx - wx) * (ty - wy) + wx * (ty - wy) + (tx - wx) * wy + wx * wy == tx * ty)
        by (nonlinear_arith);
}

/// A sample times a weight stays within the sample range times the weight.
proof fn lemma_weighted(v: int, w: int, total: int)
    requires
        i32::MIN <= v <= i32::MAX,
        0 <= w <= total,
        total <= isize::MAX,
    ensures
        i32::MIN * w <= v * w <= i32::MAX * w,
        -0x8000_0000 * 0x8000_0000_0000_0000 <= v * w <= 0x8000_0000 * 0x8000_0000_0000_0000,
{
    assert(i32::MIN * w <= v * w <= i32::MAX * w) by (nonlinear_arith)
        requires
            i32::MIN <= v <= i32::MAX,
            0 <= w,
    ;
    assert(-0x8000_0000 * 0x8000_0000_0000_0000 <= i32::MIN * w && i32::MAX * w <= 0x8000_0000
        * 0x8000_0000_0000_0000) by (nonlinear_arith)
        requires
            0 <= w <= 0x8000_0000_0000_0000,
    ;
}

/// A weighted sum of samples over weights that add up to `total` stays within
/// the sample range times `total`.
proof fn lemma_convex(
    a: int,
    b: int,
    c: int,
    d: int,
    wa: int,
    wb: int,
    wc: int,
    wd: int,
    total: int,
)
    requires
        i32::MIN * wa <= a * wa <= i32::MAX * wa,
        i32::MIN * wb <= b * wb <= i32::MAX * wb,
        i32::MIN * wc <= c * wc <= i32::MAX * wc,
        i32::MIN * wd <= d * wd <= i32::MAX * wd,
        wa + wb + wc + wd == total,
    ensures
        i32::MIN * total <= a * wa + b * wb + c * wc + d * wd <= i32::MAX * total,
{
    assert(i32::MIN * wa + i32::MIN * wb + i32::MIN * wc + i32::MIN * wd == i32::MIN * total)
        by (nonlinear_arith)
        requires
            wa + wb + wc + wd == total,
    ;
    assert(i32::MAX * wa + i32::MAX * wb + i32::MAX * wc + i32::MAX * wd == i32::MAX * total)
        by (nonlinear_arith)
        requires
            wa + wb + wc + wd == total,
    ;
}

} // verus!
