//! A tensor's samples as one flat row-major sequence, and the reductions
//! taken over it.

use crate::error::Error;
use crate::fixed::{lemma_div_between, lemma_mul_bound};
use crate::grid::{grid_dim, grid_get, shape_fits, Grid};
use crate::tensor::{Normal, Tensor, TensorView};
use vstd::prelude::*;

verus! {

/// Where the sample at `(n, c, h, w)` stands in the row-major sequence of a
/// tensor with axis lengths `d`.
pub open spec fn flat_index(d: (nat, nat, nat, nat), n: int, c: int, h: int, w: int) -> int {
    ((n * d.1 + c) * d.2 + h) * d.3 + w
}

/// Sum of the squares of a sequence.
pub open spec fn sum_squares(s: Seq<int>) -> int
    decreases s.len(),
{
    if s.len() == 0 {
        0
    } else {
        sum_squares(s.drop_last()) + s.last() * s.last()
    }
}

/// A sequence of samples as mathematical integers.
pub open spec fn to_ints(s: Seq<i32>) -> Seq<int> {
    Seq::new(s.len(), |i: int| s[i] as int)
}

impl TensorView {
    /// The number of samples.
    pub open spec fn volume(self) -> nat {
        self.dim.0 * self.dim.1 * self.dim.2 * self.dim.3
    }

    /// The samples in row-major order: the last axis runs fastest.
    pub open spec fn flat(self) -> Seq<int> {
        let c = self.dim.1 as int;
        let h = self.dim.2 as int;
        let w = self.dim.3 as int;
        Seq::new(
            self.volume(),
            |i: int| self.at(i / (c * h * w), (i / (h * w)) % c, (i / w) % h, i % w),
        )
    }

    /// The tensor of the given encoding and shape whose samples, in row-major
    /// order, are `s`.
    pub open spec fn of_flat(normal: Normal, dim: (nat, nat, nat, nat), s: Seq<int>) -> TensorView {
        TensorView::tabulated(
            normal,
            dim,
            |n: int, c: int, h: int, w: int| s[flat_index(dim, n, c, h, w)],
        )
    }
}

/// A position in the row-major sequence is that of an index within the axis
/// lengths.
pub proof fn lemma_flat_position(d: (int, int, int, int), i: int)
    requires
        d.1 > 0 && d.2 > 0 && d.3 > 0,
        0 <= i < d.0 * (d.1 * d.2 * d.3),
    ensures
        d.1 * d.2 * d.3 > 0,
        d.2 * d.3 > 0,
        0 <= i / (d.1 * d.2 * d.3) < d.0,
        0 <= (i / (d.2 * d.3)) % d.1 < d.1,
        0 <= (i / d.3) % d.2 < d.2,
        0 <= i % d.3 < d.3,
{
    let chw = d.1 * d.2 * d.3;
    assert(chw > 0 && d.2 * d.3 > 0) by (nonlinear_arith)
        requires
            d.1 > 0 && d.2 > 0 && d.3 > 0,
            chw == d.1 * d.2 * d.3,
    ;
    assert(0 * chw <= i < (d.0 - 1 + 1) * chw) by (nonlinear_arith)
        requires
            0 <= i < d.0 * chw,
    ;
    lemma_div_between(i, chw, 0, d.0 - 1);
}

/// The row-major position of an index within the axis lengths is within the
/// sequence, and so is each step on the way to it.
pub proof fn lemma_flat_index(d: (nat, nat, nat, nat), n: int, c: int, h: int, w: int)
    requires
        0 <= n < d.0,
        0 <= c < d.1,
        0 <= h < d.2,
        0 <= w < d.3,
    ensures
        0 <= n * d.1 <= n * d.1 + c < d.0 * d.1,
        0 <= (n * d.1 + c) * d.2 <= (n * d.1 + c) * d.2 + h < d.0 * d.1 * d.2,
        0 <= ((n * d.1 + c) * d.2 + h) * d.3 <= flat_index(d, n, c, h, w) < d.0 * d.1 * d.2 * d.3,
        d.0 * d.1 <= d.0 * d.1 * d.2 <= d.0 * d.1 * d.2 * d.3,
{
    let a = n * d.1 + c;
    assert(0 <= n * d.1 && n * d.1 + d.1 <= d.0 * d.1) by (nonlinear_arith)
        requires
            0 <= n < d.0,
            0 < d.1,
    ;
    let b = a * d.2 + h;
    assert(0 <= a * d.2 && a * d.2 + d.2 <= (d.0 * d.1) * d.2) by (nonlinear_arith)
        requires
            0 <= a < d.0 * d.1,
            0 < d.2,
    ;
    assert(0 <= b * d.3 && b * d.3 + d.3 <= (d.0 * d.1 * d.2) * d.3) by (nonlinear_arith)
        requires
            0 <= b < d.0 * d.1 * d.2,
            0 < d.3,
    ;
    assert(d.0 * d.1 <= d.0 * d.1 * d.2 && d.0 * d.1 * d.2 <= d.0 * d.1 * d.2 * d.3)
        by (nonlinear_arith)
        requires
            d.0 * d.1 >= 0,
            d.0 * d.1 * d.2 >= 0,
            d.2 >= 1,
            d.3 >= 1,
    ;
}

/// The integer square root: the largest `r` whose square is at most `s`.
pub fn isqrt(s: u128) -> (r: u64)
    requires
        s < 0x4000_0000_0000_0000_0000_0000_0000_0000,
    ensures
        r * r <= s < (r + 1) * (r + 1),
{
    let mut lo: u128 = 0;
    let mut hi: u128 = 0x8000_0000_0000_0000;
    assert(0x8000_0000_0000_0000u128 * 0x8000_0000_0000_0000u128
        == 0x4000_0000_0000_0000_0000_0000_0000_0000u128) by (nonlinear_arith);
    while hi - lo > 1
        invariant
            lo < hi <= 0x8000_0000_0000_0000,
            lo * lo <= s < hi * hi,
        decreases hi - lo,
    {
        let mid: u128 = lo + (hi - lo) / 2;
        assert(mid * mid < 0x8000_0000_0000_0000 * 0x8000_0000_0000_0000) by (nonlinear_arith)
            requires
                0 <= mid < 0x8000_0000_0000_0000,
        ;
        if mid * mid <= s {
            lo = mid;
        } else {
            hi = mid;
        }
    }
    lo as u64
}

impl Tensor {
    /// The samples in row-major order.
    pub fn to_samples(&self) -> (r: Vec<i32>)
        ensures
            to_ints(r@) == self@.flat(),
    {
        let d = grid_dim(&self.data);
        let mut out: Vec<i32> = Vec::new();
        if d.0 == 0 || d.1 == 0 || d.2 == 0 || d.3 == 0 {
            assert(self@.volume() == 0) by (nonlinear_arith)
                requires
                    self@.volume() == d.0 * d.1 * d.2 * d.3,
                    d.0 == 0 || d.1 == 0 || d.2 == 0 || d.3 == 0,
            ;
            assert(to_ints(out@) =~= self@.flat());
            return out;
        }
        let ghost dims = self.dims();
        proof {
            lemma_flat_index(dims, d.0 - 1, d.1 - 1, d.2 - 1, d.3 - 1);
            assert(d.0 * d.1 * d.2 * d.3 == d.0 * (d.1 * d.2 * d.3) && d.1 * d.2 * d.3 == d.1 * (
            d.2 * d.3) && d.2 * d.3 >= 1 && d.1 * (d.2 * d.3) <= d.0 * d.1 * d.2 * d.3 && d.2
                * d.3 <= d.1 * (d.2 * d.3)) by (nonlinear_arith)
                requires
                    d.0 >= 1 && d.1 >= 1 && d.2 >= 1 && d.3 >= 1,
            ;
        }
        let hw: usize = d.2 * d.3;
        let chw: usize = d.1 * hw;
        let total: usize = d.0 * chw;
        let mut i: usize = 0;
        while i < total
            invariant
                i <= total,
                total == d.0 * chw,
                chw == d.1 * d.2 * d.3,
                hw == d.2 * d.3,
                d.0 >= 1 && d.1 >= 1 && d.2 >= 1 && d.3 >= 1,
                dims == (d.0 as nat, d.1 as nat, d.2 as nat, d.3 as nat),
                dims == self.dims(),
                self@.flat().len() == total,
                out@.len() == i,
                forall|j: int| 0 <= j < i ==> #[trigger] out@[j] as int == self@.flat()[j],
            decreases total - i,
        {
            proof {
                lemma_flat_position((d.0 as int, d.1 as int, d.2 as int, d.3 as int), i as int);
            }
            let n = i / chw;
            let c = (i / hw) % d.1;
            let h = (i / d.3) % d.2;
            let w = i % d.3;
            out.push(grid_get(&self.data, n, c, h, w));
            i = i + 1;
        }
        assert(to_ints(out@) =~= self@.flat());
        out
    }

    /// The tensor of the given encoding and shape whose samples, in row-major
    /// order, are `samples`. Fails with [`Error::ShapeMismatch`] exactly when
    /// the shape cannot be allocated or does not have that many samples.
    pub fn from_samples(normal: Normal, dim: (usize, usize, usize, usize), samples: &[i32]) -> (r:
        Result<Tensor, Error>)
        ensures
            r is Ok <==> Tensor::shape_fits(dim.0 as nat, dim.1 as nat, dim.2 as nat, dim.3 as nat)
                && samples@.len() == dim.0 * dim.1 * dim.2 * dim.3,
            r matches Err(e) ==> e == Error::ShapeMismatch,
            r matches Ok(t) ==> t@ == TensorView::of_flat(
                normal,
                (dim.0 as nat, dim.1 as nat, dim.2 as nat, dim.3 as nat),
                to_ints(samples@),
            ),
    {
        if !shape_fits(dim.0, dim.1, dim.2, dim.3) {
            return Err(Error::ShapeMismatch);
        }
        let ghost d = (dim.0 as nat, dim.1 as nat, dim.2 as nat, dim.3 as nat);
        if dim.0 == 0 || dim.1 == 0 || dim.2 == 0 || dim.3 == 0 {
            assert(dim.0 * dim.1 * dim.2 * dim.3 == 0) by (nonlinear_arith)
                requires
                    dim.0 == 0 || dim.1 == 0 || dim.2 == 0 || dim.3 == 0,
            ;
            if samples.len() != 0 {
                return Err(Error::ShapeMismatch);
            }
        } else {
            proof {
                lemma_flat_index(d, dim.0 - 1, dim.1 - 1, dim.2 - 1, dim.3 - 1);
            }
            if samples.len() != dim.0 * dim.1 * dim.2 * dim.3 {
                return Err(Error::ShapeMismatch);
            }
        }
        let ghost goal = |n: int, c: int, h: int, w: int|
            to_ints(samples@)[flat_index(d, n, c, h, w)];
        let f = |n: usize, c: usize, h: usize, w: usize| -> (v: i32)
            requires
                n < dim.0 && c < dim.1 && h < dim.2 && w < dim.3,
            ensures
                v == goal(n as int, c as int, h as int, w as int),
            {
                proof {
                    lemma_flat_index(d, n as int, c as int, h as int, w as int);
                    lemma_flat_index(d, dim.0 - 1, dim.1 - 1, dim.2 - 1, dim.3 - 1);
                }
                samples[((n * dim.1 + c) * dim.2 + h) * dim.3 + w]
            };
        let data = Grid::tabulate(dim.0, dim.1, dim.2, dim.3, f);
        let t = Tensor { normal, data };
        proof {
            assert forall|n: int, c: int, h: int, w: int| t.has(n, c, h, w) implies #[trigger] t.at(
                n,
                c,
                h,
                w,
            ) == goal(n, c, h, w) by {
                assert(call_ensures(
                    f,
                    (n as usize, c as usize, h as usize, w as usize),
                    t.data.at(
                        n as usize as int,
                        c as usize as int,
                        h as usize as int,
                        w as usize as int,
                    ),
                ));
            }
            t.lemma_tabulated(goal);
        }
        Ok(t)
    }

    /// The Euclidean norm of the samples, rounded down to a whole sample
    /// unit: the largest `r` whose square is at most the sum of the squares of
    /// the samples.
    pub fn norm(&self) -> (r: u64)
        ensures
            r * r <= sum_squares(self@.flat()) < (r + 1) * (r + 1),
    {
        let d = grid_dim(&self.data);
        let samples = self.to_samples();
        let ghost s = to_ints(samples@);
        assert(samples@.len() <= isize::MAX) by {
            assert(s.len() == self@.volume());
            assert(d.0 * d.1 * d.2 * d.3 <= isize::MAX) by (nonlinear_arith)
                requires
                    crate::grid::nonzero_volume(d.0 as nat, d.1 as nat, d.2 as nat, d.3 as nat)
                        <= isize::MAX,
                    crate::grid::nonzero_volume(d.0 as nat, d.1 as nat, d.2 as nat, d.3 as nat)
                        == (if d.0 == 0 { 1 } else { d.0 as int }) * (if d.1 == 0 { 1 } else { d.1 as int })
                        * (if d.2 == 0 { 1 } else { d.2 as int }) * (if d.3 == 0 { 1 } else { d.3 as int }),
            ;
        }
        let mut acc: u128 = 0;
        let mut i: usize = 0;
        assert(s.take(0) =~= Seq::<int>::empty());
        while i < samples.len()
            invariant
                i <= samples@.len() <= isize::MAX,
                s == to_ints(samples@),
                acc == sum_squares(s.take(i as int)),
                acc <= i * 0x4000_0000_0000_0000,
            decreases samples@.len() - i,
        {
            let v = samples[i] as i128;
            proof {
                lemma_mul_bound(v as int, v as int, 0x8000_0000, 0x8000_0000);
                assert(v * v >= 0) by (nonlinear_arith);
                assert(s.take(i + 1).drop_last() =~= s.take(i as int));
                assert(s.take(i + 1).last() == v);
            }
            let sq: u128 = (v * v) as u128;
            acc = acc + sq;
            i = i + 1;
        }
        assert(s.take(samples@.len() as int) =~= s);
        isqrt(acc)
    }
}

} // verus!
