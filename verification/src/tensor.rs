//! The tensor: a four-axis array of samples with the encoding of its samples.

use crate::error::Error;
use crate::fixed::UNIT;
use crate::grid::{
    allocatable, extent, grid_clone, grid_dim, grid_get, grid_set, grid_zeros, in_extent, Grid,
};
use vstd::prelude::*;

verus! {

/// How the samples of a tensor encode intensity. Whatever the encoding, a
/// sample `v` stands for the value `v / UNIT`.
#[derive(Clone, Copy, Debug, PartialEq, Eq, Structural)]
pub enum Normal {
    /// Byte levels: values from 0 to 255.
    U8,
    /// The unit interval: values from 0 to 1.
    ZeroToP1,
    /// The symmetric interval: values from -1 to 1.
    N1ToP1,
}

impl Normal {
    /// The sample written where a crop reaches outside its source: the lowest
    /// intensity of the encoding.
    pub open spec fn spec_fill(self) -> int {
        match self {
            Normal::N1ToP1 => -(UNIT as int),
            _ => 0,
        }
    }

    /// The sample written where a crop reaches outside its source.
    pub fn fill(self) -> (v: i32)
        ensures
            v == self.spec_fill(),
    {
        match self {
            Normal::N1ToP1 => -UNIT,
            _ => 0,
        }
    }
}

/// A dense array of samples over (batch, channel, row, column), with the
/// encoding of its samples.
pub struct Tensor {
    pub normal: Normal,
    pub data: Grid,
}

/// What a tensor is, mathematically: its encoding, its four axis lengths, and
/// the sample at each index within them.
pub struct TensorView {
    pub normal: Normal,
    pub dim: (nat, nat, nat, nat),
    pub samples: Map<(int, int, int, int), int>,
}

impl TensorView {
    /// The sample at `(n, c, h, w)`.
    pub open spec fn at(self, n: int, c: int, h: int, w: int) -> int {
        self.samples[(n, c, h, w)]
    }

    /// Whether `(n, c, h, w)` is an index within the axis lengths.
    pub open spec fn has(self, n: int, c: int, h: int, w: int) -> bool {
        in_extent(self.dim, n, c, h, w)
    }

    /// Whether the view is that of a tensor: it has a sample, within the sample
    /// range, at exactly the indices within its axis lengths.
    pub open spec fn wf(self) -> bool {
        &&& forall|k: (int, int, int, int)|
            self.samples.dom().contains(k) <==> in_extent(self.dim, k.0, k.1, k.2, k.3)
        &&& forall|k: (int, int, int, int)|
            self.samples.dom().contains(k) ==> i32::MIN <= #[trigger] self.samples[k] <= i32::MAX
    }

    /// The view of the given encoding and shape whose every sample is `v`.
    pub open spec fn filled(normal: Normal, dim: (nat, nat, nat, nat), v: int) -> TensorView {
        TensorView::tabulated(normal, dim, |n: int, c: int, h: int, w: int| v)
    }

    /// The view of the given encoding and shape whose sample at each index is
    /// what `f` gives for it.
    pub open spec fn tabulated(
        normal: Normal,
        dim: (nat, nat, nat, nat),
        f: spec_fn(int, int, int, int) -> int,
    ) -> TensorView {
        TensorView {
            normal,
            dim,
            samples: Map::new(
                |k: (int, int, int, int)| in_extent(dim, k.0, k.1, k.2, k.3),
                |k: (int, int, int, int)| f(k.0, k.1, k.2, k.3),
            ),
        }
    }
}

impl View for Tensor {
    type V = TensorView;

    open spec fn view(&self) -> TensorView {
        TensorView {
            normal: self.normal,
            dim: extent(self.data),
            samples: Map::new(
                |k: (int, int, int, int)| in_extent(extent(self.data), k.0, k.1, k.2, k.3),
                |k: (int, int, int, int)| self.data.at(k.0, k.1, k.2, k.3) as int,
            ),
        }
    }
}

impl Default for Tensor {
    /// One image of three channels, 128 by 128, every sample zero, in byte
    /// encoding.
    fn default() -> (t: Tensor)
        ensures
            t@ == TensorView::filled(Normal::U8, (1, 3, 128, 128), 0),
    {
        assert(crate::grid::nonzero_volume(1, 3, 128, 128) == 49152 && crate::grid::volume(
            1,
            3,
            128,
            128,
        ) == 49152) by (nonlinear_arith);
        let t = Tensor { normal: Normal::U8, data: grid_zeros(1, 3, 128, 128) };
        proof {
            t.lemma_tabulated(|n: int, c: int, h: int, w: int| 0int);
        }
        t
    }
}

impl Tensor {
    /// The axis lengths (batch, channel, rows, columns).
    pub open spec fn dims(&self) -> (nat, nat, nat, nat) {
        extent(self.data)
    }

    /// The sample at `(n, c, h, w)`.
    pub open spec fn at(&self, n: int, c: int, h: int, w: int) -> int {
        self.data.at(n, c, h, w) as int
    }

    /// Whether `(n, c, h, w)` indexes a sample of this tensor.
    pub open spec fn has(&self, n: int, c: int, h: int, w: int) -> bool {
        in_extent(self.dims(), n, c, h, w)
    }

    /// Whether a shape can be allocated: the product of its non-zero axis
    /// lengths is at most `isize::MAX`, and so is the size of its samples in
    /// bytes.
    pub open spec fn shape_fits(n: nat, c: nat, h: nat, w: nat) -> bool {
        allocatable(n, c, h, w)
    }

    /// A tensor whose samples are those of `f` has the view tabulated from
    /// `f`.
    pub proof fn lemma_tabulated(&self, f: spec_fn(int, int, int, int) -> int)
        requires
            forall|n: int, c: int, h: int, w: int|
                self.has(n, c, h, w) ==> #[trigger] self.at(n, c, h, w) == f(n, c, h, w),
        ensures
            self@ == TensorView::tabulated(self.normal, self.dims(), f),
    {
        let v = TensorView::tabulated(self.normal, self.dims(), f);
        assert forall|k: (int, int, int, int)| #[trigger]
            self@.samples.dom().contains(k) implies self@.samples[k] == v.samples[k] by {
            assert(self.at(k.0, k.1, k.2, k.3) == f(k.0, k.1, k.2, k.3));
        }
        assert(self@.samples =~= v.samples);
    }

    /// A tensor of the given shape and encoding with every sample zero, or
    /// [`Error::ShapeMismatch`] when the shape cannot be allocated.
    pub fn zeros(normal: Normal, n: usize, c: usize, h: usize, w: usize) -> (r: Result<
        Tensor,
        Error,
    >)
        ensures
            r is Ok <==> Tensor::shape_fits(n as nat, c as nat, h as nat, w as nat),
            r matches Err(e) ==> e == Error::ShapeMismatch,
            r matches Ok(t) ==> t@ == TensorView::filled(
                normal,
                (n as nat, c as nat, h as nat, w as nat),
                0,
            ),
    {
        match Grid::zeros(n, c, h, w) {
            Some(data) => {
                let t = Tensor { normal, data };
                proof {
                    t.lemma_tabulated(|n: int, c: int, h: int, w: int| 0int);
                }
                Ok(t)
            },
            None => Err(Error::ShapeMismatch),
        }
    }

    /// Wraps an array of samples with its encoding.
    pub fn new(data: Grid, normal: Normal) -> (t: Tensor)
        ensures
            t.normal == normal,
            t.data == data,
    {
        Tensor { normal, data }
    }

    /// The axis lengths (batch, channel, rows, columns).
    pub fn dim(&self) -> (d: (usize, usize, usize, usize))
        ensures
            self.dims() == (d.0 as nat, d.1 as nat, d.2 as nat, d.3 as nat),
    {
        grid_dim(&self.data)
    }

    /// The axis lengths as the shape that an inference engine is given for
    /// this tensor: batch, channel, rows, columns.
    pub fn shape(&self) -> (s: Vec<i64>)
        ensures
            s@ == seq![
                self.dims().0 as i64,
                self.dims().1 as i64,
                self.dims().2 as i64,
                self.dims().3 as i64,
            ],
            self.dims().0 <= i64::MAX && self.dims().1 <= i64::MAX && self.dims().2 <= i64::MAX
                && self.dims().3 <= i64::MAX,
    {
        let d = grid_dim(&self.data);
        assert(d.0 <= isize::MAX && d.1 <= isize::MAX && d.2 <= isize::MAX && d.3 <= isize::MAX)
            by (nonlinear_arith)
            requires
                (if d.0 == 0 { 1 } else { d.0 as int }) * (if d.1 == 0 { 1 } else { d.1 as int })
                    * (if d.2 == 0 { 1 } else { d.2 as int }) * (if d.3 == 0 { 1 } else { d.3 as int })
                    <= isize::MAX,
        ;
        let mut s: Vec<i64> = Vec::new();
        s.push(d.0 as i64);
        s.push(d.1 as i64);
        s.push(d.2 as i64);
        s.push(d.3 as i64);
        assert(s@ =~= seq![d.0 as i64, d.1 as i64, d.2 as i64, d.3 as i64]);
        s
    }

    /// Whether the tensor has exactly the given axis lengths.
    pub fn is_eq_dim(&self, shape: (usize, usize, usize, usize)) -> (eq: bool)
        ensures
            eq <==> self.dims() == (
                shape.0 as nat,
                shape.1 as nat,
                shape.2 as nat,
                shape.3 as nat,
            ),
    {
        let dim = self.dim();
        dim.0 == shape.0 && dim.1 == shape.1 && dim.2 == shape.2 && dim.3 == shape.3
    }

    /// The sample at `(n, c, h, w)`, or `None` outside the tensor.
    pub fn get(&self, n: usize, c: usize, h: usize, w: usize) -> (v: Option<i32>)
        ensures
            v == if self.has(n as int, c as int, h as int, w as int) {
                Some(self.data.at(n as int, c as int, h as int, w as int))
            } else {
                None
            },
    {
        let d = self.dim();
        if n < d.0 && c < d.1 && h < d.2 && w < d.3 {
            Some(grid_get(&self.data, n, c, h, w))
        } else {
            None
        }
    }

    /// Stores `v` at `(n, c, h, w)` and returns `true`; outside the tensor it
    /// changes nothing and returns `false`.
    pub fn set(&mut self, n: usize, c: usize, h: usize, w: usize, v: i32) -> (done: bool)
        ensures
            done == old(self).has(n as int, c as int, h as int, w as int),
            final(self).normal == old(self).normal,
            final(self).dims() == old(self).dims(),
            done ==> final(self)@.samples == old(self)@.samples.insert(
                (n as int, c as int, h as int, w as int),
                v as int,
            ),
            !done ==> final(self)@ == old(self)@,
    {
        let d = self.dim();
        if n < d.0 && c < d.1 && h < d.2 && w < d.3 {
            grid_set(&mut self.data, n, c, h, w, v);
            assert(self@.samples =~= old(self)@.samples.insert(
                (n as int, c as int, h as int, w as int),
                v as int,
            ));
            true
        } else {
            false
        }
    }

    /// A copy with the same encoding, shape and samples.
    pub fn duplicate(&self) -> (t: Tensor)
        ensures
            t@ == self@,
    {
        let t = Tensor { normal: self.normal, data: grid_clone(&self.data) };
        assert(t@.samples =~= self@.samples);
        t
    }
}

} // verus!
