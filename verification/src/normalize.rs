//! Conversion of a tensor's samples between the three encodings.

use crate::fixed::{clamp_sample, floor_div, saturate, UNIT};
use crate::grid::{grid_dim, grid_get, in_extent, Grid};
use crate::tensor::{Normal, Tensor, TensorView};
use vstd::prelude::*;

verus! {

/// A sample of encoding `from`, brought to the unit interval: byte levels are
/// divided by 255, the symmetric interval is shifted and halved.
pub open spec fn to_unit(v: int, from: Normal) -> int {
    match from {
        Normal::U8 => v / 255,
        Normal::ZeroToP1 => v,
        Normal::N1ToP1 => (v + UNIT) / 2,
    }
}

/// A sample of the unit interval, brought to encoding `to`: the inverse maps
/// of [`to_unit`].
pub open spec fn from_unit(u: int, to: Normal) -> int {
    match to {
        Normal::U8 => 255 * u,
        Normal::ZeroToP1 => u,
        Normal::N1ToP1 => 2 * u - UNIT,
    }
}

/// A sample of encoding `from`, re-encoded as `to`. Between equal encodings
/// the sample is unchanged; otherwise it passes through the unit interval, and
/// a result beyond the range of a sample is held at the nearest end of it.
pub open spec fn renormalized(v: int, from: Normal, to: Normal) -> int {
    if from == to {
        v
    } else {
        clamp_sample(from_unit(to_unit(v, from), to))
    }
}

/// Re-encodes one sample.
pub fn renormalize(v: i32, from: Normal, to: Normal) -> (r: i32)
    ensures
        r == renormalized(v as int, from, to),
{
    if from == to {
        return v;
    }
    let u: i128 = match from {
        Normal::U8 => floor_div(v as i128, 255),
        Normal::ZeroToP1 => v as i128,
        Normal::N1ToP1 => floor_div(v as i128 + UNIT as i128, 2),
    };
    assert(-0x1_0000_0000 <= u <= 0x1_0000_0000);
    let x: i128 = match to {
        Normal::U8 => 255 * u,
        Normal::ZeroToP1 => u,
        Normal::N1ToP1 => 2 * u - UNIT as i128,
    };
    saturate(x)
}

impl TensorView {
    /// The view with every sample re-encoded as `to`.
    pub open spec fn normalized(self, to: Normal) -> TensorView {
        TensorView::tabulated(
            to,
            self.dim,
            |n: int, c: int, h: int, w: int| renormalized(self.at(n, c, h, w), self.normal, to),
        )
    }
}

/// Re-encoding to the encoding a tensor has changes nothing.
pub proof fn lemma_normalize_same(t: TensorView)
    requires
        t.wf(),
    ensures
        t.normalized(t.normal) == t,
{
    assert(t.normalized(t.normal).samples =~= t.samples);
}

/// Byte levels survive the round trip through the unit interval exactly:
/// a byte-encoded tensor whose samples are multiples of 255, as every whole
/// byte level is, comes back unchanged.
pub proof fn lemma_normalize_round_trip(t: TensorView)
    requires
        t.wf(),
        t.normal == Normal::U8,
        forall|k: (int, int, int, int)| t.samples.dom().contains(k) ==> #[trigger] t.samples[k] % 255 == 0,
    ensures
        t.normalized(Normal::ZeroToP1).normalized(Normal::U8) == t,
{
    let u = t.normalized(Normal::ZeroToP1);
    let back = u.normalized(Normal::U8);
    assert forall|k: (int, int, int, int)| t.samples.dom().contains(k) implies #[trigger] back.samples[k]
        == t.samples[k] by {
        let v = t.samples[k];
        assert(v % 255 == 0);
        assert(i32::MIN <= v <= i32::MAX);
        assert(u.at(k.0, k.1, k.2, k.3) == clamp_sample(v / 255));
    }
    assert(back.samples =~= t.samples);
}

impl Tensor {
    /// Every tensor's view is well formed.
    pub proof fn lemma_view_wf(&self)
        ensures
            self@.wf(),
    {
    }

    /// The same samples in encoding `to`, as a new tensor.
    fn renormalized_copy(&self, to: Normal) -> (t: Tensor)
        ensures
            t@ == self@.normalized(to),
    {
        let d = grid_dim(&self.data);
        let from = self.normal;
        let f = |n: usize, c: usize, h: usize, w: usize| -> (v: i32)
            requires
                n < d.0 && c < d.1 && h < d.2 && w < d.3,
            ensures
                v == renormalized(self.at(n as int, c as int, h as int, w as int), from, to),
            { renormalize(grid_get(&self.data, n, c, h, w), from, to) };
        let data = Grid::tabulate(d.0, d.1, d.2, d.3, f);
        let t = Tensor { normal: to, data };
        assert(t@.samples =~= self@.normalized(to).samples) by {
            assert forall|k: (int, int, int, int)| in_extent(self@.dim, k.0, k.1, k.2, k.3) implies #[trigger] t@.samples[k]
                == self@.normalized(to).samples[k] by {
                assert(call_ensures(
                    f,
                    (k.0 as usize, k.1 as usize, k.2 as usize, k.3 as usize),
                    t.data.at(
                        k.0 as usize as int,
                        k.1 as usize as int,
                        k.2 as usize as int,
                        k.3 as usize as int,
                    ),
                ));
            }
        }
        t
    }

    /// Re-encodes the tensor in place as `normal`: every sample becomes
    /// [`renormalized`] from the old encoding, and nothing changes when the
    /// tensor already has that encoding.
    pub fn to_normalization(&mut self, normal: Normal)
        ensures
            final(self)@ == old(self)@.normalized(normal),
            old(self).normal == normal ==> final(self)@ == old(self)@,
    {
        if self.normal == normal {
            assert(self@.samples =~= self@.normalized(normal).samples);
            return ;
        }
        let t = self.renormalized_copy(normal);
        *self = t;
    }
}

} // verus!
