//! A detected face: its bounding box geometry and the crops taken from it.

use crate::fixed::{floor_div, lemma_div_between, lemma_mul_bound, PX};
use crate::keypoints::{coord_ok, KeyPoints, COORD_MAX};
use vstd::prelude::*;

verus! {

/// A box `(x_min, y_min, x_max, y_max)` in coordinate units. Nothing makes the
/// maximum exceed the minimum: a detector may hand over an empty or inverted
/// box, and every operation has a result for it.
pub type BBox = (i64, i64, i64, i64);

/// A face found in an image.
#[derive(Debug, Clone, Copy)]
pub struct Face {
    /// Confidence of the detection, in [`crate::fixed::FRAC`] units.
    pub score: i32,
    pub keypoints: KeyPoints,
    pub bbox: BBox,
}

/// An exact fraction `num / den`. The denominator may be zero or negative
/// where the boxes it was taken from are degenerate.
#[derive(Debug, Clone, Copy, PartialEq, Eq, Structural)]
pub struct Ratio {
    pub num: i64,
    pub den: i64,
}

/// A box as mathematical integers.
pub open spec fn box_view(b: BBox) -> (int, int, int, int) {
    (b.0 as int, b.1 as int, b.2 as int, b.3 as int)
}

/// Whether every coordinate of the box is within [`COORD_MAX`].
pub open spec fn box_ok(b: (int, int, int, int)) -> bool {
    coord_ok(b.0) && coord_ok(b.1) && coord_ok(b.2) && coord_ok(b.3)
}

/// The larger of two integers.
pub open spec fn max_of(a: int, b: int) -> int {
    if a >= b {
        a
    } else {
        b
    }
}

/// The smaller of two integers.
pub open spec fn min_of(a: int, b: int) -> int {
    if a <= b {
        a
    } else {
        b
    }
}

/// The area of a box under the inclusive-pixel convention: one pixel is added
/// to each side length. In squared coordinate units.
pub open spec fn spec_area(b: (int, int, int, int)) -> int {
    (b.2 - b.0 + PX) * (b.3 - b.1 + PX)
}

/// The length shared by the intervals `[lo_a, hi_a]` and `[lo_b, hi_b]` under
/// the inclusive-pixel convention, zero when they do not meet.
pub open spec fn overlap_len(lo_a: int, hi_a: int, lo_b: int, hi_b: int) -> int {
    max_of(0, min_of(hi_a, hi_b) - max_of(lo_a, lo_b) + PX)
}

/// The area of the intersection of two boxes.
pub open spec fn overlap(a: (int, int, int, int), b: (int, int, int, int)) -> int {
    overlap_len(a.0, a.2, b.0, b.2) * overlap_len(a.1, a.3, b.1, b.3)
}

/// Whether two boxes share no pixel: on some axis their intervals do not meet.
pub open spec fn disjoint(a: (int, int, int, int), b: (int, int, int, int)) -> bool {
    overlap_len(a.0, a.2, b.0, b.2) == 0 || overlap_len(a.1, a.3, b.1, b.3) == 0
}

/// Intersection over union of two boxes, as numerator and denominator: the
/// intersection area, over the sum of the two areas less the intersection.
pub open spec fn spec_iou(a: (int, int, int, int), b: (int, int, int, int)) -> (int, int) {
    (overlap(a, b), spec_area(a) + spec_area(b) - overlap(a, b))
}

/// A length in coordinate units as a count of whole pixels; a negative length
/// counts as none.
pub open spec fn px_len(v: int) -> int {
    if v <= 0 {
        0
    } else {
        v / (PX as int)
    }
}

/// The whole pixels between `lo` and `hi` after both are held within
/// `[0, limit]`, where `limit` is in pixels and absent when there is none.
pub open spec fn clamped_span(lo: int, hi: int, limit: Option<int>) -> int {
    let top = match limit {
        Some(m) => min_of(hi, m * PX),
        None => hi,
    };
    px_len(max_of(0, top) - max_of(0, lo))
}

/// Width and height of a box in whole pixels, each held within the limit.
pub open spec fn spec_box_size(b: (int, int, int, int), limit: Option<(int, int)>) -> (int, int) {
    match limit {
        Some(m) => (clamped_span(b.0, b.2, Some(m.0)), clamped_span(b.1, b.3, Some(m.1))),
        None => (clamped_span(b.0, b.2, None), clamped_span(b.1, b.3, None)),
    }
}

/// The box grown about its centre to the aspect ratio `rw : rh` (width to
/// height), with its size in whole pixels.
///
/// A box already of that ratio is returned as it is. A box too wide keeps its
/// width and has its height made up to `width * rh / rw`, half of the
/// difference added above and half below; a box too tall likewise in width.
pub open spec fn spec_scaled_bbox(b: (int, int, int, int), rw: int, rh: int) -> (
    (int, int),
    (int, int, int, int),
) {
    let w = b.2 - b.0;
    let h = b.3 - b.1;
    if w * rh == h * rw {
        ((px_len(w), px_len(h)), b)
    } else if w * rh > h * rw {
        let nh = (w * rh) / rw;
        let d = (nh - h) / 2;
        ((px_len(w), px_len(nh)), (b.0, b.1 - d, b.2, b.3 + d))
    } else {
        let nw = (h * rw) / rh;
        let d = (nw - w) / 2;
        ((px_len(nw), px_len(h)), (b.0 - d, b.1, b.2 + d, b.3))
    }
}

/// A box that holds at least one pixel overlaps itself entirely: its
/// intersection over union with itself is exactly one.
pub proof fn lemma_iou_self(a: (int, int, int, int))
    requires
        a.2 - a.0 + PX > 0,
        a.3 - a.1 + PX > 0,
    ensures
        spec_iou(a, a).0 == spec_iou(a, a).1,
        spec_iou(a, a).1 > 0,
{
    assert(spec_area(a) > 0) by (nonlinear_arith)
        requires
            spec_area(a) == (a.2 - a.0 + PX) * (a.3 - a.1 + PX),
            a.2 - a.0 + PX > 0,
            a.3 - a.1 + PX > 0,
    ;
}

/// For two boxes that each hold at least one pixel, intersection over union
/// is a fraction between zero and one: its numerator is not negative and not
/// above its denominator, which is positive.
pub proof fn lemma_iou_within_unit(a: (int, int, int, int), b: (int, int, int, int))
    requires
        a.2 - a.0 + PX > 0,
        a.3 - a.1 + PX > 0,
        b.2 - b.0 + PX > 0,
        b.3 - b.1 + PX > 0,
    ensures
        0 <= spec_iou(a, b).0 <= spec_iou(a, b).1,
        0 < spec_iou(a, b).1,
{
    let lx = overlap_len(a.0, a.2, b.0, b.2);
    let ly = overlap_len(a.1, a.3, b.1, b.3);
    let wa = a.2 - a.0 + PX;
    let ha = a.3 - a.1 + PX;
    let wb = b.2 - b.0 + PX;
    let hb = b.3 - b.1 + PX;
    assert(0 <= lx * ly <= wa * ha && 0 < wa * ha) by (nonlinear_arith)
        requires
            0 <= lx <= wa,
            0 <= ly <= ha,
            0 < wa,
            0 < ha,
    ;
    assert(lx * ly <= wb * hb) by (nonlinear_arith)
        requires
            0 <= lx <= wb,
            0 <= ly <= hb,
    ;
}

/// Intersection over union does not depend on the order of the two boxes.
pub proof fn lemma_iou_symmetric(a: (int, int, int, int), b: (int, int, int, int))
    ensures
        spec_iou(a, b) == spec_iou(b, a),
{
}

/// Boxes that share no pixel have an intersection over union of zero.
pub proof fn lemma_iou_disjoint(a: (int, int, int, int), b: (int, int, int, int))
    requires
        disjoint(a, b),
    ensures
        spec_iou(a, b).0 == 0,
{
    assert(overlap(a, b) == 0) by (nonlinear_arith)
        requires
            overlap(a, b) == overlap_len(a.0, a.2, b.0, b.2) * overlap_len(a.1, a.3, b.1, b.3),
            overlap_len(a.0, a.2, b.0, b.2) == 0 || overlap_len(a.1, a.3, b.1, b.3) == 0,
    ;
}

/// The box grown to an aspect ratio keeps its centre, and its width over its
/// height equals `rw / rh` up to the rounding of one coordinate unit on each
/// side: cross-multiplied, the two differ by less than two units of the side
/// that was grown.
pub proof fn lemma_scaled_bbox_ratio_and_centre(b: (int, int, int, int), rw: int, rh: int)
    requires
        rw > 0,
        rh > 0,
    ensures
        ({
            let s = spec_scaled_bbox(b, rw, rh).1;
            &&& s.0 + s.2 == b.0 + b.2
            &&& s.1 + s.3 == b.1 + b.3
            &&& -2 * rh < (s.2 - s.0) * rh - (s.3 - s.1) * rw < 2 * rw
        }),
{
    let w = b.2 - b.0;
    let h = b.3 - b.1;
    let s = spec_scaled_bbox(b, rw, rh).1;
    if w * rh == h * rw {
    } else if w * rh > h * rw {
        let x = w * rh;
        let nh = x / rw;
        let d = (nh - h) / 2;
        assert(x == nh * rw + x % rw && 0 <= x % rw < rw) by (nonlinear_arith)
            requires
                rw > 0,
                nh == x / rw,
        ;
        assert(s.3 - s.1 == h + 2 * d);
        assert(nh - 1 <= h + 2 * d <= nh);
        assert(0 <= x - (h + 2 * d) * rw < 2 * rw) by (nonlinear_arith)
            requires
                x == nh * rw + x % rw,
                0 <= x % rw < rw,
                nh - 1 <= h + 2 * d <= nh,
                rw > 0,
        ;
    } else {
        let x = h * rw;
        let nw = x / rh;
        let d = (nw - w) / 2;
        assert(x == nw * rh + x % rh && 0 <= x % rh < rh) by (nonlinear_arith)
            requires
                rh > 0,
                nw == x / rh,
        ;
        assert(s.2 - s.0 == w + 2 * d);
        assert(nw - 1 <= w + 2 * d <= nw);
        assert(0 <= x - (w + 2 * d) * rh < 2 * rh) by (nonlinear_arith)
            requires
                x == nw * rh + x % rh,
                0 <= x % rh < rh,
                nw - 1 <= w + 2 * d <= nw,
                rh > 0,
        ;
    }
}

/// A length as a count of whole pixels.
fn whole_pixels(v: i128) -> (n: usize)
    requires
        v <= 0x1000_0000_0000,
    ensures
        n == px_len(v as int),
{
    if v <= 0 {
        0
    } else {
        (v / (PX as i128)) as usize
    }
}

/// Largest side length of a box within range, one pixel added.
pub const SIDE_MAX: i64 = 268_445_456;

/// Largest area of a box within range.
pub const AREA_MAX: i64 = 72_062_962_847_047_936;

/// The length shared by two intervals.
fn shared_len(lo_a: i64, hi_a: i64, lo_b: i64, hi_b: i64) -> (r: i64)
    requires
        coord_ok(lo_a as int) && coord_ok(hi_a as int) && coord_ok(lo_b as int) && coord_ok(
            hi_b as int,
        ),
    ensures
        r == overlap_len(lo_a as int, hi_a as int, lo_b as int, hi_b as int),
        0 <= r <= SIDE_MAX,
{
    let lo = if lo_a >= lo_b { lo_a } else { lo_b };
    let hi = if hi_a <= hi_b { hi_a } else { hi_b };
    let len = hi - lo + PX;
    if len > 0 {
        len
    } else {
        0
    }
}

/// The whole pixels between two bounds held within `[0, limit]`.
fn span(lo: i64, hi: i64, limit: Option<usize>) -> (n: usize)
    requires
        coord_ok(lo as int) && coord_ok(hi as int),
    ensures
        n == clamped_span(
            lo as int,
            hi as int,
            match limit {
                Some(m) => Some(m as int),
                None => None,
            },
        ),
{
    let top: i128 = match limit {
        Some(m) => {
            let cap: i128 = (m as i128) * (PX as i128);
            if (hi as i128) <= cap {
                hi as i128
            } else {
                cap
            }
        },
        None => hi as i128,
    };
    let a: i128 = if top > 0 { top } else { 0 };
    let b: i128 = if lo > 0 { lo as i128 } else { 0 };
    whole_pixels(a - b)
}

impl Face {
    /// The bounding box and the keypoints are within [`COORD_MAX`].
    pub open spec fn wf(&self) -> bool {
        box_ok(box_view(self.bbox)) && self.keypoints.wf()
    }

    /// Whether the bounding box and the keypoints are within range.
    pub fn is_valid(&self) -> (ok: bool)
        ensures
            ok == self.wf(),
    {
        let b = self.bbox;
        -COORD_MAX <= b.0 && b.0 <= COORD_MAX && -COORD_MAX <= b.1 && b.1 <= COORD_MAX && -COORD_MAX
            <= b.2 && b.2 <= COORD_MAX && -COORD_MAX <= b.3 && b.3 <= COORD_MAX
            && self.keypoints.is_valid()
    }

    /// The area of the bounding box, one pixel added to each side length.
    pub fn area(&self) -> (a: i64)
        requires
            box_ok(box_view(self.bbox)),
        ensures
            a == spec_area(box_view(self.bbox)),
            -AREA_MAX <= a <= AREA_MAX,
    {
        let w = self.bbox.2 - self.bbox.0 + PX;
        let h = self.bbox.3 - self.bbox.1 + PX;
        proof {
            lemma_mul_bound(w as int, h as int, SIDE_MAX as int, SIDE_MAX as int);
            assert(SIDE_MAX * SIDE_MAX == AREA_MAX) by (nonlinear_arith);
        }
        w * h
    }

    /// Intersection over union of the two faces' bounding boxes, as an exact
    /// fraction. The numerator is zero when the boxes do not overlap.
    pub fn iou(&self, face: &Face) -> (r: Ratio)
        requires
            box_ok(box_view(self.bbox)),
            box_ok(box_view(face.bbox)),
        ensures
            (r.num as int, r.den as int) == spec_iou(box_view(self.bbox), box_view(face.bbox)),
    {
        let a = self.bbox;
        let b = face.bbox;
        let sx = shared_len(a.0, a.2, b.0, b.2);
        let sy = shared_len(a.1, a.3, b.1, b.3);
        proof {
            lemma_mul_bound(sx as int, sy as int, SIDE_MAX as int, SIDE_MAX as int);
            assert(SIDE_MAX * SIDE_MAX == AREA_MAX) by (nonlinear_arith);
        }
        let inter = sx * sy;
        Ratio { num: inter, den: self.area() + face.area() - inter }
    }

    /// Width and height of the bounding box in whole pixels, each bound first
    /// held within zero and the limit, where one is given.
    pub fn box_size(&self, max: Option<(usize, usize)>) -> (s: (usize, usize))
        requires
            box_ok(box_view(self.bbox)),
        ensures
            (s.0 as int, s.1 as int) == spec_box_size(
                box_view(self.bbox),
                match max {
                    Some(m) => Some((m.0 as int, m.1 as int)),
                    None => None,
                },
            ),
    {
        let b = self.bbox;
        match max {
            Some(m) => (span(b.0, b.2, Some(m.0)), span(b.1, b.3, Some(m.1))),
            None => (span(b.0, b.2, None), span(b.1, b.3, None)),
        }
    }

    /// The bounding box grown about its centre to the aspect ratio
    /// `dim_ratio.0 : dim_ratio.1` (width to height), with its size in whole
    /// pixels: see [`spec_scaled_bbox`].
    pub fn get_scaled_bbox(&self, dim_ratio: (u16, u16)) -> (r: ((usize, usize), BBox))
        requires
            box_ok(box_view(self.bbox)),
            dim_ratio.0 > 0,
            dim_ratio.1 > 0,
        ensures
            ((r.0.0 as int, r.0.1 as int), box_view(r.1)) == spec_scaled_bbox(
                box_view(self.bbox),
                dim_ratio.0 as int,
                dim_ratio.1 as int,
            ),
    {
        let b = self.bbox;
        let w: i128 = (b.2 - b.0) as i128;
        let h: i128 = (b.3 - b.1) as i128;
        let rw: i128 = dim_ratio.0 as i128;
        let rh: i128 = dim_ratio.1 as i128;
        proof {
            lemma_mul_bound(w as int, rh as int, 2 * COORD_MAX, 0x1_0000);
            lemma_mul_bound(h as int, rw as int, 2 * COORD_MAX, 0x1_0000);
        }
        let wide: i128 = w * rh;
        let tall: i128 = h * rw;
        let ghost limit: int = 2 * (COORD_MAX as int) * 0x1_0000;
        if wide == tall {
            ((whole_pixels(w), whole_pixels(h)), b)
        } else if wide > tall {
            proof {
                assert(-limit * rw <= wide < (limit + 1) * rw) by (nonlinear_arith)
                    requires
                        -limit <= wide <= limit,
                        rw >= 1,
                        limit >= 0,
                ;
                lemma_div_between(wide as int, rw as int, -limit, limit);
            }
            let nh = floor_div(wide, rw);
            let d = floor_div(nh - h, 2);
            ((whole_pixels(w), whole_pixels(nh)), (b.0, (b.1 as i128 - d) as i64, b.2, (b.3 as i128
                + d) as i64))
        } else {
            proof {
                assert(-limit * rh <= tall < (limit + 1) * rh) by (nonlinear_arith)
                    requires
                        -limit <= tall <= limit,
                        rh >= 1,
                        limit >= 0,
                ;
                lemma_div_between(tall as int, rh as int, -limit, limit);
            }
            let nw = floor_div(tall, rh);
            let d = floor_div(nw - w, 2);
            ((whole_pixels(nw), whole_pixels(h)), ((b.0 as i128 - d) as i64, b.1, (b.2 as i128
                + d) as i64, b.3))
        }
    }
}

} // verus!
