//! The five facial keypoints and the statistics of them that the alignment
//! solver needs.

use crate::fixed::{floor_div, lemma_mul_bound};
use vstd::prelude::*;

verus! {

/// Number of keypoints of a face: left eye, right eye, nose, left and right
/// corner of the mouth, in that order.
pub const KEY_POINTS_LEN: usize = 5;

/// Largest magnitude of a coordinate, in coordinate units (about 13 421
/// pixels). Within it every statistic below is exact in 128-bit arithmetic.
pub const COORD_MAX: i64 = 134_217_728;

/// Largest magnitude of a centred coordinate counted in fifths.
pub const CENTRED_MAX: i64 = 1_342_177_280;

/// Edge length, in pixels, of the square on which the reference layout is
/// given.
pub const ARC_REFERENCE: i64 = 112;

/// Largest output edge, in pixels, to which the reference layout is scaled.
pub const ARC_SCALE_MAX: usize = 16_000;

/// Five ordered points, each `(x, y)` in coordinate units.
#[derive(Debug, Clone, Copy)]
pub struct KeyPoints(pub [(i64, i64); 5]);

/// A 2x2 matrix of exact integers, `m11 m12` over `m21 m22`.
#[derive(Debug, Clone, Copy)]
pub struct Mat2 {
    pub m11: i128,
    pub m12: i128,
    pub m21: i128,
    pub m22: i128,
}

/// Whether `v` is a coordinate within range.
pub open spec fn coord_ok(v: int) -> bool {
    -COORD_MAX <= v <= COORD_MAX
}

/// Sum of the products of five pairs.
pub open spec fn dot5(a: spec_fn(int) -> int, b: spec_fn(int) -> int) -> int {
    a(0) * b(0) + a(1) * b(1) + a(2) * b(2) + a(3) * b(3) + a(4) * b(4)
}

/// The reference layout on the 112-pixel square, in coordinate units.
pub open spec fn arc_face_reference() -> Seq<(int, int)> {
    seq![
        (382_946int, 516_963int),
        (735_318int, 515_014int),
        (560_252int, 717_366int),
        (415_493int, 923_655int),
        (707_299int, 922_041int),
    ]
}

/// Whether `p` is five points with every coordinate within [`COORD_MAX`].
pub open spec fn points_ok(p: Seq<(int, int)>) -> bool {
    &&& p.len() == 5
    &&& forall|i: int| 0 <= i < 5 ==> coord_ok(#[trigger] p[i].0) && coord_ok(p[i].1)
}

/// Sum of the x coordinates of five points.
pub open spec fn sum_x(p: Seq<(int, int)>) -> int {
    p[0].0 + p[1].0 + p[2].0 + p[3].0 + p[4].0
}

/// Sum of the y coordinates of five points.
pub open spec fn sum_y(p: Seq<(int, int)>) -> int {
    p[0].1 + p[1].1 + p[2].1 + p[3].1 + p[4].1
}

/// The x coordinate of point `i` less the centroid's, counted in fifths of a
/// coordinate unit so that it is an exact integer.
pub open spec fn centred_x(p: Seq<(int, int)>, i: int) -> int {
    5 * p[i].0 - sum_x(p)
}

/// The y coordinate of point `i` less the centroid's, in fifths.
pub open spec fn centred_y(p: Seq<(int, int)>, i: int) -> int {
    5 * p[i].1 - sum_y(p)
}

/// 125 times the sum of the two per-axis population variances of five points.
pub open spec fn spread(p: Seq<(int, int)>) -> int {
    dot5(|i: int| centred_x(p, i), |i: int| centred_x(p, i)) + dot5(
        |i: int| centred_y(p, i),
        |i: int| centred_y(p, i),
    )
}

/// The cross-covariance of `dst` against `src`, times 125: entry `(r, c)` is
/// the sum over the points of the centred `r` coordinate of `dst` times the
/// centred `c` coordinate of `src`, both in fifths. The entries are listed row
/// by row.
pub open spec fn covariance(src: Seq<(int, int)>, dst: Seq<(int, int)>) -> (int, int, int, int) {
    (
        dot5(|i: int| centred_x(dst, i), |i: int| centred_x(src, i)),
        dot5(|i: int| centred_x(dst, i), |i: int| centred_y(src, i)),
        dot5(|i: int| centred_y(dst, i), |i: int| centred_x(src, i)),
        dot5(|i: int| centred_y(dst, i), |i: int| centred_y(src, i)),
    )
}

/// A factor distributes over a sum of five.
proof fn lemma_times_sum5(k: int, x0: int, x1: int, x2: int, x3: int, x4: int)
    ensures
        k * (x0 + x1 + x2 + x3 + x4) == k * x0 + k * x1 + k * x2 + k * x3 + k * x4,
{
    assert(k * (x0 + x1 + x2 + x3 + x4) == k * x0 + k * x1 + k * x2 + k * x3 + k * x4)
        by (nonlinear_arith);
}

/// The square of `p * a - q * b`, written out; it is not negative.
proof fn lemma_square_of_difference(p: int, q: int, a: int, b: int)
    ensures
        (p * p) * (a * a) - (2 * (p * q)) * (a * b) + (q * q) * (b * b) >= 0,
{
    let u = p * a;
    let v = q * b;
    assert(u * u == (p * p) * (a * a)) by (nonlinear_arith)
        requires
            u == p * a,
    ;
    assert(v * v == (q * q) * (b * b)) by (nonlinear_arith)
        requires
            v == q * b,
    ;
    assert(2 * (u * v) == (2 * (p * q)) * (a * b)) by (nonlinear_arith)
        requires
            u == p * a,
            v == q * b,
    ;
    assert(u * u - 2 * (u * v) + v * v == (u - v) * (u - v)) by (nonlinear_arith);
    assert((u - v) * (u - v) >= 0) by (nonlinear_arith);
}

/// The Cauchy-Schwarz inequality for five pairs: the square of the sum of the
/// products is at most the product of the sums of the squares.
pub proof fn lemma_cauchy_schwarz5(a: spec_fn(int) -> int, b: spec_fn(int) -> int)
    ensures
        dot5(a, b) * dot5(a, b) <= dot5(a, a) * dot5(b, b),
        dot5(a, b) == dot5(b, a),
{
    let aa = dot5(a, a);
    let bb = dot5(b, b);
    let ab = dot5(a, b);
    assert(dot5(a, b) == dot5(b, a)) by (nonlinear_arith)
        requires
            dot5(a, b) == a(0) * b(0) + a(1) * b(1) + a(2) * b(2) + a(3) * b(3) + a(4) * b(4),
            dot5(b, a) == b(0) * a(0) + b(1) * a(1) + b(2) * a(2) + b(3) * a(3) + b(4) * a(4),
    ;
    assert(bb >= 0) by (nonlinear_arith)
        requires
            bb == b(0) * b(0) + b(1) * b(1) + b(2) * b(2) + b(3) * b(3) + b(4) * b(4),
    ;
    if bb == 0 {
        assert(b(0) == 0 && b(1) == 0 && b(2) == 0 && b(3) == 0 && b(4) == 0) by (nonlinear_arith)
            requires
                0 == b(0) * b(0) + b(1) * b(1) + b(2) * b(2) + b(3) * b(3) + b(4) * b(4),
        ;
        assert(ab == 0) by (nonlinear_arith)
            requires
                ab == a(0) * b(0) + a(1) * b(1) + a(2) * b(2) + a(3) * b(3) + a(4) * b(4),
                b(0) == 0 && b(1) == 0 && b(2) == 0 && b(3) == 0 && b(4) == 0,
        ;
        assert(ab * ab == 0 && aa * bb == 0) by (nonlinear_arith)
            requires
                ab == 0,
                bb == 0,
        ;
    } else {
        // The sum of the squares of bb * a(i) - ab * b(i) is not negative,
        // and it is bb times the difference of the two sides.
        let p = bb;
        let q = ab;
        lemma_square_of_difference(p, q, a(0), b(0));
        lemma_square_of_difference(p, q, a(1), b(1));
        lemma_square_of_difference(p, q, a(2), b(2));
        lemma_square_of_difference(p, q, a(3), b(3));
        lemma_square_of_difference(p, q, a(4), b(4));
        lemma_times_sum5(p * p, a(0) * a(0), a(1) * a(1), a(2) * a(2), a(3) * a(3), a(4) * a(4));
        lemma_times_sum5(
            2 * (p * q),
            a(0) * b(0),
            a(1) * b(1),
            a(2) * b(2),
            a(3) * b(3),
            a(4) * b(4),
        );
        lemma_times_sum5(q * q, b(0) * b(0), b(1) * b(1), b(2) * b(2), b(3) * b(3), b(4) * b(4));
        let total = (p * p) * aa - (2 * (p * q)) * ab + (q * q) * bb;
        assert(total >= 0);
        assert(total == bb * (aa * bb - ab * ab)) by (nonlinear_arith)
            requires
                total == (p * p) * aa - (2 * (p * q)) * ab + (q * q) * bb,
                p == bb,
                q == ab,
        ;
        assert(aa * bb - ab * ab >= 0) by (nonlinear_arith)
            requires
                bb > 0,
                bb * (aa * bb - ab * ab) >= 0,
        ;
    }
}

/// A point set's covariance with itself has no negative determinant, so
/// aligning a set with itself never calls for the reflection correction.
pub proof fn lemma_own_covariance_determinant(p: Seq<(int, int)>)
    ensures
        covariance(p, p).0 * covariance(p, p).3 - covariance(p, p).1 * covariance(p, p).2 >= 0,
{
    let a = |i: int| centred_x(p, i);
    let b = |i: int| centred_y(p, i);
    lemma_cauchy_schwarz5(a, b);
    assert(covariance(p, p) == (dot5(a, a), dot5(a, b), dot5(b, a), dot5(b, b)));
}

/// The reference layout scaled from its 112-pixel square to a square of
/// `scale` pixels, each coordinate rounded down.
pub open spec fn arc_face_scaled(scale: int) -> Seq<(int, int)> {
    Seq::new(
        5,
        |i: int|
            (
                arc_face_reference()[i].0 * scale / (ARC_REFERENCE as int),
                arc_face_reference()[i].1 * scale / (ARC_REFERENCE as int),
            ),
    )
}

impl View for KeyPoints {
    type V = Seq<(int, int)>;

    /// The five points as mathematical pairs.
    open spec fn view(&self) -> Seq<(int, int)> {
        Seq::new(5, |i: int| (self.0@[i].0 as int, self.0@[i].1 as int))
    }
}

impl KeyPoints {
    /// Every coordinate is within [`COORD_MAX`].
    pub open spec fn wf(&self) -> bool {
        points_ok(self@)
    }

    /// The x coordinate of point `i`.
    pub open spec fn x(&self, i: int) -> int {
        self@[i].0
    }

    /// The y coordinate of point `i`.
    pub open spec fn y(&self, i: int) -> int {
        self@[i].1
    }

    /// Whether every coordinate is within range.
    pub fn is_valid(&self) -> (ok: bool)
        ensures
            ok == self.wf(),
    {
        let mut i: usize = 0;
        while i < 5
            invariant
                i <= 5,
                forall|j: int| 0 <= j < i ==> coord_ok(#[trigger] self@[j].0) && coord_ok(self@[j].1),
            decreases 5 - i,
        {
            let p = self.0[i];
            if p.0 < -COORD_MAX || p.0 > COORD_MAX || p.1 < -COORD_MAX || p.1 > COORD_MAX {
                assert(self.wf() ==> coord_ok(self@[i as int].0));
                assert(self.wf() ==> coord_ok(self@[i as int].1));
                return false;
            }
            i = i + 1;
        }
        true
    }

    /// The sums of the x and of the y coordinates.
    pub fn sum(&self) -> (s: (i64, i64))
        requires
            self.wf(),
        ensures
            s.0 == sum_x(self@),
            s.1 == sum_y(self@),
            -5 * COORD_MAX <= s.0 <= 5 * COORD_MAX,
            -5 * COORD_MAX <= s.1 <= 5 * COORD_MAX,
    {
        assert(coord_ok(self@[0].0) && coord_ok(self@[1].0) && coord_ok(self@[2].0) && coord_ok(
            self@[3].0,
        ) && coord_ok(self@[4].0));
        let a = self.0[0];
        let b = self.0[1];
        let c = self.0[2];
        let d = self.0[3];
        let e = self.0[4];
        (a.0 + b.0 + c.0 + d.0 + e.0, a.1 + b.1 + c.1 + d.1 + e.1)
    }

    /// The centroid, each coordinate rounded down to a whole unit.
    pub fn mean(&self) -> (m: (i64, i64))
        requires
            self.wf(),
        ensures
            m.0 == sum_x(self@) / 5,
            m.1 == sum_y(self@) / 5,
    {
        let s = self.sum();
        let mx = floor_div(s.0 as i128, 5);
        let my = floor_div(s.1 as i128, 5);
        (mx as i64, my as i64)
    }

    /// The centred x coordinates, in fifths.
    pub fn centred_xs(&self) -> (c: [i64; 5])
        requires
            self.wf(),
        ensures
            forall|i: int| 0 <= i < 5 ==> #[trigger] c@[i] == centred_x(self@, i),
            forall|i: int| 0 <= i < 5 ==> -CENTRED_MAX <= #[trigger] c@[i] <= CENTRED_MAX,
    {
        let s = self.sum();
        assert(coord_ok(self@[0].0) && coord_ok(self@[1].0) && coord_ok(self@[2].0) && coord_ok(
            self@[3].0,
        ) && coord_ok(self@[4].0));
        [
            5 * self.0[0].0 - s.0,
            5 * self.0[1].0 - s.0,
            5 * self.0[2].0 - s.0,
            5 * self.0[3].0 - s.0,
            5 * self.0[4].0 - s.0,
        ]
    }

    /// The centred y coordinates, in fifths.
    pub fn centred_ys(&self) -> (c: [i64; 5])
        requires
            self.wf(),
        ensures
            forall|i: int| 0 <= i < 5 ==> #[trigger] c@[i] == centred_y(self@, i),
            forall|i: int| 0 <= i < 5 ==> -CENTRED_MAX <= #[trigger] c@[i] <= CENTRED_MAX,
    {
        let s = self.sum();
        assert(coord_ok(self@[0].0) && coord_ok(self@[1].0) && coord_ok(self@[2].0) && coord_ok(
            self@[3].0,
        ) && coord_ok(self@[4].0));
        [
            5 * self.0[0].1 - s.1,
            5 * self.0[1].1 - s.1,
            5 * self.0[2].1 - s.1,
            5 * self.0[3].1 - s.1,
            5 * self.0[4].1 - s.1,
        ]
    }
}

impl KeyPoints {
    /// The cross-covariance matrix of `dst` against `self`, times 125, in
    /// squared coordinate units. This is the matrix whose singular value
    /// decomposition the solver takes.
    pub fn covariance_matrix(&self, dst: &KeyPoints) -> (m: Mat2)
        requires
            self.wf(),
            dst.wf(),
        ensures
            (m.m11 as int, m.m12 as int, m.m21 as int, m.m22 as int) == covariance(self@, dst@),
            -DOT_MAX <= m.m11 <= DOT_MAX,
            -DOT_MAX <= m.m12 <= DOT_MAX,
            -DOT_MAX <= m.m21 <= DOT_MAX,
            -DOT_MAX <= m.m22 <= DOT_MAX,
    {
        let sx = self.centred_xs();
        let sy = self.centred_ys();
        let dx = dst.centred_xs();
        let dy = dst.centred_ys();
        Mat2 { m11: dot(&dx, &sx), m12: dot(&dx, &sy), m21: dot(&dy, &sx), m22: dot(&dy, &sy) }
    }

    /// The population variance of the x and of the y coordinates, each rounded
    /// down, in squared coordinate units.
    pub fn variance(&self) -> (v: (i128, i128))
        requires
            self.wf(),
        ensures
            v.0 == dot5(|i: int| centred_x(self@, i), |i: int| centred_x(self@, i)) / 125,
            v.1 == dot5(|i: int| centred_y(self@, i), |i: int| centred_y(self@, i)) / 125,
    {
        let cx = self.centred_xs();
        let cy = self.centred_ys();
        (floor_div(dot(&cx, &cx), 125), floor_div(dot(&cy, &cy), 125))
    }

    /// 125 times the sum of the two per-axis population variances.
    pub fn spread_sum(&self) -> (v: i128)
        requires
            self.wf(),
        ensures
            v == spread(self@),
            0 <= v <= 2 * DOT_MAX,
    {
        let cx = self.centred_xs();
        let cy = self.centred_ys();
        let v = dot(&cx, &cx) + dot(&cy, &cy);
        assert(v >= 0) by (nonlinear_arith)
            requires
                v == cx@[0] * cx@[0] + cx@[1] * cx@[1] + cx@[2] * cx@[2] + cx@[3] * cx@[3] + cx@[4]
                    * cx@[4] + (cy@[0] * cy@[0] + cy@[1] * cy@[1] + cy@[2] * cy@[2] + cy@[3]
                    * cy@[3] + cy@[4] * cy@[4]),
        ;
        v
    }

    /// The reference layout scaled to a square of `scale` pixels, or `None`
    /// when `scale` is beyond [`ARC_SCALE_MAX`].
    pub fn arc_face(scale: usize) -> (r: Option<KeyPoints>)
        ensures
            r is Some <==> scale <= ARC_SCALE_MAX,
            r matches Some(k) ==> k.wf() && k@ == arc_face_scaled(scale as int),
    {
        if scale > ARC_SCALE_MAX {
            return None;
        }
        let s = scale as i64;
        let k = KeyPoints(
            [
                (382_946 * s / ARC_REFERENCE, 516_963 * s / ARC_REFERENCE),
                (735_318 * s / ARC_REFERENCE, 515_014 * s / ARC_REFERENCE),
                (560_252 * s / ARC_REFERENCE, 717_366 * s / ARC_REFERENCE),
                (415_493 * s / ARC_REFERENCE, 923_655 * s / ARC_REFERENCE),
                (707_299 * s / ARC_REFERENCE, 922_041 * s / ARC_REFERENCE),
            ],
        );
        assert(k@ =~= arc_face_scaled(scale as int)) by {
            assert forall|i: int| 0 <= i < 5 implies #[trigger] k@[i] == arc_face_scaled(
                scale as int,
            )[i] by {
                assert(i == 0 || i == 1 || i == 2 || i == 3 || i == 4);
            }
        }
        Some(k)
    }
}

/// Largest magnitude of a sum of five products of centred coordinates.
pub const DOT_MAX: i128 = 9_007_199_254_740_992_000;

/// Sum of the products of five pairs of centred coordinates.
pub fn dot(a: &[i64; 5], b: &[i64; 5]) -> (r: i128)
    requires
        forall|i: int| 0 <= i < 5 ==> -CENTRED_MAX <= #[trigger] a@[i] <= CENTRED_MAX,
        forall|i: int| 0 <= i < 5 ==> -CENTRED_MAX <= #[trigger] b@[i] <= CENTRED_MAX,
    ensures
        r == dot5(|i: int| a@[i] as int, |i: int| b@[i] as int),
        -DOT_MAX <= r <= DOT_MAX,
{
    proof {
        lemma_mul_bound(a@[0] as int, b@[0] as int, CENTRED_MAX as int, CENTRED_MAX as int);
        lemma_mul_bound(a@[1] as int, b@[1] as int, CENTRED_MAX as int, CENTRED_MAX as int);
        lemma_mul_bound(a@[2] as int, b@[2] as int, CENTRED_MAX as int, CENTRED_MAX as int);
        lemma_mul_bound(a@[3] as int, b@[3] as int, CENTRED_MAX as int, CENTRED_MAX as int);
        lemma_mul_bound(a@[4] as int, b@[4] as int, CENTRED_MAX as int, CENTRED_MAX as int);
        assert(CENTRED_MAX * CENTRED_MAX == 1_801_439_850_948_198_400) by (nonlinear_arith);
    }
    let t0: i128 = (a[0] as i128) * (b[0] as i128);
    let t1: i128 = (a[1] as i128) * (b[1] as i128);
    let t2: i128 = (a[2] as i128) * (b[2] as i128);
    let t3: i128 = (a[3] as i128) * (b[3] as i128);
    let t4: i128 = (a[4] as i128) * (b[4] as i128);
    t0 + t1 + t2 + t3 + t4
}

} // verus!
