//! The least-squares similarity transform between two keypoint sets.
//!
//! The transform `dst = c * R * src + t` is assembled here from the two point
//! sets and a singular value decomposition of their cross-covariance. The
//! decomposition itself is floating-point work done outside this crate; it is
//! taken as an argument, and what is built from it is stated for every value
//! it may have.

use crate::error::Error;
use crate::fixed::{floor_div, lemma_div_between, lemma_mul_bound, FRAC};
use crate::keypoints::{
    arc_face_scaled, covariance, lemma_own_covariance_determinant, spread, sum_x, sum_y, KeyPoints,
    Mat2, ARC_SCALE_MAX, COORD_MAX, DOT_MAX,
};
use vstd::prelude::*;

verus! {

/// A singular value at or below this counts as zero when the rank is taken:
/// 0.00001 square pixels, in squared coordinate units.
pub const RANK_TOLERANCE: i64 = 1_000;

/// Largest magnitude of the scale and of a matrix entry of a transform, in
/// [`FRAC`] units: a factor of 32 768.
pub const SCALE_MAX: i64 = 32_768_000_000;

/// Largest magnitude of a translation that the solver can produce.
pub const SHIFT_MAX: i64 = 17_592_186_044_416;

/// A 2x2 factor of a decomposition, entries in [`FRAC`] units.
#[derive(Debug, Clone, Copy)]
pub struct Rot2 {
    pub m11: i32,
    pub m12: i32,
    pub m21: i32,
    pub m22: i32,
}

/// A singular value decomposition `U * diag(s1, s2) * V^T` of the
/// cross-covariance matrix, that is of
/// [`KeyPoints::covariance_matrix`] divided by 125. The singular values are in
/// squared coordinate units.
#[derive(Debug, Clone, Copy)]
pub struct Svd2 {
    pub u: Rot2,
    pub singular: (i64, i64),
    pub v_t: Rot2,
}

/// A similarity transform as a homogeneous matrix
/// `m11 m12 t1 / m21 m22 t2 / 0 0 1`: the scaled rotation in [`FRAC`] units,
/// the translation in coordinate units.
#[derive(Debug, Clone, Copy, PartialEq, Eq, Structural)]
pub struct SimilarityTransform {
    pub m11: i64,
    pub m12: i64,
    pub m21: i64,
    pub m22: i64,
    pub t1: i64,
    pub t2: i64,
}

impl Rot2 {
    /// The determinant, in squared [`FRAC`] units.
    pub open spec fn spec_det(self) -> int {
        self.m11 * self.m22 - self.m12 * self.m21
    }

    /// The determinant, in squared [`FRAC`] units.
    pub fn det(&self) -> (d: i128)
        ensures
            d == self.spec_det(),
            -0x8000_0000_0000_0000 <= d <= 0x8000_0000_0000_0000,
    {
        proof {
            lemma_mul_bound(self.m11 as int, self.m22 as int, 0x8000_0000, 0x8000_0000);
            lemma_mul_bound(self.m12 as int, self.m21 as int, 0x8000_0000, 0x8000_0000);
        }
        (self.m11 as i128) * (self.m22 as i128) - (self.m12 as i128) * (self.m21 as i128)
    }
}

impl Svd2 {
    /// The number of singular values above [`RANK_TOLERANCE`].
    pub open spec fn spec_rank(self) -> int {
        (if self.singular.0 > RANK_TOLERANCE { 1int } else { 0int }) + (if self.singular.1
            > RANK_TOLERANCE { 1int } else { 0int })
    }

    /// The number of singular values above [`RANK_TOLERANCE`].
    pub fn rank(&self) -> (r: usize)
        ensures
            r == self.spec_rank(),
    {
        let a: usize = if self.singular.0 > RANK_TOLERANCE { 1 } else { 0 };
        let b: usize = if self.singular.1 > RANK_TOLERANCE { 1 } else { 0 };
        a + b
    }

    /// The sign given to the second column of `U` when the rotation is formed,
    /// where `d` is the sign correction of the covariance. At full rank it is
    /// `d`. At rank one it is 1 when the determinants of `U` and `V^T` have
    /// the same sign, and -1 otherwise.
    pub open spec fn rotation_sign(self, d: int) -> int {
        if self.spec_rank() == 1 {
            if self.u.spec_det() * self.v_t.spec_det() > 0 {
                1
            } else {
                -1
            }
        } else {
            d
        }
    }

    /// The product `U * diag(1, e) * V^T`, each entry rounded down to a whole
    /// [`FRAC`] unit.
    pub open spec fn rotation(self, e: int) -> (int, int, int, int) {
        (
            (self.u.m11 * self.v_t.m11 + e * (self.u.m12 * self.v_t.m21)) / (FRAC as int),
            (self.u.m11 * self.v_t.m12 + e * (self.u.m12 * self.v_t.m22)) / (FRAC as int),
            (self.u.m21 * self.v_t.m11 + e * (self.u.m22 * self.v_t.m21)) / (FRAC as int),
            (self.u.m21 * self.v_t.m12 + e * (self.u.m22 * self.v_t.m22)) / (FRAC as int),
        )
    }
}

/// The sign correction of a covariance matrix: -1 when its determinant is
/// negative, else 1. It keeps the rotation free of a reflection.
pub open spec fn reflection_sign(cov: (int, int, int, int)) -> int {
    if cov.0 * cov.3 - cov.1 * cov.2 < 0 {
        -1
    } else {
        1
    }
}

/// The uniform scale in [`FRAC`] units, rounded down: the signed sum of the
/// singular values over the variance of the source, where `spread` is 125
/// times that variance.
pub open spec fn spec_scale(svd: Svd2, d: int, spread: int) -> int {
    ((svd.singular.0 + d * svd.singular.1) * 125 * FRAC) / spread
}

/// A rotation entry `r` times the scale `c`, rounded down.
pub open spec fn scaled(c: int, r: int) -> int {
    (c * r) / (FRAC as int)
}

/// One coordinate of the translation, rounded down: the destination centroid
/// less the transformed source centroid. `dsum` is the destination's
/// coordinate sum, `(ma, mb)` the matrix row, `(sx, sy)` the source's sums.
pub open spec fn translation(dsum: int, ma: int, mb: int, sx: int, sy: int) -> int {
    (dsum * FRAC - (ma * sx + mb * sy)) / (5 * FRAC)
}

/// Whether `v` is within [`SCALE_MAX`].
pub open spec fn scale_ok(v: int) -> bool {
    -SCALE_MAX <= v <= SCALE_MAX
}

/// What the solver returns for what [`solve`] gives: the transform, or
/// [`Error::InvalidAlignment`] where there is none.
pub open spec fn solved(t: Option<SimilarityTransform>) -> Result<SimilarityTransform, Error> {
    match t {
        Some(t) => Ok(t),
        None => Err(Error::InvalidAlignment),
    }
}

/// The transform that maps `src` onto `dst` in the least-squares sense, given
/// the decomposition `svd` of their cross-covariance; `None` for a degenerate
/// configuration: rank zero, a source without spread, or a scale or matrix
/// entry beyond [`SCALE_MAX`].
pub open spec fn solve(src: Seq<(int, int)>, dst: Seq<(int, int)>, svd: Svd2) -> Option<
    SimilarityTransform,
> {
    let d = reflection_sign(covariance(src, dst));
    let spread = spread(src);
    if svd.spec_rank() == 0 || spread == 0 {
        None
    } else {
        let c = spec_scale(svd, d, spread);
        let r = svd.rotation(svd.rotation_sign(d));
        let m = (scaled(c, r.0), scaled(c, r.1), scaled(c, r.2), scaled(c, r.3));
        if !scale_ok(c) || !scale_ok(m.0) || !scale_ok(m.1) || !scale_ok(m.2) || !scale_ok(m.3) {
            None
        } else {
            Some(
                SimilarityTransform {
                    m11: m.0 as i64,
                    m12: m.1 as i64,
                    m21: m.2 as i64,
                    m22: m.3 as i64,
                    t1: translation(sum_x(dst), m.0, m.1, sum_x(src), sum_y(src)) as i64,
                    t2: translation(sum_y(dst), m.2, m.3, sum_x(src), sum_y(src)) as i64,
                },
            )
        }
    }
}

impl SimilarityTransform {
    /// The matrix entries are within [`SCALE_MAX`] and the translation within
    /// [`SHIFT_MAX`].
    pub open spec fn wf(&self) -> bool {
        &&& scale_ok(self.m11 as int)
        &&& scale_ok(self.m12 as int)
        &&& scale_ok(self.m21 as int)
        &&& scale_ok(self.m22 as int)
        &&& -SHIFT_MAX <= self.t1 <= SHIFT_MAX
        &&& -SHIFT_MAX <= self.t2 <= SHIFT_MAX
    }

    /// Whether the entries are within range.
    pub fn is_valid(&self) -> (ok: bool)
        ensures
            ok == self.wf(),
    {
        -SCALE_MAX <= self.m11 && self.m11 <= SCALE_MAX && -SCALE_MAX <= self.m12 && self.m12
            <= SCALE_MAX && -SCALE_MAX <= self.m21 && self.m21 <= SCALE_MAX && -SCALE_MAX
            <= self.m22 && self.m22 <= SCALE_MAX && -SHIFT_MAX <= self.t1 && self.t1 <= SHIFT_MAX
            && -SHIFT_MAX <= self.t2 && self.t2 <= SHIFT_MAX
    }

    /// The transform as the rows of its homogeneous matrix: the scaled
    /// rotation beside the translation, over the row `0 0 1`. The rotation and
    /// the one are in [`FRAC`] units, the translation in coordinate units.
    pub open spec fn spec_matrix(&self) -> Seq<Seq<int>> {
        seq![
            seq![self.m11 as int, self.m12 as int, self.t1 as int],
            seq![self.m21 as int, self.m22 as int, self.t2 as int],
            seq![0int, 0int, FRAC as int],
        ]
    }

    /// The transform as the rows of its homogeneous matrix.
    pub fn matrix(&self) -> (m: [[i64; 3]; 3])
        ensures
            m@.len() == 3,
            forall|i: int, j: int|
                0 <= i < 3 && 0 <= j < 3 ==> #[trigger] m@[i]@[j] == self.spec_matrix()[i][j],
    {
        [[self.m11, self.m12, self.t1], [self.m21, self.m22, self.t2], [0, 0, FRAC]]
    }

    /// The transform that leaves every point where it is.
    pub open spec fn spec_identity() -> SimilarityTransform {
        SimilarityTransform { m11: FRAC, m12: 0, m21: 0, m22: FRAC, t1: 0, t2: 0 }
    }

    /// The transform that leaves every point where it is.
    pub fn identity() -> (t: SimilarityTransform)
        ensures
            t == SimilarityTransform::spec_identity(),
            t.wf(),
    {
        SimilarityTransform { m11: FRAC, m12: 0, m21: 0, m22: FRAC, t1: 0, t2: 0 }
    }
}

/// Aligning a point set with itself gives the identity: rotation one, scale
/// one, translation zero.
///
/// The decomposition is computed outside this crate, so the law is stated of
/// every decomposition that is exact for the set's own covariance: its
/// factors multiply to the identity matrix, and its singular values add up to
/// the set's variance. The set must have spread and the decomposition rank,
/// or no transform exists.
pub proof fn lemma_umeyama_of_self_is_identity(k: Seq<(int, int)>, svd: Svd2)
    requires
        spread(k) > 0,
        svd.spec_rank() > 0,
        svd.rotation(svd.rotation_sign(1)) == (FRAC as int, 0int, 0int, FRAC as int),
        (svd.singular.0 + svd.singular.1) * 125 == spread(k),
    ensures
        solve(k, k, svd) == Some(SimilarityTransform::spec_identity()),
{
    lemma_own_covariance_determinant(k);
    let d = reflection_sign(covariance(k, k));
    assert(d == 1);
    let v = spread(k);
    let c = spec_scale(svd, d, v);
    assert(c == FRAC) by (nonlinear_arith)
        requires
            c == (v * FRAC) / v,
            v > 0,
    ;
    assert(scaled(FRAC as int, FRAC as int) == FRAC) by (nonlinear_arith);
    assert(scaled(FRAC as int, 0) == 0) by (nonlinear_arith);
    let sx = sum_x(k);
    let sy = sum_y(k);
    assert(translation(sx, FRAC as int, 0, sx, sy) == 0) by (nonlinear_arith);
    assert(translation(sy, 0, FRAC as int, sx, sy) == 0) by (nonlinear_arith);
}

/// One entry of `U * diag(1, e) * V^T`.
fn rotation_entry(ua: i32, va: i32, ub: i32, vb: i32, e: i128) -> (r: i128)
    requires
        e == 1 || e == -1,
    ensures
        r == (ua * va + e * (ub * vb)) / (FRAC as int),
        -0x8000_0000_0000_0000 <= r <= 0x8000_0000_0000_0000,
{
    proof {
        lemma_mul_bound(ua as int, va as int, 0x8000_0000, 0x8000_0000);
        lemma_mul_bound(ub as int, vb as int, 0x8000_0000, 0x8000_0000);
    }
    let p: i128 = (ua as i128) * (va as i128);
    let q: i128 = (ub as i128) * (vb as i128);
    assert(e * q == if e == 1 { q as int } else { -q }) by (nonlinear_arith)
        requires
            e == 1 || e == -1,
    ;
    let num: i128 = if e == 1 { p + q } else { p - q };
    proof {
        lemma_div_between(
            num as int,
            FRAC as int,
            -0x8000_0000_0000_0000,
            0x8000_0000_0000_0000,
        );
    }
    floor_div(num, FRAC as i128)
}

/// A rotation entry times the scale.
fn scale_entry(c: i128, r: i128) -> (m: i128)
    requires
        scale_ok(c as int),
        -0x8000_0000_0000_0000 <= r <= 0x8000_0000_0000_0000,
    ensures
        m == scaled(c as int, r as int),
{
    proof {
        lemma_mul_bound(c as int, r as int, SCALE_MAX as int, 0x8000_0000_0000_0000);
    }
    floor_div(c * r, FRAC as i128)
}

/// One coordinate of the translation.
fn shift(dsum: i64, ma: i128, mb: i128, sx: i64, sy: i64) -> (t: i64)
    requires
        -5 * COORD_MAX <= dsum <= 5 * COORD_MAX,
        -5 * COORD_MAX <= sx <= 5 * COORD_MAX,
        -5 * COORD_MAX <= sy <= 5 * COORD_MAX,
        scale_ok(ma as int),
        scale_ok(mb as int),
    ensures
        t == translation(dsum as int, ma as int, mb as int, sx as int, sy as int),
        -SHIFT_MAX <= t <= SHIFT_MAX,
{
    proof {
        lemma_mul_bound(ma as int, sx as int, SCALE_MAX as int, 5 * COORD_MAX);
        lemma_mul_bound(mb as int, sy as int, SCALE_MAX as int, 5 * COORD_MAX);
        lemma_mul_bound(dsum as int, FRAC as int, 5 * COORD_MAX, FRAC as int);
    }
    let num: i128 = (dsum as i128) * (FRAC as i128) - (ma * (sx as i128) + mb * (sy as i128));
    proof {
        lemma_div_between(num as int, 5 * FRAC, -SHIFT_MAX as int, SHIFT_MAX as int);
    }
    floor_div(num, 5 * (FRAC as i128)) as i64
}

/// The rotation, the scale and the translation of the transform that
/// [`solve`] gives, apart: the rotation `U * diag(1, e) * V^T` and the scale in
/// [`FRAC`] units, the translation in coordinate units.
pub open spec fn solve_factors(src: Seq<(int, int)>, dst: Seq<(int, int)>, svd: Svd2) -> Option<
    ((int, int, int, int), int, (int, int)),
> {
    let d = reflection_sign(covariance(src, dst));
    match solve(src, dst, svd) {
        Some(t) => Some(
            (
                svd.rotation(svd.rotation_sign(d)),
                spec_scale(svd, d, spread(src)),
                (t.t1 as int, t.t2 as int),
            ),
        ),
        None => None,
    }
}

impl Svd2 {
    /// The uniform scale for the sign correction `d` and a source of the
    /// given spread.
    pub fn scale(&self, d: i128, spread: i128) -> (c: i128)
        requires
            d == 1 || d == -1,
            spread >= 1,
        ensures
            c == spec_scale(*self, d as int, spread as int),
    {
        let s1 = self.singular.0 as i128;
        let s2 = self.singular.1 as i128;
        assert(d * s2 == if d == 1 { s2 as int } else { -s2 }) by (nonlinear_arith)
            requires
                d == 1 || d == -1,
        ;
        let signed: i128 = if d == 1 { s1 + s2 } else { s1 - s2 };
        proof {
            lemma_mul_bound(
                signed * 125,
                FRAC as int,
                0x7d_0000_0000_0000_0000int,
                FRAC as int,
            );
        }
        let num: i128 = signed * 125 * (FRAC as i128);
        proof {
            let bound: int = 0x1_0000_0000_0000_0000 * 125 * FRAC;
            assert(-bound * spread <= num < (bound + 1) * spread) by (nonlinear_arith)
                requires
                    -bound <= num <= bound,
                    spread >= 1,
                    bound >= 0,
            ;
            lemma_div_between(num as int, spread as int, -bound, bound);
        }
        floor_div(num, spread)
    }

    /// The sign given to the second column of `U` for the sign correction
    /// `d`.
    pub fn sign(&self, d: i128) -> (e: i128)
        requires
            d == 1 || d == -1,
        ensures
            e == self.rotation_sign(d as int),
            e == 1 || e == -1,
    {
        if self.rank() == 1 {
            let du = self.u.det();
            let dv = self.v_t.det();
            proof {
                lemma_mul_bound(
                    du as int,
                    dv as int,
                    0x8000_0000_0000_0000,
                    0x8000_0000_0000_0000,
                );
            }
            if du * dv > 0 {
                1
            } else {
                -1
            }
        } else {
            d
        }
    }

    /// The rotation `U * diag(1, e) * V^T`.
    pub fn rotate(&self, e: i128) -> (r: Mat2)
        requires
            e == 1 || e == -1,
        ensures
            (r.m11 as int, r.m12 as int, r.m21 as int, r.m22 as int) == self.rotation(e as int),
            -0x8000_0000_0000_0000 <= r.m11 <= 0x8000_0000_0000_0000,
            -0x8000_0000_0000_0000 <= r.m12 <= 0x8000_0000_0000_0000,
            -0x8000_0000_0000_0000 <= r.m21 <= 0x8000_0000_0000_0000,
            -0x8000_0000_0000_0000 <= r.m22 <= 0x8000_0000_0000_0000,
    {
        Mat2 {
            m11: rotation_entry(self.u.m11, self.v_t.m11, self.u.m12, self.v_t.m21, e),
            m12: rotation_entry(self.u.m11, self.v_t.m12, self.u.m12, self.v_t.m22, e),
            m21: rotation_entry(self.u.m21, self.v_t.m11, self.u.m22, self.v_t.m21, e),
            m22: rotation_entry(self.u.m21, self.v_t.m12, self.u.m22, self.v_t.m22, e),
        }
    }
}

impl KeyPoints {
    /// The sign correction of the covariance of `dst` against `self`: -1 when
    /// its determinant is negative, else 1.
    pub fn reflection(&self, dst: &KeyPoints) -> (d: i128)
        requires
            self.wf(),
            dst.wf(),
        ensures
            d == reflection_sign(covariance(self@, dst@)),
            d == 1 || d == -1,
    {
        let cov = self.covariance_matrix(dst);
        proof {
            lemma_mul_bound(cov.m11 as int, cov.m22 as int, DOT_MAX as int, DOT_MAX as int);
            lemma_mul_bound(cov.m12 as int, cov.m21 as int, DOT_MAX as int, DOT_MAX as int);
            assert(DOT_MAX * DOT_MAX == 81_129_638_414_606_681_695_789_005_144_064_000_000)
                by (nonlinear_arith);
        }
        let determinant: i128 = cov.m11 * cov.m22 - cov.m12 * cov.m21;
        if determinant < 0 {
            -1
        } else {
            1
        }
    }

    /// Solves for the similarity transform that maps `self` onto `dst`, given
    /// the decomposition `svd` of [`KeyPoints::covariance_matrix`] divided by
    /// 125.
    ///
    /// The result is [`solve`]: the transform on every non-degenerate input,
    /// and [`Error::InvalidAlignment`] exactly where `solve` has none.
    pub fn umeyama(&self, dst: &KeyPoints, svd: &Svd2) -> (r: Result<SimilarityTransform, Error>)
        requires
            self.wf(),
            dst.wf(),
        ensures
            r == solved(solve(self@, dst@, *svd)),
            r matches Ok(t) ==> t.wf(),
    {
        let d = self.reflection(dst);
        let spread = self.spread_sum();
        if svd.rank() == 0 || spread == 0 {
            return Err(Error::InvalidAlignment);
        }
        let c = svd.scale(d, spread);
        if c < -(SCALE_MAX as i128) || c > SCALE_MAX as i128 {
            return Err(Error::InvalidAlignment);
        }
        let r = svd.rotate(svd.sign(d));
        let m11 = scale_entry(c, r.m11);
        let m12 = scale_entry(c, r.m12);
        let m21 = scale_entry(c, r.m21);
        let m22 = scale_entry(c, r.m22);
        let limit = SCALE_MAX as i128;
        if m11 < -limit || m11 > limit || m12 < -limit || m12 > limit || m21 < -limit || m21
            > limit || m22 < -limit || m22 > limit {
            return Err(Error::InvalidAlignment);
        }
        let ss = self.sum();
        let ds = dst.sum();
        let t1 = shift(ds.0, m11, m12, ss.0, ss.1);
        let t2 = shift(ds.1, m21, m22, ss.0, ss.1);
        Ok(
            SimilarityTransform {
                m11: m11 as i64,
                m12: m12 as i64,
                m21: m21 as i64,
                m22: m22 as i64,
                t1,
                t2,
            },
        )
    }

    /// Solves as [`KeyPoints::umeyama`] does and returns the rotation, the
    /// scale and the translation apart: see [`solve_factors`]. Fails with
    /// [`Error::InvalidAlignment`] exactly where `umeyama` does.
    pub fn umeyama_v2(&self, dst: &KeyPoints, svd: &Svd2) -> (r: Result<
        (Mat2, i64, (i64, i64)),
        Error,
    >)
        requires
            self.wf(),
            dst.wf(),
        ensures
            r is Ok <==> solve_factors(self@, dst@, *svd) is Some,
            r matches Err(e) ==> e == Error::InvalidAlignment,
            r matches Ok(f) ==> (
                (f.0.m11 as int, f.0.m12 as int, f.0.m21 as int, f.0.m22 as int),
                f.1 as int,
                (f.2.0 as int, f.2.1 as int),
            ) == solve_factors(self@, dst@, *svd)->Some_0,
    {
        let t = match self.umeyama(dst, svd) {
            Ok(t) => t,
            Err(e) => { return Err(e); },
        };
        let d = self.reflection(dst);
        let spread = self.spread_sum();
        let c = svd.scale(d, spread);
        let r = svd.rotate(svd.sign(d));
        Ok((r, c as i64, (t.t1, t.t2)))
    }

    /// Solves for the transform that maps `self` onto the reference layout
    /// scaled to a square of `scale` pixels; `svd` decomposes the covariance
    /// of `self` against that layout. A `scale` beyond [`ARC_SCALE_MAX`] is
    /// [`Error::InvalidAlignment`].
    pub fn umeyama_to_arc(&self, scale: usize, svd: &Svd2) -> (r: Result<
        SimilarityTransform,
        Error,
    >)
        requires
            self.wf(),
        ensures
            r == if scale <= ARC_SCALE_MAX {
                solved(solve(self@, arc_face_scaled(scale as int), *svd))
            } else {
                Err(Error::InvalidAlignment)
            },
            r matches Ok(t) ==> t.wf(),
    {
        match KeyPoints::arc_face(scale) {
            Some(dst) => self.umeyama(&dst, svd),
            None => Err(Error::InvalidAlignment),
        }
    }
}

} // verus!
