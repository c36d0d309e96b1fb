//! Cutting a face out of an image: the plain rectangular crop, and the
//! aligned crop that samples the image through the inverse of a similarity
//! transform.

use crate::error::Error;
use crate::face::{
    box_ok, box_view, max_of, spec_box_size, spec_scaled_bbox, BBox, Face,
};
use crate::fixed::{floor_div, lemma_mul_bound, FRAC, PX};
use crate::grid::{grid_get, shape_fits, Grid};
use crate::keypoints::{arc_face_scaled, KeyPoints, ARC_SCALE_MAX};
use crate::tensor::{Tensor, TensorView};
use crate::umeyama::{solve, SimilarityTransform, Svd2};
use vstd::prelude::*;

verus! {

/// The size `(width, height)` in whole pixels of a crop of the box `b`, and
/// the box that the plain crop copies from. With a ratio the box is grown to
/// it; without one the box is taken as it is, its size held within the source
/// image.
pub open spec fn crop_plan(
    b: (int, int, int, int),
    src_dims: (nat, nat, nat, nat),
    ratio: Option<(int, int)>,
) -> ((int, int), (int, int, int, int)) {
    match ratio {
        Some(r) => spec_scaled_bbox(b, r.0, r.1),
        None => (spec_box_size(b, Some((src_dims.3 as int, src_dims.2 as int))), b),
    }
}

/// Whether a crop can be taken: the ratio, where given, has no zero part, the
/// output can be allocated and, unless it is empty, the source has a first
/// batch entry and three channels.
pub open spec fn croppable(
    b: (int, int, int, int),
    src_dims: (nat, nat, nat, nat),
    ratio: Option<(int, int)>,
) -> bool {
    let size = crop_plan(b, src_dims, ratio).0;
    &&& (ratio matches Some(r) ==> r.0 > 0 && r.1 > 0)
    &&& Tensor::shape_fits(1, 3, size.1 as nat, size.0 as nat)
    &&& (size.0 == 0 || size.1 == 0 || (src_dims.0 >= 1 && src_dims.1 >= 3))
}

/// The transform that an aligned crop of size `size` samples through: the one
/// that maps the keypoints `k` onto the reference layout scaled to the longer
/// side, given the decomposition `svd`. There is none where the side is
/// beyond [`ARC_SCALE_MAX`], where the solver finds none, or where the one it
/// finds is singular and so cannot be inverted.
pub open spec fn crop_transform(k: Seq<(int, int)>, size: (int, int), svd: Svd2) -> Option<
    SimilarityTransform,
> {
    let scale = max_of(size.0, size.1);
    if scale > ARC_SCALE_MAX {
        None
    } else {
        match solve(k, arc_face_scaled(scale), svd) {
            Some(t) => if t.spec_det() == 0 {
                None
            } else {
                Some(t)
            },
            None => None,
        }
    }
}

impl SimilarityTransform {
    /// The determinant of the scaled rotation, in squared [`FRAC`] units.
    pub open spec fn spec_det(&self) -> int {
        self.m11 * self.m22 - self.m12 * self.m21
    }

    /// The x coordinate of the point that the transform maps onto output pixel
    /// `(x, y)`, times the determinant and [`FRAC`].
    pub open spec fn source_num_x(&self, x: int, y: int) -> int {
        self.m22 * (x * PX - self.t1) - self.m12 * (y * PX - self.t2)
    }

    /// The y coordinate of that point, times the determinant and [`FRAC`].
    pub open spec fn source_num_y(&self, x: int, y: int) -> int {
        self.m11 * (y * PX - self.t2) - self.m21 * (x * PX - self.t1)
    }

    /// The column of the source pixel that holds the point mapped onto output
    /// pixel `(x, y)`: its x coordinate in pixels, rounded down.
    pub open spec fn source_col(&self, x: int, y: int) -> int {
        source_px(self.source_num_x(x, y), self.spec_det())
    }

    /// The row of that source pixel.
    pub open spec fn source_row(&self, x: int, y: int) -> int {
        source_px(self.source_num_y(x, y), self.spec_det())
    }

    /// The determinant of the scaled rotation. The transform can be inverted
    /// exactly when it is not zero.
    pub fn det(&self) -> (d: i128)
        requires
            self.wf(),
        ensures
            d == self.spec_det(),
            -0x80_0000_0000_0000_0000 <= d <= 0x80_0000_0000_0000_0000,
    {
        proof {
            lemma_mul_bound(self.m11 as int, self.m22 as int, 0x8_0000_0000, 0x8_0000_0000);
            lemma_mul_bound(self.m12 as int, self.m21 as int, 0x8_0000_0000, 0x8_0000_0000);
        }
        (self.m11 as i128) * (self.m22 as i128) - (self.m12 as i128) * (self.m21 as i128)
    }

    /// The source pixel `(column, row)` that holds the point mapped onto
    /// output pixel `(x, y)`.
    pub fn source_pixel(&self, x: usize, y: usize) -> (p: (i128, i128))
        requires
            self.wf(),
            self.spec_det() != 0,
            x <= ARC_SCALE_MAX,
            y <= ARC_SCALE_MAX,
        ensures
            p.0 == self.source_col(x as int, y as int),
            p.1 == self.source_row(x as int, y as int),
    {
        let det = self.det();
        let dx: i128 = (x as i128) * (PX as i128) - (self.t1 as i128);
        let dy: i128 = (y as i128) * (PX as i128) - (self.t2 as i128);
        proof {
            lemma_mul_bound(self.m22 as int, dx as int, 0x8_0000_0000, 0x2000_0000_0000);
            lemma_mul_bound(self.m12 as int, dy as int, 0x8_0000_0000, 0x2000_0000_0000);
            lemma_mul_bound(self.m11 as int, dy as int, 0x8_0000_0000, 0x2000_0000_0000);
            lemma_mul_bound(self.m21 as int, dx as int, 0x8_0000_0000, 0x2000_0000_0000);
        }
        let nx: i128 = (self.m22 as i128) * dx - (self.m12 as i128) * dy;
        let ny: i128 = (self.m11 as i128) * dy - (self.m21 as i128) * dx;
        (pixel_of(nx, det), pixel_of(ny, det))
    }
}

/// The whole pixel that holds the coordinate `num / det * FRAC`, given in
/// coordinate units: the quotient of `num * FRAC` by `det * PX`, rounded down.
pub open spec fn source_px(num: int, det: int) -> int {
    if det > 0 {
        (num * FRAC) / (det * PX)
    } else {
        ((-num) * FRAC) / ((-det) * PX)
    }
}

/// Through the identity transform, every output pixel reads the source pixel
/// of the same position.
pub proof fn lemma_identity_source(x: int, y: int)
    ensures
        SimilarityTransform::spec_identity().source_col(x, y) == x,
        SimilarityTransform::spec_identity().source_row(x, y) == y,
{
    let t = SimilarityTransform::spec_identity();
    assert(t.spec_det() == FRAC * FRAC) by (nonlinear_arith)
        requires
            t.spec_det() == FRAC * FRAC - 0 * 0,
    ;
    assert(t.source_num_x(x, y) == FRAC * (x * PX) && t.source_num_y(x, y) == FRAC * (y * PX))
        by (nonlinear_arith)
        requires
            t.source_num_x(x, y) == FRAC * (x * PX - 0) - 0 * (y * PX - 0),
            t.source_num_y(x, y) == FRAC * (y * PX - 0) - 0 * (x * PX - 0),
    ;
    lemma_whole_quotient(x, FRAC * FRAC * PX);
    lemma_whole_quotient(y, FRAC * FRAC * PX);
    assert((FRAC * (x * PX)) * FRAC == x * (FRAC * FRAC * PX) && (FRAC * (y * PX)) * FRAC == y * (
    FRAC * FRAC * PX) && (FRAC * FRAC) * PX == FRAC * FRAC * PX) by (nonlinear_arith);
}

/// A multiple of a positive number, divided by it, gives the factor back.
proof fn lemma_whole_quotient(a: int, d: int)
    requires
        d > 0,
    ensures
        (a * d) / d == a,
{
    vstd::arithmetic::div_mod::lemma_fundamental_div_mod_converse(a * d, d, a, 0);
}

/// An aligned crop whose transform is the identity is the plain crop taken at
/// the corner of the image: each of its pixels is the source pixel of the same
/// position, or the fill outside the source.
pub proof fn lemma_identity_alignment_is_plain_crop(src: TensorView, size: (int, int))
    ensures
        src.aligned(size, SimilarityTransform::spec_identity()) == src.cropped(size, (0, 0)),
{
    let a = src.aligned(size, SimilarityTransform::spec_identity());
    let p = src.cropped(size, (0, 0));
    assert forall|k: (int, int, int, int)| a.samples.dom().contains(k) implies #[trigger] a.samples[k]
        == p.samples[k] by {
        lemma_identity_source(k.3, k.2);
        lemma_whole_quotient(k.3, PX as int);
        lemma_whole_quotient(k.2, PX as int);
        assert(0 <= k.3 * PX <==> 0 <= k.3) by (nonlinear_arith);
        assert(0 <= k.2 * PX <==> 0 <= k.2) by (nonlinear_arith);
    }
    assert(a.samples =~= p.samples);
}

/// The aligned crop of a face whose keypoints lie exactly on the reference
/// layout, scaled to the crop, is the plain crop taken at the corner of the
/// image. As for [`crate::umeyama::lemma_umeyama_of_self_is_identity`], this
/// is stated of every decomposition that is exact for the layout's own
/// covariance.
pub proof fn lemma_aligned_crop_on_reference(
    b: (int, int, int, int),
    src: TensorView,
    ratio: Option<(int, int)>,
    svd: Svd2,
)
    requires
        croppable(b, src.dim, ratio),
        max_of(crop_plan(b, src.dim, ratio).0.0, crop_plan(b, src.dim, ratio).0.1) <= ARC_SCALE_MAX,
        ({
            let size = crop_plan(b, src.dim, ratio).0;
            let k = arc_face_scaled(max_of(size.0, size.1));
            &&& crate::keypoints::spread(k) > 0
            &&& svd.spec_rank() > 0
            &&& svd.rotation(svd.rotation_sign(1)) == (FRAC as int, 0int, 0int, FRAC as int)
            &&& (svd.singular.0 + svd.singular.1) * 125 == crate::keypoints::spread(k)
        }),
    ensures
        ({
            let size = crop_plan(b, src.dim, ratio).0;
            let k = arc_face_scaled(max_of(size.0, size.1));
            spec_crop_aligned(b, k, src, ratio, svd) == Ok::<TensorView, Error>(
                src.cropped(size, (0, 0)),
            )
        }),
{
    let size = crop_plan(b, src.dim, ratio).0;
    let k = arc_face_scaled(max_of(size.0, size.1));
    crate::umeyama::lemma_umeyama_of_self_is_identity(k, svd);
    assert(SimilarityTransform::spec_identity().spec_det() == FRAC * FRAC) by (nonlinear_arith)
        requires
            SimilarityTransform::spec_identity().spec_det() == FRAC * FRAC - 0 * 0,
    ;
    assert(FRAC * FRAC != 0) by (nonlinear_arith);
    lemma_identity_alignment_is_plain_crop(src, size);
}

/// The whole pixel that holds a source coordinate.
fn pixel_of(num: i128, det: i128) -> (p: i128)
    requires
        det != 0,
        -0x80_0000_0000_0000_0000 <= det <= 0x80_0000_0000_0000_0000,
        -0x4_0000_0000_0000_0000_0000 <= num <= 0x4_0000_0000_0000_0000_0000,
    ensures
        p == source_px(num as int, det as int),
{
    let n: i128 = if det > 0 { num } else { -num };
    let d: i128 = if det > 0 { det } else { -det };
    proof {
        lemma_mul_bound(n as int, FRAC as int, 0x4_0000_0000_0000_0000_0000, FRAC as int);
        lemma_mul_bound(d as int, PX as int, 0x80_0000_0000_0000_0000, PX as int);
        assert(d * PX > 0) by (nonlinear_arith)
            requires
                d > 0,
                PX > 0,
        ;
    }
    floor_div(n * (FRAC as i128), d * (PX as i128))
}

impl TensorView {
    /// The sample of channel `c` at pixel `(x, y)` of a plain crop whose
    /// corner lies at `origin` in this tensor: the sample of the pixel that
    /// holds `origin + (x, y)`, or the encoding's fill where that point lies
    /// outside the tensor.
    pub open spec fn cropped_at(self, origin: (int, int), c: int, y: int, x: int) -> int {
        let sx = origin.0 + x * PX;
        let sy = origin.1 + y * PX;
        if 0 <= sx && sx / (PX as int) < self.dim.3 && 0 <= sy && sy / (PX as int) < self.dim.2 {
            self.at(0, c, sy / (PX as int), sx / (PX as int))
        } else {
            self.normal.spec_fill()
        }
    }

    /// The plain crop of `size` (width, height) whose corner lies at `origin`:
    /// one image of three channels, each sample [`TensorView::cropped_at`].
    pub open spec fn cropped(self, size: (int, int), origin: (int, int)) -> TensorView {
        TensorView::tabulated(
            self.normal,
            (1, 3, size.1 as nat, size.0 as nat),
            |n: int, c: int, y: int, x: int| self.cropped_at(origin, c, y, x),
        )
    }

    /// The sample of channel `c` at pixel `(x, y)` of a crop aligned by `t`:
    /// the sample of the pixel that holds the point which `t` maps onto
    /// `(x, y)`, or the encoding's fill where that point lies outside the
    /// tensor.
    pub open spec fn aligned_at(self, t: SimilarityTransform, c: int, y: int, x: int) -> int {
        let col = t.source_col(x, y);
        let row = t.source_row(x, y);
        if 0 <= col < self.dim.3 && 0 <= row < self.dim.2 {
            self.at(0, c, row, col)
        } else {
            self.normal.spec_fill()
        }
    }

    /// The crop of `size` (width, height) aligned by `t`: one image of three
    /// channels, each sample [`TensorView::aligned_at`].
    pub open spec fn aligned(self, size: (int, int), t: SimilarityTransform) -> TensorView {
        TensorView::tabulated(
            self.normal,
            (1, 3, size.1 as nat, size.0 as nat),
            |n: int, c: int, y: int, x: int| self.aligned_at(t, c, y, x),
        )
    }
}

/// What a plain crop of the box `b` from `src` returns: the crop that
/// [`crop_plan`] lays out, or [`Error::ShapeMismatch`] when the crop is not
/// [`croppable`].
pub open spec fn spec_crop(b: (int, int, int, int), src: TensorView, ratio: Option<(int, int)>)
    -> Result<TensorView, Error> {
    let plan = crop_plan(b, src.dim, ratio);
    if croppable(b, src.dim, ratio) {
        Ok(src.cropped(plan.0, (plan.1.0, plan.1.1)))
    } else {
        Err(Error::ShapeMismatch)
    }
}

/// The size of an aligned crop and the transform it samples through:
/// [`Error::ShapeMismatch`] when the crop is not [`croppable`], and otherwise
/// [`Error::InvalidAlignment`] when [`crop_transform`] has no transform.
pub open spec fn spec_alignment(
    b: (int, int, int, int),
    k: Seq<(int, int)>,
    src_dims: (nat, nat, nat, nat),
    ratio: Option<(int, int)>,
    svd: Svd2,
) -> Result<((int, int), SimilarityTransform), Error> {
    let size = crop_plan(b, src_dims, ratio).0;
    if !croppable(b, src_dims, ratio) {
        Err(Error::ShapeMismatch)
    } else {
        match crop_transform(k, size, svd) {
            Some(t) => Ok((size, t)),
            None => Err(Error::InvalidAlignment),
        }
    }
}

/// What an aligned crop returns: the source sampled through the transform of
/// [`spec_alignment`], or its error.
pub open spec fn spec_crop_aligned(
    b: (int, int, int, int),
    k: Seq<(int, int)>,
    src: TensorView,
    ratio: Option<(int, int)>,
    svd: Svd2,
) -> Result<TensorView, Error> {
    match spec_alignment(b, k, src.dim, ratio, svd) {
        Ok(a) => Ok(src.aligned(a.0, a.1)),
        Err(e) => Err(e),
    }
}

/// The layout that an aligned crop brings the keypoints onto: the reference
/// layout scaled to the longer side of the crop. [`Error::ShapeMismatch`] when
/// the crop is not [`croppable`], [`Error::InvalidAlignment`] when the longer
/// side is beyond [`ARC_SCALE_MAX`].
pub open spec fn spec_alignment_target(
    b: (int, int, int, int),
    src_dims: (nat, nat, nat, nat),
    ratio: Option<(int, int)>,
) -> Result<Seq<(int, int)>, Error> {
    let size = crop_plan(b, src_dims, ratio).0;
    let scale = max_of(size.0, size.1);
    if !croppable(b, src_dims, ratio) {
        Err(Error::ShapeMismatch)
    } else if scale > ARC_SCALE_MAX {
        Err(Error::InvalidAlignment)
    } else {
        Ok(arc_face_scaled(scale))
    }
}

impl Tensor {
    /// One sample of the plain crop whose corner lies at `origin`: that of
    /// channel `c` at pixel `(x, y)`. The samples do not depend on one another.
    pub fn sample_plain(&self, origin: (i64, i64), c: usize, y: usize, x: usize) -> (v: i32)
        requires
            self.dims().0 >= 1,
            self.dims().1 >= 3,
            c < 3,
        ensures
            v == self@.cropped_at((origin.0 as int, origin.1 as int), c as int, y as int, x as int),
    {
        let d = self.dim();
        let sx: i128 = (origin.0 as i128) + (x as i128) * (PX as i128);
        let sy: i128 = (origin.1 as i128) + (y as i128) * (PX as i128);
        if sx < 0 || sy < 0 {
            return self.normal.fill();
        }
        let col: i128 = sx / (PX as i128);
        let row: i128 = sy / (PX as i128);
        if col < d.3 as i128 && row < d.2 as i128 {
            grid_get(&self.data, 0, c, row as usize, col as usize)
        } else {
            self.normal.fill()
        }
    }

    /// One sample of the crop aligned by `t`: that of channel `c` at pixel
    /// `(x, y)`. The samples do not depend on one another.
    pub fn sample_aligned(&self, t: &SimilarityTransform, c: usize, y: usize, x: usize) -> (v: i32)
        requires
            self.dims().0 >= 1,
            self.dims().1 >= 3,
            c < 3,
            t.wf(),
            t.spec_det() != 0,
            x <= ARC_SCALE_MAX,
            y <= ARC_SCALE_MAX,
        ensures
            v == self@.aligned_at(*t, c as int, y as int, x as int),
    {
        let d = self.dim();
        let (col, row) = t.source_pixel(x, y);
        if 0 <= col && col < d.3 as i128 && 0 <= row && row < d.2 as i128 {
            grid_get(&self.data, 0, c, row as usize, col as usize)
        } else {
            self.normal.fill()
        }
    }
}

impl Face {
    /// The size `(width, height)` of a crop of this face and the box that the
    /// plain crop copies from, or `None` when the crop is not [`croppable`].
    pub fn plan(&self, src: &Tensor, dim_ratio: Option<(u16, u16)>) -> (r: Option<
        ((usize, usize), BBox),
    >)
        requires
            box_ok(box_view(self.bbox)),
        ensures
            r is Some <==> croppable(box_view(self.bbox), src.dims(), ratio_view(dim_ratio)),
            r matches Some(p) ==> ((p.0.0 as int, p.0.1 as int), box_view(p.1)) == crop_plan(
                box_view(self.bbox),
                src.dims(),
                ratio_view(dim_ratio),
            ),
    {
        let d = src.dim();
        let (size, bbox) = match dim_ratio {
            Some(r) => {
                if r.0 == 0 || r.1 == 0 {
                    return None;
                }
                self.get_scaled_bbox(r)
            },
            None => (self.box_size(Some((d.3, d.2))), self.bbox),
        };
        if !shape_fits(1, 3, size.1, size.0) {
            return None;
        }
        if size.0 != 0 && size.1 != 0 && !(d.0 >= 1 && d.1 >= 3) {
            return None;
        }
        Some((size, bbox))
    }

    /// The plain crop of the face from `src`: for every output pixel the
    /// source pixel at the box's corner plus the pixel's offset is copied, and
    /// the encoding's fill is written where that lies outside `src`.
    ///
    /// The result is [`spec_crop`]: one image of three channels of the size
    /// that [`crop_plan`] gives, or [`Error::ShapeMismatch`] exactly when the
    /// crop is not [`croppable`].
    pub fn crop(&self, src: &Tensor, dim_ratio: Option<(u16, u16)>) -> (r: Result<Tensor, Error>)
        requires
            box_ok(box_view(self.bbox)),
        ensures
            result_view(r) == spec_crop(box_view(self.bbox), src@, ratio_view(dim_ratio)),
    {
        let (size, bbox) = match self.plan(src, dim_ratio) {
            Some(p) => p,
            None => { return Err(Error::ShapeMismatch); },
        };
        let origin = (bbox.0, bbox.1);
        let ghost goal = |n: int, c: int, y: int, x: int|
            src@.cropped_at((origin.0 as int, origin.1 as int), c, y, x);
        let f = |n: usize, c: usize, y: usize, x: usize| -> (v: i32)
            requires
                n < 1 && c < 3 && y < size.1 && x < size.0,
            ensures
                v == goal(n as int, c as int, y as int, x as int),
            { src.sample_plain(origin, c, y, x) };
        let data = Grid::tabulate(1, 3, size.1, size.0, f);
        let t = Tensor { normal: src.normal, data };
        proof {
            assert forall|n: int, c: int, y: int, x: int| t.has(n, c, y, x) implies #[trigger] t.at(
                n,
                c,
                y,
                x,
            ) == goal(n, c, y, x) by {
                assert(call_ensures(
                    f,
                    (n as usize, c as usize, y as usize, x as usize),
                    t.data.at(
                        n as usize as int,
                        c as usize as int,
                        y as usize as int,
                        x as usize as int,
                    ),
                ));
            }
            t.lemma_tabulated(goal);
        }
        Ok(t)
    }

    /// The keypoint layout that an aligned crop of this face brings the
    /// face's keypoints onto: the reference layout scaled to the longer side
    /// of the crop. The decomposition handed to [`Face::crop_aligned`] is that
    /// of the covariance of the face's keypoints against this layout.
    pub fn alignment_target(&self, src: &Tensor, dim_ratio: Option<(u16, u16)>) -> (r: Result<
        KeyPoints,
        Error,
    >)
        requires
            box_ok(box_view(self.bbox)),
        ensures
            points_result(r) == spec_alignment_target(
                box_view(self.bbox),
                src.dims(),
                ratio_view(dim_ratio),
            ),
            r matches Ok(k) ==> k.wf(),
    {
        let (size, _) = match self.plan(src, dim_ratio) {
            Some(p) => p,
            None => { return Err(Error::ShapeMismatch); },
        };
        let scale = if size.0 >= size.1 { size.0 } else { size.1 };
        match KeyPoints::arc_face(scale) {
            Some(k) => Ok(k),
            None => Err(Error::InvalidAlignment),
        }
    }

    /// The size `(width, height)` of the aligned crop of this face and the
    /// transform that the crop samples through, which maps the face's
    /// keypoints onto the reference layout scaled to the crop.
    ///
    /// `svd` is the decomposition, computed by the caller, of the covariance
    /// of the face's keypoints against [`Face::alignment_target`]. The result
    /// is [`spec_alignment`], so it fails with [`Error::ShapeMismatch`]
    /// exactly when the crop is not [`croppable`], and otherwise with
    /// [`Error::InvalidAlignment`] exactly when no transform exists or the one
    /// found cannot be inverted.
    pub fn alignment(&self, src: &Tensor, dim_ratio: Option<(u16, u16)>, svd: &Svd2) -> (r: Result<
        ((usize, usize), SimilarityTransform),
        Error,
    >)
        requires
            self.wf(),
        ensures
            alignment_view(r) == spec_alignment(
                box_view(self.bbox),
                self.keypoints@,
                src.dims(),
                ratio_view(dim_ratio),
                *svd,
            ),
            r matches Ok(a) ==> a.1.wf() && a.1.spec_det() != 0 && a.0.0 <= ARC_SCALE_MAX && a.0.1
                <= ARC_SCALE_MAX && Tensor::shape_fits(1, 3, a.0.1 as nat, a.0.0 as nat) && (a.0.0
                == 0 || a.0.1 == 0 || (src.dims().0 >= 1 && src.dims().1 >= 3)),
    {
        let (size, _) = match self.plan(src, dim_ratio) {
            Some(p) => p,
            None => { return Err(Error::ShapeMismatch); },
        };
        let scale = if size.0 >= size.1 { size.0 } else { size.1 };
        let warp = match self.keypoints.umeyama_to_arc(scale, svd) {
            Ok(t) => t,
            Err(_) => { return Err(Error::InvalidAlignment); },
        };
        if warp.det() == 0 {
            return Err(Error::InvalidAlignment);
        }
        Ok((size, warp))
    }

    /// The aligned crop of the face from `src`: the face's keypoints are
    /// brought onto the reference layout scaled to the crop, and every output
    /// pixel is read from `src` through the inverse of that transform, with
    /// the encoding's fill where it lands outside `src`.
    ///
    /// `svd` is the decomposition, computed by the caller, of the covariance
    /// of the face's keypoints against [`Face::alignment_target`]. The result
    /// is [`spec_crop_aligned`]: it fails as [`Face::alignment`] does.
    pub fn crop_aligned(&self, src: &Tensor, dim_ratio: Option<(u16, u16)>, svd: &Svd2) -> (r:
        Result<Tensor, Error>)
        requires
            self.wf(),
        ensures
            result_view(r) == spec_crop_aligned(
                box_view(self.bbox),
                self.keypoints@,
                src@,
                ratio_view(dim_ratio),
                *svd,
            ),
    {
        let (size, warp) = match self.alignment(src, dim_ratio, svd) {
            Ok(a) => a,
            Err(e) => { return Err(e); },
        };
        let ghost goal = |n: int, c: int, y: int, x: int| src@.aligned_at(warp, c, y, x);
        let f = |n: usize, c: usize, y: usize, x: usize| -> (v: i32)
            requires
                n < 1 && c < 3 && y < size.1 && x < size.0,
            ensures
                v == goal(n as int, c as int, y as int, x as int),
            { src.sample_aligned(&warp, c, y, x) };
        let data = Grid::tabulate(1, 3, size.1, size.0, f);
        let t = Tensor { normal: src.normal, data };
        proof {
            assert forall|n: int, c: int, y: int, x: int| t.has(n, c, y, x) implies #[trigger] t.at(
                n,
                c,
                y,
                x,
            ) == goal(n, c, y, x) by {
                assert(call_ensures(
                    f,
                    (n as usize, c as usize, y as usize, x as usize),
                    t.data.at(
                        n as usize as int,
                        c as usize as int,
                        y as usize as int,
                        x as usize as int,
                    ),
                ));
            }
            t.lemma_tabulated(goal);
        }
        Ok(t)
    }
}

/// A result with its tensor taken by its view.
pub open spec fn result_view(r: Result<Tensor, Error>) -> Result<TensorView, Error> {
    match r {
        Ok(t) => Ok(t@),
        Err(e) => Err(e),
    }
}

/// A result with its keypoints taken by their view.
pub open spec fn points_result(r: Result<KeyPoints, Error>) -> Result<Seq<(int, int)>, Error> {
    match r {
        Ok(k) => Ok(k@),
        Err(e) => Err(e),
    }
}

/// A result with its size taken as mathematical integers.
pub open spec fn alignment_view(r: Result<((usize, usize), SimilarityTransform), Error>) -> Result<
    ((int, int), SimilarityTransform),
    Error,
> {
    match r {
        Ok(a) => Ok(((a.0.0 as int, a.0.1 as int), a.1)),
        Err(e) => Err(e),
    }
}

/// An aspect ratio as mathematical integers.
pub open spec fn ratio_view(r: Option<(u16, u16)>) -> Option<(int, int)> {
    match r {
        Some(p) => Some((p.0 as int, p.1 as int)),
        None => None,
    }
}

} // verus!
