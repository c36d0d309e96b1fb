use noface::error::Error;
use noface::face::Face;
use noface::fixed::{FRAC, PX, UNIT};
use noface::keypoints::{KeyPoints, Mat2};
use noface::tensor::{Normal, Tensor};
use noface::umeyama::{Rot2, SimilarityTransform, Svd2};

fn rot(m: &nalgebra::Matrix2<f64>) -> Rot2 {
    let f = FRAC as f64;
    Rot2 {
        m11: (m[(0, 0)] * f).round() as i32,
        m12: (m[(0, 1)] * f).round() as i32,
        m21: (m[(1, 0)] * f).round() as i32,
        m22: (m[(1, 1)] * f).round() as i32,
    }
}

fn svd_of(m: &Mat2) -> Svd2 {
    let a = nalgebra::Matrix2::<f64>::new(
        m.m11 as f64 / 125.0,
        m.m12 as f64 / 125.0,
        m.m21 as f64 / 125.0,
        m.m22 as f64 / 125.0,
    );
    let svd = a.svd(true, true);
    Svd2 {
        u: rot(&svd.u.unwrap()),
        singular: (
            svd.singular_values[0].round() as i64,
            svd.singular_values[1].round() as i64,
        ),
        v_t: rot(&svd.v_t.unwrap()),
    }
}

/// An image whose sample at channel `c`, row `y`, column `x` is
/// `c * 10 000 + y * 100 + x`.
fn numbered(normal: Normal, h: usize, w: usize) -> Tensor {
    let mut samples = Vec::new();
    for c in 0..3 {
        for y in 0..h {
            for x in 0..w {
                samples.push((c * 10_000 + y * 100 + x) as i32);
            }
        }
    }
    Tensor::from_samples(normal, (1, 3, h, w), &samples).unwrap()
}

fn boxed(x_min: i64, y_min: i64, x_max: i64, y_max: i64) -> Face {
    Face { score: 0, keypoints: KeyPoints([(0, 0); 5]), bbox: (x_min, y_min, x_max, y_max) }
}

#[test]
fn crop_copies_the_box() {
    let src = numbered(Normal::U8, 4, 5);
    let f = boxed(PX, 2 * PX, 3 * PX, 4 * PX);
    let t = f.crop(&src, None).unwrap();
    assert_eq!(t.dim(), (1, 3, 2, 2));
    assert_eq!(t.normal, Normal::U8);
    assert_eq!(
        t.to_samples(),
        vec![201, 202, 301, 302, 10_201, 10_202, 10_301, 10_302, 20_201, 20_202, 20_301, 20_302]
    );
}

#[test]
fn crop_reads_the_pixel_that_holds_the_position() {
    let src = numbered(Normal::U8, 4, 5);
    let f = boxed(PX + 9_999, 1, 3 * PX + 9_999, PX + 1);
    let t = f.crop(&src, None).unwrap();
    assert_eq!(t.dim(), (1, 3, 1, 2));
    assert_eq!(t.get(0, 0, 0, 0), Some(1));
    assert_eq!(t.get(0, 0, 0, 1), Some(2));
}

#[test]
fn crop_fills_outside_the_source() {
    for (normal, fill) in [(Normal::U8, 0), (Normal::ZeroToP1, 0), (Normal::N1ToP1, -UNIT)] {
        let src = numbered(normal, 2, 2);
        let f = boxed(-PX, -PX, 2 * PX, PX);
        // The size is counted from zero, the positions from the box's corner.
        let t = f.crop(&src, None).unwrap();
        assert_eq!(t.dim(), (1, 3, 1, 2));
        assert_eq!(t.normal, normal);
        assert_eq!(t.get(0, 0, 0, 0), Some(fill));
        assert_eq!(t.get(0, 0, 0, 1), Some(fill));
        let g = boxed(PX, PX, 2 * PX, 2 * PX);
        let t = g.crop(&src, Some((3, 1))).unwrap();
        // One pixel high, grown to three wide about the centre: columns 0 to 2.
        assert_eq!(t.dim(), (1, 3, 1, 3));
        assert_eq!(t.to_samples()[0..3], [100, 101, fill]);
    }
}

#[test]
fn crop_with_a_ratio_takes_the_grown_box() {
    let src = numbered(Normal::U8, 8, 8);
    let f = boxed(2 * PX, 3 * PX, 4 * PX, 7 * PX);
    assert_eq!(f.get_scaled_bbox((1, 1)), ((4, 4), (PX, 3 * PX, 5 * PX, 7 * PX)));
    let t = f.crop(&src, Some((1, 1))).unwrap();
    assert_eq!(t.dim(), (1, 3, 4, 4));
    assert_eq!(t.get(0, 0, 0, 0), Some(301));
    assert_eq!(t.get(0, 0, 3, 3), Some(604));
    assert_eq!(t.get(0, 2, 1, 2), Some(20_403));
}

#[test]
fn crop_refuses_what_it_cannot_take() {
    let src = numbered(Normal::U8, 4, 4);
    let f = boxed(0, 0, 2 * PX, 2 * PX);
    assert!(matches!(f.crop(&src, Some((0, 1))), Err(Error::ShapeMismatch)));
    assert!(matches!(f.crop(&src, Some((1, 0))), Err(Error::ShapeMismatch)));
    let two_channels = Tensor::zeros(Normal::U8, 1, 2, 4, 4).unwrap();
    assert!(matches!(f.crop(&two_channels, None), Err(Error::ShapeMismatch)));
    assert!(matches!(f.crop(&two_channels, Some((1, 1))), Err(Error::ShapeMismatch)));
    // Nothing is read for an empty crop.
    let empty = boxed(5 * PX, 5 * PX, 0, 0);
    let t = empty.crop(&two_channels, None).unwrap();
    assert_eq!(t.dim(), (1, 3, 0, 0));
}

#[test]
fn source_pixel_inverts_the_transform() {
    let id = SimilarityTransform::identity();
    assert_eq!(id.source_pixel(0, 0), (0, 0));
    assert_eq!(id.source_pixel(7, 3), (7, 3));
    let shifted = SimilarityTransform { t1: 2 * PX, t2: -3 * PX, ..id };
    assert_eq!(shifted.source_pixel(7, 3), (5, 6));
    assert_eq!(shifted.source_pixel(0, 0), (-2, 3));
    let doubled = SimilarityTransform { m11: 2 * FRAC, m22: 2 * FRAC, ..id };
    assert_eq!(doubled.source_pixel(7, 3), (3, 1));
    let turned = SimilarityTransform { m11: 0, m12: -FRAC, m21: FRAC, m22: 0, t1: 0, t2: 0 };
    // (x, y) -> (-y, x): output (0, 5) comes from source (5, 0).
    assert_eq!(turned.source_pixel(0, 5), (5, 0));
    assert_eq!(turned.source_pixel(3, 5), (5, -3));
    let mirrored = SimilarityTransform { m11: -FRAC, ..id };
    assert_eq!(mirrored.source_pixel(2, 1), (-2, 1));
    let half_shift = SimilarityTransform { t1: PX / 2, ..id };
    assert_eq!(half_shift.source_pixel(0, 0), (-1, 0));
    assert_eq!(half_shift.source_pixel(1, 0), (0, 0));
}

#[test]
fn target_pixel_applies_the_transform() {
    let id = SimilarityTransform::identity();
    assert_eq!(id.target_pixel(7, 3), (7, 3));
    let shifted = SimilarityTransform { t1: 2 * PX, t2: -3 * PX, ..id };
    assert_eq!(shifted.target_pixel(5, 6), (7, 3));
    let doubled = SimilarityTransform { m11: 2 * FRAC, m22: 2 * FRAC, ..id };
    assert_eq!(doubled.target_pixel(3, 1), (6, 2));
    let halved = SimilarityTransform { m11: FRAC / 2, m22: FRAC / 2, ..id };
    assert_eq!(halved.target_pixel(3, 1), (1, 0));
    let turned = SimilarityTransform { m11: 0, m12: -FRAC, m21: FRAC, m22: 0, t1: 0, t2: 0 };
    assert_eq!(turned.target_pixel(5, 0), (0, 5));
    assert_eq!(turned.target_pixel(5, 3), (-3, 5));
}

fn template_face(size: i64) -> Face {
    Face {
        score: 0,
        keypoints: KeyPoints::arc_face(size as usize).unwrap(),
        bbox: (0, 0, size * PX, size * PX),
    }
}

#[test]
fn alignment_target_is_the_reference_scaled_to_the_crop() {
    let src = numbered(Normal::U8, 64, 48);
    let f = template_face(112);
    // Held within the source: 48 wide, 64 high; the longer side counts.
    let k = f.alignment_target(&src, None).unwrap();
    assert_eq!(k.0, KeyPoints::arc_face(64).unwrap().0);
    let k = f.alignment_target(&src, Some((2, 1))).unwrap();
    assert_eq!(k.0, KeyPoints::arc_face(224).unwrap().0);
    assert!(matches!(f.alignment_target(&src, Some((0, 1))), Err(Error::ShapeMismatch)));
    // A box 8 000 pixels high at two to one is 16 000 wide: the largest crop
    // that is aligned.
    let huge = Face { bbox: (0, 0, 8_000 * PX, 8_000 * PX), ..f };
    assert!(huge.is_valid());
    let whole = Tensor::zeros(Normal::U8, 1, 3, 1, 1).unwrap();
    let k = huge.alignment_target(&whole, Some((2, 1))).unwrap();
    assert_eq!(k.0, KeyPoints::arc_face(16_000).unwrap().0);
    let huge = Face { bbox: (0, 0, 8_000 * PX, 8_000 * PX + PX / 2), ..f };
    assert!(matches!(
        huge.alignment_target(&whole, Some((2, 1))),
        Err(Error::InvalidAlignment)
    ));
}

#[test]
fn aligned_crop_of_a_face_on_the_reference_is_a_direct_crop() {
    let src = numbered(Normal::N1ToP1, 96, 96);
    let f = template_face(96);
    let target = f.alignment_target(&src, None).unwrap();
    let svd = svd_of(&f.keypoints.covariance_matrix(&target));
    let (size, warp) = f.alignment(&src, None, &svd).unwrap();
    assert_eq!(size, (96, 96));
    assert!((warp.m11 - FRAC).abs() <= 20 && (warp.m22 - FRAC).abs() <= 20, "{:?}", warp);
    assert!(warp.m12.abs() <= 20 && warp.m21.abs() <= 20, "{:?}", warp);
    assert!(warp.t1.abs() <= 50 && warp.t2.abs() <= 50, "{:?}", warp);
    let t = f.crop_aligned(&src, None, &svd).unwrap();
    assert_eq!(t.dim(), (1, 3, 96, 96));
    assert_eq!(t.normal, Normal::N1ToP1);
    let plain = f.crop(&src, None).unwrap();
    assert_eq!(plain.dim(), t.dim());
    // Each pixel is the one of the same position, or its neighbour where the
    // rounding of the decomposition moves the position across a pixel's edge.
    for c in 0..3 {
        for y in 1..96 {
            for x in 1..96 {
                let got = t.get(0, c, y, x).unwrap();
                let want = plain.get(0, c, y, x).unwrap();
                assert!((got - want).abs() <= 101, "{} {} {}: {} {}", c, y, x, got, want);
            }
        }
    }
}

#[test]
fn aligned_crop_samples_through_the_inverse() {
    let src = numbered(Normal::U8, 64, 64);
    // The face is the reference layout of a 32-pixel square, moved by (8, 16)
    // pixels; the crop is 32 pixels too, so the transform is that shift back.
    let k = KeyPoints::arc_face(32).unwrap();
    let mut moved = [(0i64, 0i64); 5];
    for i in 0..5 {
        moved[i] = (k.0[i].0 + 8 * PX, k.0[i].1 + 16 * PX);
    }
    let f = Face { score: 0, keypoints: KeyPoints(moved), bbox: (0, 0, 32 * PX, 32 * PX) };
    let target = f.alignment_target(&src, None).unwrap();
    assert_eq!(target.0, k.0);
    let svd = svd_of(&f.keypoints.covariance_matrix(&target));
    let (size, warp) = f.alignment(&src, None, &svd).unwrap();
    assert_eq!(size, (32, 32));
    assert!((warp.t1 + 8 * PX).abs() <= 50 && (warp.t2 + 16 * PX).abs() <= 50, "{:?}", warp);
    let t = f.crop_aligned(&src, None, &svd).unwrap();
    for y in 1..32 {
        for x in 1..32 {
            let got = t.get(0, 1, y, x).unwrap();
            let want = (10_000 + (y + 16) * 100 + x + 8) as i32;
            assert!((got - want).abs() <= 101, "{} {}: {} {}", y, x, got, want);
        }
    }
}

#[test]
fn aligned_crop_with_exact_factors_is_exact() {
    let src = numbered(Normal::N1ToP1, 8, 8);
    let f = FRAC as i32;
    let one = Rot2 { m11: f, m12: 0, m21: 0, m22: f };
    // The same face, handed a decomposition that makes the solver answer with
    // a doubling: the crop shows the source at twice its size.
    let k = KeyPoints::arc_face(4).unwrap();
    let face = Face { score: 0, keypoints: k, bbox: (0, 0, 4 * PX, 4 * PX) };
    let spread = k.spread_sum();
    let s = (2 * spread / 125 / 2) as i64;
    let svd = Svd2 { u: one, singular: (s, s), v_t: one };
    let (size, warp) = face.alignment(&src, None, &svd).unwrap();
    assert_eq!(size, (4, 4));
    let t = face.crop_aligned(&src, None, &svd).unwrap();
    for c in 0..3 {
        for y in 0..4 {
            for x in 0..4 {
                let (col, row) = warp.source_pixel(x, y);
                let want = if 0 <= col && col < 8 && 0 <= row && row < 8 {
                    src.get(0, c, row as usize, col as usize).unwrap()
                } else {
                    -UNIT
                };
                assert_eq!(t.get(0, c, y, x), Some(want));
            }
        }
    }
}

#[test]
fn aligned_crop_refuses_a_degenerate_alignment() {
    let src = numbered(Normal::U8, 8, 8);
    let f = template_face(8);
    let one = Rot2 { m11: FRAC as i32, m12: 0, m21: 0, m22: FRAC as i32 };
    let rank_zero = Svd2 { u: one, singular: (0, 0), v_t: one };
    assert!(matches!(f.crop_aligned(&src, None, &rank_zero), Err(Error::InvalidAlignment)));
    assert!(matches!(f.alignment(&src, None, &rank_zero), Err(Error::InvalidAlignment)));
    // A transform of determinant zero cannot be inverted.
    let flat = Rot2 { m11: FRAC as i32, m12: 0, m21: 0, m22: 0 };
    let singular = Svd2 { u: flat, singular: (80_000_000, 80_000_000), v_t: one };
    assert!(matches!(f.crop_aligned(&src, None, &singular), Err(Error::InvalidAlignment)));
    // The shape is looked at first.
    assert!(matches!(
        f.crop_aligned(&src, Some((0, 0)), &rank_zero),
        Err(Error::ShapeMismatch)
    ));
    let two_channels = Tensor::zeros(Normal::U8, 1, 2, 8, 8).unwrap();
    assert!(matches!(
        f.crop_aligned(&two_channels, None, &rank_zero),
        Err(Error::ShapeMismatch)
    ));
}

#[test]
fn composite_puts_the_patch_where_the_transform_maps() {
    let frame = numbered(Normal::U8, 6, 6);
    let mut patch = Tensor::zeros(Normal::U8, 1, 3, 2, 2).unwrap();
    for c in 0..3 {
        for y in 0..2 {
            for x in 0..2 {
                assert!(patch.set(0, c, y, x, -((c * 100 + y * 10 + x) as i32) - 1));
            }
        }
    }
    // The patch was cut from the frame at (3, 1): frame = patch + (3, 1).
    let warp = SimilarityTransform { t1: -3 * PX, t2: -PX, ..SimilarityTransform::identity() };
    let out = frame.composite(&patch, &warp);
    assert_eq!(out.dim(), frame.dim());
    assert_eq!(out.normal, frame.normal);
    for c in 0..3usize {
        for y in 0..6usize {
            for x in 0..6usize {
                let inside = (3..5).contains(&x) && (1..3).contains(&y);
                let want = if inside {
                    -((c * 100 + (y - 1) * 10 + (x - 3)) as i32) - 1
                } else {
                    (c * 10_000 + y * 100 + x) as i32
                };
                assert_eq!(out.get(0, c, y, x), Some(want), "{} {} {}", c, y, x);
            }
        }
    }
}

#[test]
fn composite_through_a_doubling_covers_half_the_patch_size() {
    let frame = Tensor::zeros(Normal::U8, 1, 3, 4, 4).unwrap();
    let patch = numbered(Normal::U8, 4, 4);
    let id = SimilarityTransform::identity();
    let warp = SimilarityTransform { m11: 2 * FRAC, m22: 2 * FRAC, ..id };
    let out = frame.composite(&patch, &warp);
    assert_eq!(
        out.to_samples()[0..16],
        [0, 2, 0, 0, 200, 202, 0, 0, 0, 0, 0, 0, 0, 0, 0, 0]
    );
}

#[test]
fn composite_keeps_the_channels_the_patch_lacks() {
    let samples: Vec<i32> = (1..=8).collect();
    let frame = Tensor::from_samples(Normal::U8, (2, 4, 1, 1), &samples).unwrap();
    let patch = Tensor::from_samples(Normal::U8, (1, 3, 1, 1), &[-1, -2, -3]).unwrap();
    let out = frame.composite(&patch, &SimilarityTransform::identity());
    assert_eq!(out.dim(), (2, 4, 1, 1));
    assert_eq!(out.to_samples(), vec![-1, -2, -3, 4, -1, -2, -3, 8]);
}
