use noface::face::Face;
use noface::fixed::{FRAC, PX, UNIT};
use noface::keypoints::KeyPoints;
use noface::tensor::{Normal, Tensor};
use noface::umeyama::SimilarityTransform;

fn numbered(normal: Normal, h: usize, w: usize) -> Tensor {
    let mut samples = Vec::new();
    for c in 0..3 {
        for y in 0..h {
            for x in 0..w {
                samples.push((c * 10_000 + y * 100 + x) as i32);
            }
        }
    }
    Tensor::from_samples(normal, (1, 3, h, w), &samples).unwrap()
}

#[test]
fn each_sample_of_a_resize_can_be_had_alone() {
    let src = numbered(Normal::U8, 5, 7);
    for size in [(3usize, 4usize), (10, 14), (5, 9), (1, 1), (8, 7)] {
        let whole = src.resize(size).unwrap();
        for c in 0..3 {
            for x in 0..size.0 {
                for y in 0..size.1 {
                    assert_eq!(whole.get(0, c, x, y), Some(src.sample_resized(size, c, x, y)));
                }
            }
        }
    }
}

#[test]
fn a_resized_sample_is_the_weighted_mean_of_its_neighbours() {
    let src = numbered(Normal::U8, 2, 3);
    // Position (1 * 2 / 3, 2 * 3 / 4) = (0.67, 1.5): rows 0 and 1 at weights
    // one third and two thirds, columns 1 and 2 at one half each.
    // (1 * 1 * 2 + 2 * 1 * 2 + 101 * 2 * 2 + 102 * 2 * 2) / 12 = 68.17.
    assert_eq!(src.sample_resized((3, 4), 0, 1, 2), 68);
    assert_eq!(src.sample_resized((3, 4), 2, 1, 2), 20_068);
    // The last position of an axis lies past the last sample: held at it.
    assert_eq!(src.sample_resized((3, 4), 0, 2, 3), 102);
}

#[test]
fn each_sample_of_a_plain_crop_can_be_had_alone() {
    let src = numbered(Normal::N1ToP1, 6, 6);
    let face = Face {
        score: 0,
        keypoints: KeyPoints([(0, 0); 5]),
        bbox: (-2 * PX, 3 * PX, 4 * PX, 9 * PX),
    };
    for ratio in [None, Some((1u16, 1u16)), Some((2, 1)), Some((1, 3))] {
        let whole = face.crop(&src, ratio).unwrap();
        let (size, bbox) = face.plan(&src, ratio).unwrap();
        assert_eq!(whole.dim(), (1, 3, size.1, size.0));
        for c in 0..3 {
            for y in 0..size.1 {
                for x in 0..size.0 {
                    assert_eq!(
                        whole.get(0, c, y, x),
                        Some(src.sample_plain((bbox.0, bbox.1), c, y, x))
                    );
                }
            }
        }
    }
    assert_eq!(src.sample_plain((0, 0), 1, 2, 3), 10_203);
    assert_eq!(src.sample_plain((PX / 2, -PX / 2), 1, 2, 3), 10_103);
    assert_eq!(src.sample_plain((-1, 0), 1, 2, 0), -UNIT);
    assert_eq!(src.sample_plain((0, 0), 1, 6, 0), -UNIT);
    assert_eq!(src.sample_plain((0, 0), 1, 0, 6), -UNIT);
    assert_eq!(src.sample_plain((0, 0), 1, 0, usize::MAX), -UNIT);
}

#[test]
fn plan_refuses_what_cannot_be_cropped() {
    let src = numbered(Normal::U8, 6, 6);
    let face = Face { score: 0, keypoints: KeyPoints([(0, 0); 5]), bbox: (0, 0, 2 * PX, 3 * PX) };
    assert_eq!(face.plan(&src, None), Some(((2, 3), face.bbox)));
    assert_eq!(face.plan(&src, Some((0, 1))), None);
    assert_eq!(
        face.plan(&src, Some((3, 1))),
        Some(((9, 3), (-35_000, 0, 55_000, 3 * PX)))
    );
    let two_channels = Tensor::zeros(Normal::U8, 1, 2, 6, 6).unwrap();
    assert_eq!(face.plan(&two_channels, None), None);
}

#[test]
fn each_sample_of_an_aligned_crop_reads_through_the_inverse() {
    let src = numbered(Normal::ZeroToP1, 8, 8);
    let turned = SimilarityTransform { m11: 0, m12: -FRAC, m21: FRAC, m22: 0, t1: 7 * PX, t2: 0 };
    // (x, y) -> (7 - y, x): output (4, 2) comes from source column 2, row 3.
    assert_eq!(turned.source_pixel(4, 2), (2, 3));
    assert_eq!(src.sample_aligned(&turned, 0, 2, 4), 302);
    assert_eq!(src.sample_aligned(&turned, 2, 2, 4), 20_302);
    // Output (8, 0) comes from source row -1.
    assert_eq!(turned.source_pixel(8, 0), (0, -1));
    assert_eq!(src.sample_aligned(&turned, 0, 0, 8), 0);
    let other = numbered(Normal::N1ToP1, 8, 8);
    assert_eq!(other.sample_aligned(&turned, 0, 0, 8), -UNIT);
}

#[test]
fn each_sample_of_a_composite_can_be_had_alone() {
    let frame = numbered(Normal::U8, 5, 5);
    let mut patch = Tensor::zeros(Normal::U8, 1, 3, 3, 3).unwrap();
    for c in 0..3 {
        for y in 0..3 {
            for x in 0..3 {
                assert!(patch.set(0, c, y, x, -1 - (c * 9 + y * 3 + x) as i32));
            }
        }
    }
    let warp = SimilarityTransform {
        m11: FRAC / 2,
        m12: 0,
        m21: 0,
        m22: FRAC / 2,
        t1: PX,
        t2: -PX,
    };
    let whole = frame.composite(&patch, &warp);
    for c in 0..3 {
        for y in 0..5 {
            for x in 0..5 {
                assert_eq!(
                    whole.get(0, c, y, x),
                    Some(frame.sample_composite(&patch, &warp, 0, c, y, x))
                );
            }
        }
    }
    // Frame pixel (2, 4) lands on patch column 2 / 2 + 1 = 2, row 4 / 2 - 1 = 1.
    assert_eq!(warp.target_pixel(2, 4), (2, 1));
    assert_eq!(frame.sample_composite(&patch, &warp, 0, 0, 4, 2), -1 - 5);
    // Frame pixel (0, 0) lands on row -1, outside the patch.
    assert_eq!(frame.sample_composite(&patch, &warp, 0, 1, 0, 0), 10_000);
}
