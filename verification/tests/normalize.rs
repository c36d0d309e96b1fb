use noface::fixed::UNIT;
use noface::normalize::renormalize;
use noface::tensor::{Normal, Tensor};

#[test]
fn byte_levels_map_to_the_unit_interval() {
    assert_eq!(renormalize(0, Normal::U8, Normal::ZeroToP1), 0);
    assert_eq!(renormalize(255 * UNIT, Normal::U8, Normal::ZeroToP1), UNIT);
    assert_eq!(renormalize(128 * UNIT, Normal::U8, Normal::ZeroToP1), 128 * 256);
    assert_eq!(renormalize(UNIT, Normal::U8, Normal::ZeroToP1), 256);
}

#[test]
fn the_unit_interval_maps_to_the_symmetric_interval() {
    assert_eq!(renormalize(0, Normal::ZeroToP1, Normal::N1ToP1), -UNIT);
    assert_eq!(renormalize(UNIT, Normal::ZeroToP1, Normal::N1ToP1), UNIT);
    assert_eq!(renormalize(UNIT / 2, Normal::ZeroToP1, Normal::N1ToP1), 0);
    assert_eq!(renormalize(128 * 256, Normal::ZeroToP1, Normal::N1ToP1), 256);
}

#[test]
fn the_reverse_maps_undo_the_forward_maps() {
    assert_eq!(renormalize(-UNIT, Normal::N1ToP1, Normal::ZeroToP1), 0);
    assert_eq!(renormalize(UNIT, Normal::N1ToP1, Normal::ZeroToP1), UNIT);
    assert_eq!(renormalize(256, Normal::N1ToP1, Normal::ZeroToP1), 128 * 256);
    assert_eq!(renormalize(UNIT, Normal::ZeroToP1, Normal::U8), 255 * UNIT);
    assert_eq!(renormalize(128 * 256, Normal::ZeroToP1, Normal::U8), 128 * UNIT);
    assert_eq!(renormalize(256, Normal::N1ToP1, Normal::U8), 128 * UNIT);
    assert_eq!(renormalize(0, Normal::U8, Normal::N1ToP1), -UNIT);
    assert_eq!(renormalize(255 * UNIT, Normal::U8, Normal::N1ToP1), UNIT);
}

#[test]
fn a_division_rounds_down() {
    assert_eq!(renormalize(254, Normal::U8, Normal::ZeroToP1), 0);
    assert_eq!(renormalize(-1, Normal::U8, Normal::ZeroToP1), -1);
    assert_eq!(renormalize(-UNIT - 1, Normal::N1ToP1, Normal::ZeroToP1), -1);
    assert_eq!(renormalize(1, Normal::N1ToP1, Normal::ZeroToP1), UNIT / 2);
}

#[test]
fn a_result_beyond_the_sample_range_is_held_at_its_end() {
    assert_eq!(renormalize(i32::MAX, Normal::ZeroToP1, Normal::U8), i32::MAX);
    assert_eq!(renormalize(i32::MIN, Normal::ZeroToP1, Normal::U8), i32::MIN);
    assert_eq!(renormalize(i32::MAX, Normal::ZeroToP1, Normal::N1ToP1), i32::MAX);
    assert_eq!(renormalize(i32::MIN, Normal::ZeroToP1, Normal::N1ToP1), i32::MIN);
}

#[test]
fn the_same_encoding_changes_nothing() {
    for n in [Normal::U8, Normal::ZeroToP1, Normal::N1ToP1] {
        for v in [i32::MIN, -7, 0, 13, i32::MAX] {
            assert_eq!(renormalize(v, n, n), v);
        }
    }
    let samples: Vec<i32> = (0..12).map(|v| v * 1000 - 7).collect();
    let mut t = Tensor::from_samples(Normal::N1ToP1, (1, 3, 2, 2), &samples).unwrap();
    t.to_normalization(Normal::N1ToP1);
    assert_eq!(t.normal, Normal::N1ToP1);
    assert_eq!(t.to_samples(), samples);
}

#[test]
fn byte_levels_survive_the_round_trip() {
    let samples: Vec<i32> = (0..=255).map(|b| b * UNIT).collect();
    let mut t = Tensor::from_samples(Normal::U8, (1, 1, 16, 16), &samples).unwrap();
    t.to_normalization(Normal::ZeroToP1);
    assert_eq!(t.normal, Normal::ZeroToP1);
    assert_eq!(t.get(0, 0, 15, 15), Some(UNIT));
    assert_eq!(t.get(0, 0, 0, 1), Some(256));
    t.to_normalization(Normal::U8);
    assert_eq!(t.normal, Normal::U8);
    assert_eq!(t.to_samples(), samples);
}

#[test]
fn multiples_of_255_survive_the_round_trip() {
    let samples: Vec<i32> = vec![-510, -255, 0, 255, 8_421_375, -8_421_375];
    let mut t = Tensor::from_samples(Normal::U8, (1, 1, 2, 3), &samples).unwrap();
    t.to_normalization(Normal::ZeroToP1);
    assert_eq!(t.to_samples(), vec![-2, -1, 0, 1, 33_025, -33_025]);
    t.to_normalization(Normal::U8);
    assert_eq!(t.to_samples(), samples);
}

#[test]
fn to_normalization_re_encodes_every_sample() {
    let samples: Vec<i32> = vec![0, 255 * UNIT, 128 * UNIT, UNIT, 0, 0, 0, 0, 0, 0, 0, 51 * UNIT];
    let mut t = Tensor::from_samples(Normal::U8, (1, 3, 2, 2), &samples).unwrap();
    t.to_normalization(Normal::N1ToP1);
    assert_eq!(t.normal, Normal::N1ToP1);
    assert_eq!(t.dim(), (1, 3, 2, 2));
    assert_eq!(
        t.to_samples(),
        vec![
            -UNIT,
            UNIT,
            256,
            -UNIT + 512,
            -UNIT,
            -UNIT,
            -UNIT,
            -UNIT,
            -UNIT,
            -UNIT,
            -UNIT,
            2 * 51 * 256 - UNIT
        ]
    );
}

#[test]
fn fill_is_the_lowest_intensity_of_the_encoding() {
    assert_eq!(Normal::U8.fill(), 0);
    assert_eq!(Normal::ZeroToP1.fill(), 0);
    assert_eq!(Normal::N1ToP1.fill(), -UNIT);
}
