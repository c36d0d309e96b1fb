use noface::error::Error;
use noface::fixed::{floor_div, saturate, UNIT};
use noface::grid::{shape_fits, Grid};
use noface::tensor::{Normal, Tensor};

#[test]
fn zeros_has_the_shape_and_only_zeros() {
    let t = Tensor::zeros(Normal::N1ToP1, 2, 3, 4, 5).unwrap();
    assert_eq!(t.dim(), (2, 3, 4, 5));
    assert_eq!(t.normal, Normal::N1ToP1);
    assert_eq!(t.to_samples(), vec![0; 120]);
    assert_eq!(t.shape(), vec![2, 3, 4, 5]);
}

#[test]
fn zeros_refuses_a_shape_beyond_the_address_space() {
    assert!(matches!(
        Tensor::zeros(Normal::U8, 1, 3, usize::MAX, 2),
        Err(Error::ShapeMismatch)
    ));
    assert!(Grid::zeros(usize::MAX, usize::MAX, 1, 1).is_none());
    // The axes that are zero do not excuse the others.
    assert!(Grid::zeros(0, usize::MAX, 2, 1).is_none());
    assert!(Grid::zeros(0, 7, 0, 9).is_some());
}

#[test]
fn shape_fits_counts_the_non_zero_axes() {
    assert!(shape_fits(1, 3, 128, 128));
    assert!(shape_fits(0, 0, 0, 0));
    assert!(shape_fits(isize::MAX as usize, 1, 1, 0));
    assert!(!shape_fits(isize::MAX as usize, 2, 1, 0));
    assert!(!shape_fits(1 << 32, 1 << 31, 1, 1));
}

#[test]
fn shape_fits_counts_the_bytes_of_the_cells() {
    // Four bytes to a cell: 2^61 cells are 2^63 bytes, one too many.
    assert!(shape_fits(1 << 30, 1 << 30, 1, 1));
    assert!(shape_fits((1 << 61) - 1, 1, 1, 1));
    assert!(!shape_fits(1 << 61, 1, 1, 1));
    assert!(!shape_fits(1 << 31, 1 << 31, 1, 1));
    assert!(!shape_fits(1, 1 << 20, 1 << 20, 1 << 21));
    // Without cells there are no bytes.
    assert!(shape_fits(1 << 62, 0, 1, 1));
}

#[test]
fn set_changes_one_sample_and_get_reads_it() {
    let mut t = Tensor::zeros(Normal::U8, 1, 3, 2, 2).unwrap();
    assert!(t.set(0, 2, 1, 0, 42));
    assert_eq!(t.get(0, 2, 1, 0), Some(42));
    assert_eq!(t.get(0, 2, 0, 1), Some(0));
    assert_eq!(t.get(0, 1, 1, 0), Some(0));
    assert_eq!(t.to_samples(), vec![0, 0, 0, 0, 0, 0, 0, 0, 0, 0, 42, 0]);
}

#[test]
fn get_and_set_outside_the_tensor_do_nothing() {
    let mut t = Tensor::zeros(Normal::U8, 1, 3, 2, 2).unwrap();
    assert_eq!(t.get(1, 0, 0, 0), None);
    assert_eq!(t.get(0, 3, 0, 0), None);
    assert_eq!(t.get(0, 0, 2, 0), None);
    assert_eq!(t.get(0, 0, 0, 2), None);
    assert!(!t.set(0, 0, 0, 2, 5));
    assert_eq!(t.to_samples(), vec![0; 12]);
}

#[test]
fn a_duplicate_does_not_follow_later_changes() {
    let mut t = Tensor::zeros(Normal::ZeroToP1, 1, 3, 1, 2).unwrap();
    assert!(t.set(0, 0, 0, 1, 11));
    let copy = t.duplicate();
    assert!(t.set(0, 0, 0, 1, 99));
    assert_eq!(copy.get(0, 0, 0, 1), Some(11));
    assert_eq!(copy.dim(), (1, 3, 1, 2));
    assert_eq!(copy.normal, Normal::ZeroToP1);
    assert_eq!(t.get(0, 0, 0, 1), Some(99));
}

#[test]
fn new_wraps_a_grid_with_its_encoding() {
    let g = Grid::zeros(1, 3, 2, 2).unwrap();
    let t = Tensor::new(g, Normal::N1ToP1);
    assert_eq!(t.normal, Normal::N1ToP1);
    assert!(t.is_eq_dim((1, 3, 2, 2)));
    assert!(!t.is_eq_dim((1, 3, 2, 3)));
    assert!(!t.is_eq_dim((2, 3, 2, 2)));
}

#[test]
fn tabulate_calls_the_function_for_each_index() {
    let g = Grid::tabulate(2, 2, 2, 2, |n, c, h, w| (n * 1000 + c * 100 + h * 10 + w) as i32);
    let t = Tensor::new(g, Normal::U8);
    assert_eq!(
        t.to_samples(),
        vec![0, 1, 10, 11, 100, 101, 110, 111, 1000, 1001, 1010, 1011, 1100, 1101, 1110, 1111]
    );
}

#[test]
fn samples_round_trip_in_row_major_order() {
    let samples: Vec<i32> = (0..24).collect();
    let t = Tensor::from_samples(Normal::U8, (1, 2, 3, 4), &samples).unwrap();
    assert_eq!(t.get(0, 0, 0, 0), Some(0));
    assert_eq!(t.get(0, 0, 0, 3), Some(3));
    assert_eq!(t.get(0, 0, 2, 1), Some(9));
    assert_eq!(t.get(0, 1, 0, 0), Some(12));
    assert_eq!(t.get(0, 1, 2, 3), Some(23));
    assert_eq!(t.to_samples(), samples);
}

#[test]
fn from_samples_refuses_a_wrong_count() {
    let samples: Vec<i32> = (0..23).collect();
    assert!(matches!(
        Tensor::from_samples(Normal::U8, (1, 2, 3, 4), &samples),
        Err(Error::ShapeMismatch)
    ));
    assert!(matches!(
        Tensor::from_samples(Normal::U8, (1, 2, 0, 4), &samples),
        Err(Error::ShapeMismatch)
    ));
    assert!(Tensor::from_samples(Normal::U8, (1, 2, 0, 4), &[]).is_ok());
    assert!(matches!(
        Tensor::from_samples(Normal::U8, (usize::MAX, 2, 1, 1), &[]),
        Err(Error::ShapeMismatch)
    ));
}

#[test]
fn norm_is_the_rounded_down_euclidean_length() {
    let t = Tensor::from_samples(Normal::U8, (1, 1, 1, 2), &[3, 4]).unwrap();
    assert_eq!(t.norm(), 5);
    let t = Tensor::from_samples(Normal::U8, (1, 1, 1, 3), &[2, -3, 6]).unwrap();
    assert_eq!(t.norm(), 7);
    let t = Tensor::from_samples(Normal::U8, (1, 1, 1, 2), &[1, 1]).unwrap();
    assert_eq!(t.norm(), 1);
    let t = Tensor::from_samples(Normal::U8, (1, 1, 2, 2), &[UNIT, UNIT, UNIT, UNIT]).unwrap();
    assert_eq!(t.norm(), 2 * UNIT as u64);
    let t = Tensor::from_samples(Normal::U8, (1, 1, 1, 2), &[i32::MIN, i32::MIN]).unwrap();
    assert_eq!(t.norm(), 3_037_000_499);
    assert_eq!(Tensor::zeros(Normal::U8, 0, 3, 2, 2).unwrap().norm(), 0);
}

#[test]
fn isqrt_is_exact_at_squares_and_between() {
    assert_eq!(noface::samples::isqrt(0), 0);
    assert_eq!(noface::samples::isqrt(1), 1);
    assert_eq!(noface::samples::isqrt(24), 4);
    assert_eq!(noface::samples::isqrt(25), 5);
    assert_eq!(noface::samples::isqrt(26), 5);
    assert_eq!(noface::samples::isqrt((1u128 << 126) - 1), (1u64 << 63) - 1);
}

#[test]
fn floor_div_rounds_toward_negative_infinity() {
    assert_eq!(floor_div(7, 2), 3);
    assert_eq!(floor_div(-7, 2), -4);
    assert_eq!(floor_div(-8, 2), -4);
    assert_eq!(floor_div(0, 5), 0);
    assert_eq!(floor_div(-1, 5), -1);
    assert_eq!(floor_div(i128::MIN, 1), i128::MIN);
    assert_eq!(floor_div(i128::MIN, 2), i128::MIN / 2);
}

#[test]
fn saturate_holds_a_value_within_the_sample_range() {
    assert_eq!(saturate(5), 5);
    assert_eq!(saturate(i32::MAX as i128 + 1), i32::MAX);
    assert_eq!(saturate(i32::MIN as i128 - 1), i32::MIN);
    assert_eq!(saturate(i32::MIN as i128), i32::MIN);
}
