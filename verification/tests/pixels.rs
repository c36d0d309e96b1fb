use noface::error::Error;
use noface::fixed::UNIT;
use noface::pixels::to_byte;
use noface::tensor::{Normal, Tensor};
use rand::Rng;

#[test]
fn can_convert_tensor_data_to_image() {
    let mut rand = rand::thread_rng();
    let img_dim: (usize, usize) = (37, 23);
    let image: Vec<u8> = (0..img_dim.0 * img_dim.1 * 3).map(|_| rand.gen_range(0..=255)).collect();
    let tensor = Tensor::from_rgb8(&image, img_dim.0, img_dim.1).unwrap();
    let tensor_img = tensor.to_rgb8().unwrap();
    let (rand_x, rand_y, rand_c) = (
        rand.gen_range(0..img_dim.0),
        rand.gen_range(0..img_dim.1),
        rand.gen_range(0..3),
    );

    assert_eq!(
        image[(rand_y * img_dim.0 + rand_x) * 3 + rand_c],
        tensor_img[(rand_y * img_dim.0 + rand_x) * 3 + rand_c],
    );
    assert_eq!(image, tensor_img);
}

#[test]
fn from_rgb8_reads_interleaved_channels_row_by_row() {
    // Two pixels wide, three high.
    let bytes: Vec<u8> = (0..18).map(|v| v * 10).collect();
    let t = Tensor::from_rgb8(&bytes, 2, 3).unwrap();
    assert_eq!(t.dim(), (1, 3, 3, 2));
    assert_eq!(t.normal, Normal::ZeroToP1);
    // Red of the first pixel, blue of the first, red of the second.
    assert_eq!(t.get(0, 0, 0, 0), Some(0));
    assert_eq!(t.get(0, 2, 0, 0), Some(20 * 256));
    assert_eq!(t.get(0, 0, 0, 1), Some(30 * 256));
    // Green of the left pixel of the last row: (2 * 2 + 0) * 3 + 1 = 13.
    assert_eq!(t.get(0, 1, 2, 0), Some(130 * 256));
    assert_eq!(t.get(0, 2, 2, 1), Some(170 * 256));
}

#[test]
fn from_rgb8_of_white_is_one() {
    let t = Tensor::from_rgb8(&[255, 255, 255], 1, 1).unwrap();
    assert_eq!(t.to_samples(), vec![UNIT, UNIT, UNIT]);
}

#[test]
fn from_rgb8_refuses_a_buffer_of_the_wrong_length() {
    assert!(matches!(Tensor::from_rgb8(&[0; 17], 2, 3), Err(Error::ShapeMismatch)));
    assert!(matches!(Tensor::from_rgb8(&[0; 19], 2, 3), Err(Error::ShapeMismatch)));
    assert!(matches!(Tensor::from_rgb8(&[0; 3], 0, 3), Err(Error::ShapeMismatch)));
    assert!(matches!(
        Tensor::from_rgb8(&[], usize::MAX, usize::MAX),
        Err(Error::ShapeMismatch)
    ));
    let empty = Tensor::from_rgb8(&[], 0, 3).unwrap();
    assert_eq!(empty.dim(), (1, 3, 3, 0));
    assert_eq!(empty.to_rgb8().unwrap(), Vec::<u8>::new());
}

#[test]
fn to_byte_rounds_to_the_nearest_level() {
    assert_eq!(to_byte(0, Normal::ZeroToP1), 0);
    assert_eq!(to_byte(UNIT, Normal::ZeroToP1), 255);
    // Half a level is 128 sample units of the unit interval.
    assert_eq!(to_byte(127, Normal::ZeroToP1), 0);
    assert_eq!(to_byte(128, Normal::ZeroToP1), 1);
    assert_eq!(to_byte(256 + 127, Normal::ZeroToP1), 1);
    assert_eq!(to_byte(256 + 128, Normal::ZeroToP1), 2);
    assert_eq!(to_byte(UNIT / 2, Normal::ZeroToP1), 128);
}

#[test]
fn to_byte_holds_the_level_within_a_byte() {
    assert_eq!(to_byte(-1, Normal::ZeroToP1), 0);
    assert_eq!(to_byte(-UNIT, Normal::ZeroToP1), 0);
    assert_eq!(to_byte(UNIT + 1, Normal::ZeroToP1), 255);
    assert_eq!(to_byte(i32::MAX, Normal::ZeroToP1), 255);
    assert_eq!(to_byte(i32::MIN, Normal::N1ToP1), 0);
    assert_eq!(to_byte(i32::MAX, Normal::U8), 255);
}

#[test]
fn to_byte_reads_every_encoding() {
    assert_eq!(to_byte(200 * UNIT, Normal::U8), 200);
    assert_eq!(to_byte(200 * UNIT + UNIT / 2 - 1, Normal::U8), 200);
    assert_eq!(to_byte(200 * UNIT + UNIT / 2, Normal::U8), 201);
    assert_eq!(to_byte(-UNIT, Normal::N1ToP1), 0);
    assert_eq!(to_byte(0, Normal::N1ToP1), 128);
    assert_eq!(to_byte(UNIT, Normal::N1ToP1), 255);
}

#[test]
fn to_rgb8_writes_the_first_image_interleaved() {
    let mut t = Tensor::zeros(Normal::U8, 2, 4, 2, 2).unwrap();
    for c in 0..4 {
        for y in 0..2 {
            for x in 0..2 {
                assert!(t.set(0, c, y, x, ((c * 100 + y * 10 + x) as i32) * UNIT));
                assert!(t.set(1, c, y, x, 255 * UNIT));
            }
        }
    }
    assert_eq!(
        t.to_rgb8().unwrap(),
        vec![0, 100, 200, 1, 101, 201, 10, 110, 210, 11, 111, 211]
    );
}

#[test]
fn to_rgb8_refuses_a_tensor_without_three_channels() {
    let t = Tensor::zeros(Normal::U8, 1, 2, 2, 2).unwrap();
    assert!(matches!(t.to_rgb8(), Err(Error::ShapeMismatch)));
    let t = Tensor::zeros(Normal::U8, 0, 3, 2, 2).unwrap();
    assert!(matches!(t.to_rgb8(), Err(Error::ShapeMismatch)));
    let t = Tensor::zeros(Normal::U8, 1, 3, 0, 2).unwrap();
    assert_eq!(t.to_rgb8().unwrap(), Vec::<u8>::new());
}
