use noface::error::Error;
use noface::tensor::{Normal, Tensor};
use rand::Rng;

#[test]
fn can_resize_tensor_data() {
    let mut rand = rand::thread_rng();
    let test_data = Tensor::default();
    let new_size = (
        rand.gen_range(0..1000) as usize,
        rand.gen_range(0..1000) as usize,
    );

    let resized_data = test_data.resize(new_size).unwrap();
    let (_, _, new_x, new_y) = resized_data.dim();

    assert_eq!(new_x, new_size.0, "resized width doesn't match");
    assert_eq!(new_y, new_size.1, "resized height doesn't match");

    assert_eq!(
        new_size.0 * new_size.1 * 3,
        resized_data.to_samples().len(),
        "resized tensor byte length doesn't match"
    );
}

fn plane_2x2() -> Tensor {
    let mut t = Tensor::zeros(Normal::U8, 1, 3, 2, 2).unwrap();
    assert!(t.set(0, 0, 0, 0, 0));
    assert!(t.set(0, 0, 0, 1, 100));
    assert!(t.set(0, 0, 1, 0, 200));
    assert!(t.set(0, 0, 1, 1, 300));
    assert!(t.set(0, 1, 0, 0, -1));
    assert!(t.set(0, 1, 0, 1, -1));
    assert!(t.set(0, 1, 1, 0, 0));
    assert!(t.set(0, 1, 1, 1, 0));
    t
}

#[test]
fn default_tensor_is_one_zeroed_image() {
    let t = Tensor::default();
    assert_eq!(t.dim(), (1, 3, 128, 128));
    assert_eq!(t.normal, Normal::U8);
    assert!(t.to_samples().iter().all(|v| *v == 0));
}

#[test]
fn resize_to_own_size_returns_the_same_tensor() {
    let t = plane_2x2();
    let r = t.resize((2, 2)).unwrap();
    assert_eq!(r.dim(), t.dim());
    assert_eq!(r.normal, t.normal);
    assert_eq!(r.to_samples(), t.to_samples());
}

#[test]
fn resize_to_own_size_keeps_batch_and_channels() {
    let t = Tensor::zeros(Normal::ZeroToP1, 2, 5, 4, 6).unwrap();
    let r = t.resize((4, 6)).unwrap();
    assert_eq!(r.dim(), (2, 5, 4, 6));
}

#[test]
fn resize_gives_the_requested_shape() {
    let t = plane_2x2();
    for (a, b) in [(1usize, 1usize), (3, 5), (7, 2), (0, 4), (4, 0), (0, 0)] {
        let r = t.resize((a, b)).unwrap();
        assert_eq!(r.dim(), (1, 3, a, b));
        assert!(r.is_eq_dim((1, 3, a, b)));
        assert_eq!(r.normal, Normal::U8);
    }
}

#[test]
fn resize_blends_the_four_neighbours() {
    let t = plane_2x2();
    let r = t.resize((4, 4)).unwrap();
    // Positions 0, 0.5, 1, 1.5 along each axis; the last is held at the edge.
    assert_eq!(r.get(0, 0, 0, 0), Some(0));
    assert_eq!(r.get(0, 0, 0, 1), Some(50));
    assert_eq!(r.get(0, 0, 0, 2), Some(100));
    assert_eq!(r.get(0, 0, 0, 3), Some(100));
    assert_eq!(r.get(0, 0, 1, 0), Some(100));
    assert_eq!(r.get(0, 0, 1, 1), Some(150));
    assert_eq!(r.get(0, 0, 1, 2), Some(200));
    assert_eq!(r.get(0, 0, 2, 0), Some(200));
    assert_eq!(r.get(0, 0, 2, 1), Some(250));
    assert_eq!(r.get(0, 0, 3, 3), Some(300));
    assert_eq!(r.get(0, 0, 3, 1), Some(250));
}

#[test]
fn resize_rounds_a_blend_down() {
    let t = plane_2x2();
    let r = t.resize((4, 2)).unwrap();
    // Half way between -1 and 0 is -0.5, which rounds down to -1.
    assert_eq!(r.get(0, 1, 0, 0), Some(-1));
    assert_eq!(r.get(0, 1, 1, 0), Some(-1));
    assert_eq!(r.get(0, 1, 2, 0), Some(0));
}

#[test]
fn resize_shrinks_by_sampling() {
    let t = plane_2x2();
    let r = t.resize((1, 1)).unwrap();
    assert_eq!(r.get(0, 0, 0, 0), Some(0));
    assert_eq!(r.get(0, 1, 0, 0), Some(-1));
    assert_eq!(r.get(0, 2, 0, 0), Some(0));
}

#[test]
fn resize_reads_the_first_batch_entry_only() {
    let mut t = Tensor::zeros(Normal::U8, 2, 3, 1, 1).unwrap();
    assert!(t.set(0, 0, 0, 0, 7));
    assert!(t.set(1, 0, 0, 0, 9));
    let r = t.resize((2, 2)).unwrap();
    assert_eq!(r.dim(), (1, 3, 2, 2));
    assert_eq!(r.to_samples()[0..4], [7, 7, 7, 7]);
}

#[test]
fn resize_refuses_a_tensor_it_cannot_sample() {
    let two_channels = Tensor::zeros(Normal::U8, 1, 2, 4, 4).unwrap();
    assert!(matches!(two_channels.resize((2, 2)), Err(Error::ShapeMismatch)));
    let no_batch = Tensor::zeros(Normal::U8, 0, 3, 4, 4).unwrap();
    assert!(matches!(no_batch.resize((2, 2)), Err(Error::ShapeMismatch)));
    let empty_plane = Tensor::zeros(Normal::U8, 1, 3, 0, 4).unwrap();
    assert!(matches!(empty_plane.resize((2, 2)), Err(Error::ShapeMismatch)));
    // An empty result needs nothing to sample.
    assert!(two_channels.resize((0, 2)).is_ok());
}

#[test]
fn resize_refuses_a_shape_that_cannot_be_allocated() {
    let t = plane_2x2();
    assert!(matches!(t.resize((usize::MAX, 2)), Err(Error::ShapeMismatch)));
    assert!(matches!(t.resize((usize::MAX, 0)), Err(Error::ShapeMismatch)));
}
