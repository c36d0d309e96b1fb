//! Face alignment geometry and the tensor transforms around neural inference,
//! in exact fixed-point arithmetic.
//!
//! A detected [`face::Face`] carries a bounding box and five keypoints. Its
//! box is scored against others by intersection over union, and the face is
//! cut from an image either as its plain box ([`face::Face::crop`]) or
//! aligned: the keypoints are brought onto a reference layout by the
//! least-squares similarity transform ([`keypoints::KeyPoints::umeyama`]) and
//! the image is sampled through the inverse of that transform
//! ([`face::Face::crop_aligned`]). A [`tensor::Tensor`] holds an image as a
//! four-axis array of samples with their encoding; it is resized by bilinear
//! interpolation, re-encoded, flattened for a device, and converted to and
//! from RGB bytes. [`pipeline::SwapRun`] strings these into one face swap.
//!
//! Every quantity is an integer count of a fixed unit (see [`fixed`]), so each
//! operation has one exact result, which its contract states. What has to be
//! computed in floating point, the singular value decomposition and the
//! inference itself, is done by the caller and handed in.

use vstd::prelude::*;

pub mod crop;
pub mod error;
pub mod face;
pub mod fixed;
pub mod grid;
pub mod keypoints;
pub mod normalize;
pub mod paste;
pub mod pipeline;
pub mod pixels;
pub mod resize;
pub mod samples;
pub mod tensor;
pub mod umeyama;
