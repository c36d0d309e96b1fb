//! The failures that the library reports.

use vstd::prelude::*;

verus! {

/// The failures that the alignment and tensor operations, and the stages built
/// on them, report to their caller. None is retried internally.
#[derive(Clone, Copy, Debug, PartialEq, Eq, Structural)]
pub enum Error {
    /// The keypoint configuration is degenerate: no similarity transform
    /// exists, or the one found cannot be inverted or represented.
    InvalidAlignment,
    /// A tensor's shape does not fit the operation or the model.
    ShapeMismatch,
    /// The inference engine failed.
    EngineFailure,
    /// Copying host data to the device failed.
    DeviceTransferFailure,
    /// A stage that needs a face was given none.
    NoFaceDetected,
}

} // verus!
