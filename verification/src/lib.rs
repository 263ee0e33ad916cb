//! Verified core of a camera-based face authentication pipeline.
//!
//! The library carries every coordinate, score and embedding value as a
//! fixed-point integer (see [`fixed`]), so that the geometry and the
//! decisions of the pipeline are exact and provable.  Image resampling,
//! neural-network inference, camera capture and storage are collaborators
//! that the surrounding application supplies.

use vstd::prelude::*;

pub mod align;
pub mod decode;
pub mod detect;
pub mod embed;
pub mod fixed;
pub mod nms;
pub mod pixels;
pub mod preprocess;
pub mod remap;
pub mod scan;
pub mod store;
pub mod types;

verus! {

/// The failure taxonomy of the pipeline.
#[derive(Clone, Copy, Debug, PartialEq, Eq, Structural)]
pub enum VisionError {
    /// Malformed input image (zero width or height).
    InputError,
    /// Network output tensors do not have the expected count or shapes.
    DecodeError,
    /// Degenerate eye geometry: the similarity transform is not invertible.
    AlignmentError,
    /// The inference engine failed; carried through opaquely.
    InferenceError,
    /// No detection passed the score threshold; expected and recoverable.
    NoFaceError,
}

} // verus!
