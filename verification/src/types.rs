//! The data model of the pipeline, in fixed-point coordinates.

use vstd::prelude::*;
use crate::fixed::qmul;

verus! {

/// Magnitude bound on every coordinate the pipeline handles.  Decoded and
/// unmapped coordinates stay far below it; it keeps all products inside the
/// ranges that [`crate::fixed::q_mul`] and [`crate::fixed::q_div`] accept.
pub const COORD_LIMIT: i64 = 1099511627776;

/// An axis-aligned box: corner `(x, y)` and size `(w, h)`, fixed point.
#[derive(Clone, Copy, Debug, PartialEq, Eq, Structural)]
pub struct BBox {
    pub x: i64,
    pub y: i64,
    pub w: i64,
    pub h: i64,
}

/// A landmark point, fixed point.
#[derive(Clone, Copy, Debug, PartialEq, Eq, Structural)]
pub struct Point {
    pub x: i64,
    pub y: i64,
}

impl BBox {
    /// All four fields within `COORD_LIMIT`.
    pub open spec fn bounded(self) -> bool {
        -COORD_LIMIT <= self.x <= COORD_LIMIT && -COORD_LIMIT <= self.y <= COORD_LIMIT
            && -COORD_LIMIT <= self.w <= COORD_LIMIT && -COORD_LIMIT <= self.h <= COORD_LIMIT
    }

    /// Fixed-point area `w * h`.
    pub open spec fn area(self) -> int {
        qmul(self.w as int, self.h as int)
    }
}

impl Point {
    pub open spec fn bounded(self) -> bool {
        -COORD_LIMIT <= self.x <= COORD_LIMIT && -COORD_LIMIT <= self.y <= COORD_LIMIT
    }
}

/// The five facial landmarks of a detection.
#[derive(Clone, Copy, Debug, PartialEq, Eq, Structural)]
pub struct Landmarks {
    pub left_eye: Point,
    pub right_eye: Point,
    pub nose: Point,
    pub mouth_left: Point,
    pub mouth_right: Point,
}

impl Landmarks {
    pub open spec fn bounded(self) -> bool {
        self.left_eye.bounded() && self.right_eye.bounded() && self.nose.bounded()
            && self.mouth_left.bounded() && self.mouth_right.bounded()
    }
}

/// Magnitude bound on values handed in from the inference engine, after
/// conversion to fixed point (the converter saturates at +-1024.0).
pub const VAL_LIMIT: i64 = 1073741824;

/// Magnitude bound on a fused (classification times objectness) raw score.
pub const RAW_LIMIT: i64 = 2199023255552;

/// A detection in normalized canvas coordinates, fresh out of the decoder.
#[derive(Clone, Copy, Debug, PartialEq, Eq, Structural)]
pub struct RawDetection {
    pub bbox: BBox,
    pub score: i64,
    pub landmarks: Landmarks,
}

impl RawDetection {
    pub open spec fn bounded(self) -> bool {
        self.bbox.bounded() && -RAW_LIMIT <= self.score <= RAW_LIMIT
            && self.landmarks.bounded()
    }
}

/// A decoded detection: box, score and the five landmark points, all in one
/// coordinate space (normalized canvas space out of the decoder, original
/// image pixels after unmapping).
#[derive(Clone, Copy, Debug, PartialEq, Eq, Structural)]
pub struct Detection {
    pub bbox: BBox,
    pub score: i64,
    pub landmarks: Landmarks,
}

impl Detection {
    pub open spec fn bounded(self) -> bool {
        self.bbox.bounded() && -COORD_LIMIT <= self.score <= COORD_LIMIT
            && self.landmarks.bounded()
    }
}

/// A face embedding: a fixed-point vector, L2-normalized unless degenerate.
#[derive(Clone, Debug)]
pub struct Embedding {
    pub vector: Vec<i64>,
}

/// An enrolled face: an identity tag and its embedding, as the storage
/// collaborator hands it to the core.
#[derive(Clone, Debug)]
pub struct FaceRecord {
    pub id: String,
    pub embedding: Vec<i64>,
}

} // verus!
