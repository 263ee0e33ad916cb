//! Coordinate unmapping: from normalized canvas coordinates back to
//! original-image pixel space.
//!
//! A normalized coordinate becomes a canvas pixel (`v * size`), loses the
//! letterbox offset, and is divided by the letterbox scale `size / max_dim`
//! — carried out exactly as `(v * size - off * ONE) * max_dim / size`.
//! Results saturate at `COORD_LIMIT`, far beyond any real image.

use vstd::prelude::*;
use crate::fixed::{ONE, tdiv};
use crate::types::{BBox, Point, Landmarks, RawDetection, Detection, COORD_LIMIT};
use crate::preprocess::LetterboxParams;

verus! {

/// Saturation at the pipeline's coordinate bound.
pub open spec fn spec_clip(v: int) -> int {
    if v > COORD_LIMIT {
        COORD_LIMIT as int
    } else if v < -COORD_LIMIT {
        -COORD_LIMIT as int
    } else {
        v
    }
}

/// A position: canvas pixels, minus the letterbox offset, unscaled.
pub open spec fn spec_unmap_pos(v: int, size: int, off: int, m: int) -> int {
    spec_clip(tdiv((v * size - off * (ONE as int)) * m, size))
}

/// An extent: unscaled only — `(v * size) * m / size` collapses to `v * m`.
pub open spec fn spec_unmap_len(v: int, m: int) -> int {
    spec_clip(v * m)
}

fn unmap_pos(v: i64, p: &LetterboxParams, off: usize) -> (r: i64)
    requires
        p.wf(),
        off <= p.size,
        -COORD_LIMIT <= v <= COORD_LIMIT,
    ensures
        r == spec_unmap_pos(v as int, p.size as int, off as int, p.max_dim as int),
        -COORD_LIMIT <= r <= COORD_LIMIT,
{
    proof {
        assert(-4503599627370496 <= v as int * (p.size as int) <= 4503599627370496)
            by (nonlinear_arith)
            requires
                -COORD_LIMIT <= v <= COORD_LIMIT,
                0 < p.size <= 4096,
                COORD_LIMIT == 1099511627776,
        ;
    }
    let t: i128 = (v as i128) * (p.size as i128) - (off as i128) * (ONE as i128);
    proof {
        assert(-147573952589676412928 <= t as int * (p.max_dim as int)
            <= 147573952589676412928) by (nonlinear_arith)
            requires
                -9007199254740992 <= t <= 9007199254740992,
                0 < p.max_dim <= 16384,
        ;
    }
    let num: i128 = t * (p.max_dim as i128);
    let q: i128 = num / (p.size as i128);
    if q > COORD_LIMIT as i128 {
        COORD_LIMIT
    } else if q < -COORD_LIMIT as i128 {
        -COORD_LIMIT
    } else {
        q as i64
    }
}

fn unmap_len(v: i64, p: &LetterboxParams) -> (r: i64)
    requires
        p.wf(),
        -COORD_LIMIT <= v <= COORD_LIMIT,
    ensures
        r == spec_unmap_len(v as int, p.max_dim as int),
        -COORD_LIMIT <= r <= COORD_LIMIT,
        v > 0 ==> r > 0,
        v >= 0 ==> r >= 0,
{
    proof {
        assert(-18014398509481984 <= v as int * (p.max_dim as int) <= 18014398509481984
            && (v > 0 ==> v as int * (p.max_dim as int) > 0)
            && (v >= 0 ==> v as int * (p.max_dim as int) >= 0)) by (nonlinear_arith)
            requires
                -COORD_LIMIT <= v <= COORD_LIMIT,
                0 < p.max_dim <= 16384,
                COORD_LIMIT == 1099511627776,
        ;
    }
    let q: i128 = (v as i128) * (p.max_dim as i128);
    if q > COORD_LIMIT as i128 {
        COORD_LIMIT
    } else if q < -COORD_LIMIT as i128 {
        -COORD_LIMIT
    } else {
        q as i64
    }
}

/// The detection mapped back to original-image pixel space: positions lose
/// the padding offset and the scale, extents lose only the scale, the score
/// is kept.
pub open spec fn spec_unmap_det(d: RawDetection, p: LetterboxParams) -> Detection {
    let size = p.size as int;
    let m = p.max_dim as int;
    let ox = p.offset_x as int;
    let oy = p.offset_y as int;
    Detection {
        bbox: BBox {
            x: spec_unmap_pos(d.bbox.x as int, size, p.offset_x as int, m) as i64,
            y: spec_unmap_pos(d.bbox.y as int, size, p.offset_y as int, m) as i64,
            w: spec_unmap_len(d.bbox.w as int, m) as i64,
            h: spec_unmap_len(d.bbox.h as int, m) as i64,
        },
        score: d.score,
        landmarks: Landmarks {
            left_eye: spec_unmap_point(d.landmarks.left_eye, p),
            right_eye: spec_unmap_point(d.landmarks.right_eye, p),
            nose: spec_unmap_point(d.landmarks.nose, p),
            mouth_left: spec_unmap_point(d.landmarks.mouth_left, p),
            mouth_right: spec_unmap_point(d.landmarks.mouth_right, p),
        },
    }
}

pub open spec fn spec_unmap_point(pt: Point, p: LetterboxParams) -> Point {
    Point {
        x: spec_unmap_pos(pt.x as int, p.size as int, p.offset_x as int, p.max_dim as int) as i64,
        y: spec_unmap_pos(pt.y as int, p.size as int, p.offset_y as int, p.max_dim as int) as i64,
    }
}

fn unmap_point(pt: &Point, p: &LetterboxParams) -> (r: Point)
    requires
        p.wf(),
        pt.bounded(),
    ensures
        r == spec_unmap_point(*pt, *p),
        r.bounded(),
{
    Point { x: unmap_pos(pt.x, p, p.offset_x), y: unmap_pos(pt.y, p, p.offset_y) }
}

/// Maps one detection from normalized canvas coordinates to original-image
/// pixels, box corners, box size and all five landmarks alike.  A positive
/// extent stays positive.
pub fn unmap_detection(d: &RawDetection, p: &LetterboxParams) -> (r: Detection)
    requires
        p.wf(),
        d.bounded(),
        -COORD_LIMIT <= d.score <= COORD_LIMIT,
    ensures
        r == spec_unmap_det(*d, *p),
        r.bounded(),
        d.bbox.w > 0 ==> r.bbox.w > 0,
        d.bbox.h > 0 ==> r.bbox.h > 0,
{
    Detection {
        bbox: BBox {
            x: unmap_pos(d.bbox.x, p, p.offset_x),
            y: unmap_pos(d.bbox.y, p, p.offset_y),
            w: unmap_len(d.bbox.w, p),
            h: unmap_len(d.bbox.h, p),
        },
        score: d.score,
        landmarks: Landmarks {
            left_eye: unmap_point(&d.landmarks.left_eye, p),
            right_eye: unmap_point(&d.landmarks.right_eye, p),
            nose: unmap_point(&d.landmarks.nose, p),
            mouth_left: unmap_point(&d.landmarks.mouth_left, p),
            mouth_right: unmap_point(&d.landmarks.mouth_right, p),
        },
    }
}

/// Unmaps a whole detection list, in order.
pub fn unmap_detections(dets: &Vec<RawDetection>, p: &LetterboxParams) -> (r: Vec<Detection>)
    requires
        p.wf(),
        forall|i: int| 0 <= i < dets@.len() ==> (#[trigger] dets@[i]).bounded()
            && -COORD_LIMIT <= dets@[i].score <= COORD_LIMIT,
    ensures
        r@ == dets@.map_values(|d: RawDetection| spec_unmap_det(d, *p)),
        forall|i: int| 0 <= i < r@.len() ==> (#[trigger] r@[i]).bounded(),
{
    let n = dets.len();
    let mut out: Vec<Detection> = Vec::new();
    let mut i: usize = 0;
    while i < n
        invariant
            p.wf(),
            n == dets@.len(),
            forall|k: int| 0 <= k < dets@.len() ==> (#[trigger] dets@[k]).bounded()
                && -COORD_LIMIT <= dets@[k].score <= COORD_LIMIT,
            i <= n,
            out@.len() == i,
            forall|k: int| 0 <= k < i ==> #[trigger] out@[k] == spec_unmap_det(dets@[k], *p),
            forall|k: int| 0 <= k < i ==> (#[trigger] out@[k]).bounded(),
        decreases n - i,
    {
        let d = unmap_detection(&dets[i], p);
        out.push(d);
        i = i + 1;
    }
    proof {
        assert(out@ =~= dets@.map_values(|d: RawDetection| spec_unmap_det(d, *p)));
    }
    out
}

} // verus!
