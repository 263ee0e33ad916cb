use howrs::align::align_face;
use howrs::detect::{detect_postprocess, select_best_detection};
use howrs::fixed::ONE;
use howrs::preprocess::{letterbox_geometry, ImageBuf};
use howrs::remap::unmap_detection;
use howrs::types::{BBox, Detection, Landmarks, Point, RawDetection};
use howrs::VisionError;

fn q(x: f64) -> i64 {
    (x * ONE as f64).round() as i64
}

fn to_f(x: i64) -> f64 {
    x as f64 / ONE as f64
}

/// The detector's twelve raw output maps for a 640 canvas, all zero except
/// one confident face at stride-32 grid cell (10, 10).
fn one_face_outputs() -> Vec<(Vec<i64>, Vec<i64>)> {
    let counts = [6400usize, 1600, 400];
    let mut outputs: Vec<(Vec<i64>, Vec<i64>)> = Vec::new();
    let shape = |c: usize, ch: i64| vec![1i64, c as i64, ch];
    let idx = 10 * 20 + 10;
    // Classification maps: raw value 2.0 at the face cell.
    for (s, &c) in counts.iter().enumerate() {
        let mut data = vec![0i64; c];
        if s == 2 {
            data[idx] = q(2.0);
        }
        outputs.push((shape(c, 1), data));
    }
    // Objectness maps: 1.0 everywhere, so the fused score is the raw one.
    for &c in counts.iter() {
        outputs.push((shape(c, 1), vec![q(1.0); c]));
    }
    // Box deltas: a 128-pixel square at the face cell.
    for (s, &c) in counts.iter().enumerate() {
        let mut data = vec![0i64; 4 * c];
        if s == 2 {
            data[idx * 4] = q(0.5);
            data[idx * 4 + 1] = q(0.3);
            data[idx * 4 + 2] = q(4.0);
            data[idx * 4 + 3] = q(4.0);
        }
        outputs.push((shape(c, 4), data));
    }
    // Landmark deltas: eyes 40 pixels apart around the cell center.
    for (s, &c) in counts.iter().enumerate() {
        let mut data = vec![0i64; 10 * c];
        if s == 2 {
            data[idx * 10] = q(-0.625);
            data[idx * 10 + 1] = q(0.0);
            data[idx * 10 + 2] = q(0.625);
            data[idx * 10 + 3] = q(0.0);
        }
        outputs.push((shape(c, 10), data));
    }
    outputs
}

#[test]
fn end_to_end_single_face() {
    // One clear frontal face, score threshold 0.6, suppression at 0.3:
    // exactly one detection comes out, and aligning it yields a 112x112
    // crop.
    let outputs = one_face_outputs();
    let params = letterbox_geometry(640, 640, 640).unwrap();
    let dets = detect_postprocess(&outputs, &params, q(0.6), q(0.3)).unwrap();
    assert_eq!(dets.len(), 1);
    let best = select_best_detection(&dets).unwrap();
    let det = &dets[best];
    // sigmoid(2.0) is about 0.88.
    assert!((to_f(det.score) - 0.8808).abs() < 0.01);
    assert!((to_f(det.bbox.x) - 272.0).abs() < 0.01);
    assert!((to_f(det.bbox.y) - 265.6).abs() < 0.01);
    assert!((to_f(det.bbox.w) - 128.0).abs() < 0.01);
    assert!((to_f(det.bbox.h) - 128.0).abs() < 0.01);
    assert!((to_f(det.landmarks.left_eye.x) - 300.0).abs() < 0.01);
    assert!((to_f(det.landmarks.right_eye.x) - 340.0).abs() < 0.01);
    assert!((to_f(det.landmarks.left_eye.y) - 320.0).abs() < 0.01);

    let img = ImageBuf { width: 640, height: 640, data: vec![90; 3 * 640 * 640] };
    let crop = align_face(&img, det, 112).unwrap();
    assert_eq!(crop.width, 112);
    assert_eq!(crop.height, 112);
}

#[test]
fn postprocess_rejects_missing_tensor() {
    let mut outputs = one_face_outputs();
    outputs.pop();
    let params = letterbox_geometry(640, 640, 640).unwrap();
    let e = detect_postprocess(&outputs, &params, q(0.6), q(0.3)).unwrap_err();
    assert_eq!(e, VisionError::DecodeError);
}

#[test]
fn postprocess_rejects_wrong_shape() {
    let mut outputs = one_face_outputs();
    outputs[0].0 = vec![1, 123, 1];
    let params = letterbox_geometry(640, 640, 640).unwrap();
    let e = detect_postprocess(&outputs, &params, q(0.6), q(0.3)).unwrap_err();
    assert_eq!(e, VisionError::DecodeError);
}

#[test]
fn empty_detections_are_no_face() {
    let dets: Vec<Detection> = vec![];
    assert_eq!(select_best_detection(&dets).unwrap_err(), VisionError::NoFaceError);
}

#[test]
fn select_best_picks_highest_score() {
    let mk = |s: f64| Detection {
        bbox: BBox { x: 0, y: 0, w: q(10.0), h: q(10.0) },
        score: q(s),
        landmarks: Landmarks {
            left_eye: Point { x: 0, y: 0 },
            right_eye: Point { x: 0, y: 0 },
            nose: Point { x: 0, y: 0 },
            mouth_left: Point { x: 0, y: 0 },
            mouth_right: Point { x: 0, y: 0 },
        },
    };
    let dets = vec![mk(0.3), mk(0.9), mk(0.7)];
    assert_eq!(select_best_detection(&dets).unwrap(), 1);
}

#[test]
fn unmap_undoes_letterbox_placement() {
    // A 1280x720 source letterboxed to 640: scale one half, vertical offset
    // 140.  The canvas center maps back to the source center.
    let params = letterbox_geometry(1280, 720, 640).unwrap();
    assert_eq!(params.new_h, 360);
    assert_eq!(params.offset_y, 140);
    let raw = RawDetection {
        bbox: BBox { x: q(0.4), y: q(0.4), w: q(0.2), h: q(0.2) },
        score: q(0.8),
        landmarks: Landmarks {
            left_eye: Point { x: q(0.5), y: q(0.5) },
            right_eye: Point { x: q(0.5), y: q(0.5) },
            nose: Point { x: q(0.5), y: q(0.5) },
            mouth_left: Point { x: q(0.5), y: q(0.5) },
            mouth_right: Point { x: q(0.5), y: q(0.5) },
        },
    };
    let det = unmap_detection(&raw, &params);
    // x: 0.4 * 640 = 256 canvas px, offset 0, scale 0.5 -> 512.
    assert!((to_f(det.bbox.x) - 512.0).abs() < 0.01);
    // y: 0.4 * 640 = 256; minus offset 140 = 116; over 0.5 -> 232.
    assert!((to_f(det.bbox.y) - 232.0).abs() < 0.01);
    // sizes only unscale: 0.2 * 640 / 0.5 = 256.
    assert!((to_f(det.bbox.w) - 256.0).abs() < 0.01);
    // the canvas center (320, 320) maps to the source center (640, 360).
    assert!((to_f(det.landmarks.nose.x) - 640.0).abs() < 0.01);
    assert!((to_f(det.landmarks.nose.y) - 360.0).abs() < 0.01);
    assert_eq!(det.score, raw.score);
}
