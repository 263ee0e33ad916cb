use howrs::decode::{apply_sigmoid_to_scores, decode_detections, parse_yunet_outputs, sigmoid};
use howrs::VisionError;
use howrs::fixed::{HALF, ONE};

fn q(x: f64) -> i64 {
    (x * ONE as f64).round() as i64
}

fn to_f(x: i64) -> f64 {
    x as f64 / ONE as f64
}

#[test]
fn test_sigmoid() {
    assert!((to_f(sigmoid(q(0.0))) - 0.5).abs() < 1e-6);
    assert!(to_f(sigmoid(q(10.0))) > 0.99);
    assert!(to_f(sigmoid(q(-10.0))) < 0.01);
}

#[test]
fn sigmoid_midpoint_is_exact() {
    assert_eq!(sigmoid(0), HALF);
}

#[test]
fn sigmoid_complement_is_exact() {
    for x in [q(0.3), q(1.7), q(5.0), q(123.456)] {
        assert_eq!(sigmoid(x) + sigmoid(-x), ONE);
    }
}

#[test]
fn test_decode_grid_based() {
    // Test anchor-free decoding for a single detection
    let input_size = 640;

    // Stride 8: 80x80 = 6400
    let stride8_size = 80 * 80;
    let scores_8 = vec![0i64; stride8_size];
    let bbox_8 = vec![0i64; stride8_size * 4];
    let lm_8 = vec![0i64; stride8_size * 10];

    // Stride 16: 40x40 = 1600
    let stride16_size = 40 * 40;
    let scores_16 = vec![0i64; stride16_size];
    let bbox_16 = vec![0i64; stride16_size * 4];
    let lm_16 = vec![0i64; stride16_size * 10];

    // Stride 32: 20x20 = 400 (with one detection)
    let feature_size = 20;
    let mut scores_data = vec![0i64; feature_size * feature_size];
    let mut bbox_data = vec![0i64; feature_size * feature_size * 4];
    let mut lm_data = vec![0i64; feature_size * feature_size * 10];

    // Set up one high-scoring detection at grid position (10, 10)
    let grid_i = 10;
    let grid_j = 10;
    let idx = grid_i * feature_size + grid_j;

    scores_data[idx] = q(0.9);

    // Deltas: dx=0.5, dy=0.3, dw=4.0, dh=4.0 (4 * stride = 128 pixels)
    bbox_data[idx * 4 + 0] = q(0.5);
    bbox_data[idx * 4 + 1] = q(0.3);
    bbox_data[idx * 4 + 2] = q(4.0);
    bbox_data[idx * 4 + 3] = q(4.0);

    // Landmark at center (offset 0, 0)
    lm_data[idx * 10 + 0] = q(0.0);
    lm_data[idx * 10 + 1] = q(0.0);

    let scores = vec![scores_8, scores_16, scores_data];
    let bboxes = vec![bbox_8, bbox_16, bbox_data];
    let landmarks = vec![lm_8, lm_16, lm_data];

    let detections = decode_detections(scores, bboxes, landmarks, q(0.5), input_size).unwrap();

    assert_eq!(detections.len(), 1);
    let det = &detections[0];

    // Expected center: (10 + 0.5) * 32 / 640 = 0.525, (10 + 0.3) * 32 / 640 = 0.515
    // Expected size: 4 * 32 / 640 = 0.2
    // x = 0.525 - 0.1 = 0.425 ; y = 0.515 - 0.1 = 0.415
    assert!((to_f(det.bbox.x) - 0.425).abs() < 1e-5);
    assert!((to_f(det.bbox.y) - 0.415).abs() < 1e-5);
    assert!((to_f(det.bbox.w) - 0.2).abs() < 1e-5);
    assert!((to_f(det.bbox.h) - 0.2).abs() < 1e-5);
    assert!((to_f(det.score) - 0.9).abs() < 1e-5);

    // Landmark at center: (10 + 0) * 32 / 640 = 0.5
    assert!((to_f(det.landmarks.left_eye.x) - 0.5).abs() < 1e-5);
    assert!((to_f(det.landmarks.left_eye.y) - 0.5).abs() < 1e-5);
}

#[test]
fn parse_fuses_scores_by_multiplying_first() {
    // A minimal 32-pixel canvas: grids 4x4, 2x2, 1x1.
    let counts = [16usize, 4, 1];
    let mut outputs: Vec<(Vec<i64>, Vec<i64>)> = Vec::new();
    let shape = |c: usize, ch: i64| vec![1i64, c as i64, ch];
    for &c in counts.iter() {
        let mut cls = vec![0i64; c];
        cls[0] = q(2.0);
        outputs.push((shape(c, 1), cls));
    }
    for &c in counts.iter() {
        outputs.push((shape(c, 1), vec![q(0.5); c]));
    }
    for &c in counts.iter() {
        outputs.push((shape(c, 4), vec![0i64; 4 * c]));
    }
    for &c in counts.iter() {
        outputs.push((shape(c, 10), vec![0i64; 10 * c]));
    }
    let (mut cls, bb, lm) = parse_yunet_outputs(&outputs, 32).unwrap();
    assert_eq!(cls.len(), 3);
    assert_eq!(bb[0].len(), 64);
    assert_eq!(lm[2].len(), 10);
    // Fusion multiplies before any activation: 2.0 * 0.5 == 1.0 exactly.
    assert_eq!(cls[0][0], q(1.0));
    assert_eq!(cls[0][1], q(0.0));
    apply_sigmoid_to_scores(&mut cls);
    // The sigmoid comes after the multiply: sigmoid(1.0), not a product of
    // two sigmoids.
    assert_eq!(cls[0][0], sigmoid(q(1.0)));
    assert_eq!(cls[0][1], sigmoid(0));
}

#[test]
fn parse_rejects_short_output_list() {
    let outputs: Vec<(Vec<i64>, Vec<i64>)> = vec![(vec![1, 16, 1], vec![0i64; 16])];
    assert_eq!(parse_yunet_outputs(&outputs, 32).unwrap_err(), VisionError::DecodeError);
}

#[test]
fn decode_rejects_mismatched_shapes() {
    // A stride-8 map that does not cover its grid is a fatal decode error.
    let scores = vec![vec![0i64; 100], vec![0i64; 1600], vec![0i64; 400]];
    let bboxes = vec![vec![0i64; 400], vec![0i64; 6400], vec![0i64; 1600]];
    let landmarks = vec![vec![0i64; 1000], vec![0i64; 16000], vec![0i64; 4000]];
    let r = decode_detections(scores, bboxes, landmarks, 0, 640);
    assert_eq!(r.unwrap_err(), VisionError::DecodeError);
}
