use howrs::fixed::ONE;
use howrs::nms::{compute_iou, nms};
use howrs::types::{BBox, Detection, Landmarks, Point};

fn q(x: f64) -> i64 {
    (x * ONE as f64).round() as i64
}

fn det(b: [f64; 4], score: f64) -> Detection {
    let zero = Point { x: 0, y: 0 };
    Detection {
        bbox: BBox { x: q(b[0]), y: q(b[1]), w: q(b[2]), h: q(b[3]) },
        score: q(score),
        landmarks: Landmarks {
            left_eye: zero,
            right_eye: zero,
            nose: zero,
            mouth_left: zero,
            mouth_right: zero,
        },
    }
}

#[test]
fn test_iou() {
    let a = BBox { x: q(10.0), y: q(10.0), w: q(20.0), h: q(20.0) };
    let b = BBox { x: q(15.0), y: q(15.0), w: q(20.0), h: q(20.0) };
    let iou = compute_iou(&a, &b);
    assert!(iou > 0 && iou < ONE);

    // No overlap
    let c = BBox { x: q(100.0), y: q(100.0), w: q(10.0), h: q(10.0) };
    assert_eq!(compute_iou(&a, &c), 0);
}

#[test]
fn iou_of_box_with_itself_is_one() {
    let a = BBox { x: q(3.5), y: q(-2.25), w: q(17.0), h: q(9.0) };
    assert_eq!(compute_iou(&a, &a), ONE);
}

#[test]
fn iou_is_symmetric() {
    let a = BBox { x: q(10.0), y: q(10.0), w: q(20.0), h: q(20.0) };
    let b = BBox { x: q(15.0), y: q(18.0), w: q(25.0), h: q(12.0) };
    assert_eq!(compute_iou(&a, &b), compute_iou(&b, &a));
}

#[test]
fn face_test_nms() {
    let detections = vec![
        det([10.0, 10.0, 20.0, 20.0], 0.9),
        det([12.0, 12.0, 20.0, 20.0], 0.8),
        det([100.0, 100.0, 20.0, 20.0], 0.85),
    ];

    let result = nms(&detections, q(0.3));
    assert_eq!(result.len(), 2); // Should keep first and third
}

#[test]
fn face_eval_test_nms() {
    let detections = vec![
        det([10.0, 10.0, 50.0, 50.0], 0.95),
        det([15.0, 15.0, 50.0, 50.0], 0.85),
        det([100.0, 100.0, 50.0, 50.0], 0.9),
    ];

    let filtered = nms(&detections, q(0.3));

    // Should keep first and third (high overlap between first two)
    assert_eq!(filtered.len(), 2);
    assert_eq!(filtered[0].score, q(0.95));
    assert_eq!(filtered[1].score, q(0.9));
}

#[test]
fn nms_pass_through_threshold_sorts_only() {
    let detections = vec![
        det([10.0, 10.0, 20.0, 20.0], 0.5),
        det([10.0, 10.0, 20.0, 20.0], 0.7),
    ];
    // A threshold at ONE disables suppression: identical boxes both stay.
    let result = nms(&detections, ONE);
    assert_eq!(result.len(), 2);
    assert_eq!(result[0].score, q(0.7));
    assert_eq!(result[1].score, q(0.5));
}

#[test]
fn nms_keeps_global_maximum_first() {
    let detections = vec![
        det([0.0, 0.0, 10.0, 10.0], 0.2),
        det([1.0, 1.0, 10.0, 10.0], 0.95),
        det([40.0, 0.0, 10.0, 10.0], 0.6),
        det([2.0, 0.5, 10.0, 10.0], 0.94),
    ];
    let result = nms(&detections, q(0.3));
    assert_eq!(result[0].score, q(0.95));
    for k in 1..result.len() {
        assert!(result[k - 1].score >= result[k].score);
    }
}
