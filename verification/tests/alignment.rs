use howrs::align::{align_face, estimate_similarity, forward_point, Transform};
use howrs::fixed::ONE;
use howrs::preprocess::ImageBuf;
use howrs::types::{BBox, Detection, Landmarks, Point};
use howrs::VisionError;

fn q(x: f64) -> i64 {
    (x * ONE as f64).round() as i64
}

fn to_f(x: i64) -> f64 {
    x as f64 / ONE as f64
}

fn pt(x: f64, y: f64) -> Point {
    Point { x: q(x), y: q(y) }
}

fn face_det(left_eye: Point, right_eye: Point) -> Detection {
    Detection {
        bbox: BBox { x: 0, y: 0, w: q(100.0), h: q(100.0) },
        score: q(0.9),
        landmarks: Landmarks {
            left_eye,
            right_eye,
            nose: pt(0.0, 0.0),
            mouth_left: pt(0.0, 0.0),
            mouth_right: pt(0.0, 0.0),
        },
    }
}

#[test]
fn alignment_worked_example() {
    // Source eyes (10,20)/(30,20) mapped onto target eyes (38,52)/(74,52):
    // scale 1.8, no rotation; the forward map reproduces the targets to
    // sub-pixel accuracy.
    let t = estimate_similarity(&pt(10.0, 20.0), &pt(30.0, 20.0), &pt(38.0, 52.0),
        &pt(74.0, 52.0)).unwrap();
    assert!((to_f(t.a) - 1.8).abs() < 1e-4);
    assert!(to_f(t.b).abs() < 1e-4);
    assert_eq!(t.c, -t.b);
    assert_eq!(t.d, t.a);

    let m1 = forward_point(&t, &pt(10.0, 20.0));
    assert!((to_f(m1.x) - 38.0).abs() < 0.5);
    assert!((to_f(m1.y) - 52.0).abs() < 0.5);
    let m2 = forward_point(&t, &pt(30.0, 20.0));
    assert!((to_f(m2.x) - 74.0).abs() < 0.5);
    assert!((to_f(m2.y) - 52.0).abs() < 0.5);
}

#[test]
fn alignment_rotated_eyes_level_out() {
    // Eyes on a diagonal: the estimated map sends both onto the horizontal
    // reference line, so their images share a y coordinate (sub-pixel).
    let t = estimate_similarity(&pt(100.0, 100.0), &pt(140.0, 140.0), &pt(38.3, 51.7),
        &pt(73.5, 51.7)).unwrap();
    let l = forward_point(&t, &pt(100.0, 100.0));
    let r = forward_point(&t, &pt(140.0, 140.0));
    assert!((to_f(l.y) - to_f(r.y)).abs() < 0.01);
    assert!(to_f(r.x) > to_f(l.x));
}

#[test]
fn degenerate_eye_separation_fails() {
    let e = estimate_similarity(&pt(10.0, 20.0), &pt(10.0, 20.0), &pt(38.0, 52.0),
        &pt(74.0, 52.0)).unwrap_err();
    assert_eq!(e, VisionError::AlignmentError);
}

#[test]
fn align_face_rejects_coincident_eyes() {
    let img = ImageBuf { width: 64, height: 64, data: vec![0; 3 * 64 * 64] };
    let det = face_det(pt(32.0, 32.0), pt(32.0, 32.0));
    assert_eq!(align_face(&img, &det, 112).unwrap_err(), VisionError::AlignmentError);
}

#[test]
fn align_face_produces_requested_crop() {
    // A uniform mid-grey image with a plausible eye pair yields a crop of
    // exactly the requested size whose sampled interior is the source grey.
    let img = ImageBuf { width: 200, height: 200, data: vec![100; 3 * 200 * 200] };
    let det = face_det(pt(80.0, 90.0), pt(120.0, 90.0));
    let crop = align_face(&img, &det, 112).unwrap();
    assert_eq!(crop.width, 112);
    assert_eq!(crop.height, 112);
    assert_eq!(crop.data.len(), 3 * 112 * 112);
    // The eye midpoint maps near the reference center, which lies inside
    // the source, so the center pixel carries the source value up to the
    // fixed-point truncation of the bilinear weights.
    let center = 3 * (56 * 112 + 56);
    assert!(crop.data[center] == 99 || crop.data[center] == 100);
}

#[test]
fn align_face_leaves_outside_black() {
    // A tiny source: the crop's far corner pulls back to a point outside
    // the source and stays black.
    let img = ImageBuf { width: 10, height: 10, data: vec![200; 3 * 10 * 10] };
    let det = face_det(pt(2.0, 5.0), pt(8.0, 5.0));
    let crop = align_face(&img, &det, 112).unwrap();
    let corner = 3 * (111 * 112 + 111);
    assert_eq!(crop.data[corner], 0);
}

#[test]
fn transform_translation_matches_midpoints_exactly() {
    let sl = pt(10.0, 20.0);
    let sr = pt(30.0, 20.0);
    let t: Transform = estimate_similarity(&sl, &sr, &pt(38.0, 52.0), &pt(74.0, 52.0))
        .unwrap();
    let mid = Point { x: (sl.x + sr.x) / 2, y: (sl.y + sr.y) / 2 };
    let out = forward_point(&t, &mid);
    assert_eq!(out.x, (q(38.0) + q(74.0)) / 2);
    assert_eq!(out.y, q(52.0));
}
