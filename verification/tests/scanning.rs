use howrs::fixed::ONE;
use howrs::scan::{AuthScan, EnrollScan, ScanEvent, ScanStatus};
use howrs::store::user_store_path;

fn q(x: f64) -> i64 {
    (x * ONE as f64).round() as i64
}

#[test]
fn enroll_keeps_best_and_stops_on_cutoff() {
    let mut s = EnrollScan::new(10, q(0.8));
    s.step(ScanEvent::NoFace);
    assert_eq!(s.status, ScanStatus::Scanning);
    s.step(ScanEvent::Face { score: q(0.5), embedding: vec![1, 2] });
    assert_eq!(s.status, ScanStatus::Scanning);
    s.step(ScanEvent::Face { score: q(0.4), embedding: vec![9, 9] });
    // A lower score does not displace the collected best.
    assert_eq!(s.best.as_ref().unwrap().0, q(0.5));
    assert_eq!(s.best.as_ref().unwrap().1, vec![1, 2]);
    s.step(ScanEvent::Face { score: q(0.9), embedding: vec![3, 4] });
    assert_eq!(s.status, ScanStatus::Success);
    assert_eq!(s.best.as_ref().unwrap().0, q(0.9));
}

#[test]
fn enroll_budget_out_with_best_is_exhausted() {
    let mut s = EnrollScan::new(2, q(0.8));
    s.step(ScanEvent::Face { score: q(0.5), embedding: vec![7] });
    s.step(ScanEvent::FrameFailed);
    assert_eq!(s.status, ScanStatus::Exhausted);
    assert_eq!(s.best.as_ref().unwrap().0, q(0.5));
}

#[test]
fn enroll_budget_out_without_face_fails() {
    let mut s = EnrollScan::new(2, q(0.8));
    s.step(ScanEvent::FrameFailed);
    s.step(ScanEvent::NoFace);
    assert_eq!(s.status, ScanStatus::Failure);
    assert!(s.best.is_none());
}

#[test]
fn auth_succeeds_at_threshold() {
    let mut s = AuthScan::new(5, q(0.6));
    s.step(&ScanEvent::Face { score: q(0.55), embedding: vec![] });
    assert_eq!(s.status, ScanStatus::Scanning);
    s.step(&ScanEvent::Face { score: q(0.6), embedding: vec![] });
    assert_eq!(s.status, ScanStatus::Success);
}

#[test]
fn auth_budget_out_fails() {
    let mut s = AuthScan::new(2, q(0.6));
    s.step(&ScanEvent::NoFace);
    assert_eq!(s.status, ScanStatus::Scanning);
    s.step(&ScanEvent::Face { score: q(0.59), embedding: vec![] });
    assert_eq!(s.status, ScanStatus::Failure);
}

#[test]
fn store_path_joins_prefix_and_user() {
    let p = user_store_path("/usr/local/etc/faces", "alice");
    assert_eq!(p.as_str(), "/usr/local/etc/faces/alice");
}
