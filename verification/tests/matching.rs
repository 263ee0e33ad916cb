use howrs::embed::{best_score, match_embedding, normalize_embedding};
use howrs::fixed::ONE;
use howrs::types::{Embedding, FaceRecord};

fn q(x: f64) -> i64 {
    (x * ONE as f64).round() as i64
}

fn to_f(x: i64) -> f64 {
    x as f64 / ONE as f64
}

fn emb(v: &[f64]) -> Embedding {
    Embedding { vector: v.iter().map(|&x| q(x)).collect() }
}

#[test]
fn normalize_scales_to_unit_length() {
    let n = normalize_embedding(&emb(&[3.0, 4.0]).vector);
    assert!((to_f(n[0]) - 0.6).abs() < 1e-3);
    assert!((to_f(n[1]) - 0.8).abs() < 1e-3);
    let len = (to_f(n[0]).powi(2) + to_f(n[1]).powi(2)).sqrt();
    assert!((len - 1.0).abs() < 1e-2);
}

#[test]
fn normalize_zero_vector_passes_through() {
    let z = vec![0i64; 8];
    let n = normalize_embedding(&z);
    assert_eq!(n, z);
}

#[test]
fn match_is_symmetric() {
    let a = emb(&[0.6, 0.8, 0.0]);
    let b = emb(&[0.0, 0.8, -0.6]);
    assert_eq!(match_embedding(&a, &b), match_embedding(&b, &a));
}

#[test]
fn match_of_normalized_with_itself_is_one() {
    let n = Embedding { vector: normalize_embedding(&emb(&[1.0, 2.0, 2.0]).vector) };
    let s = match_embedding(&n, &n);
    assert!((to_f(s) - 1.0).abs() < 1e-2);
}

#[test]
fn match_stays_in_unit_interval() {
    let a = emb(&[1.0, 1.0, 1.0, 1.0]);
    let s = match_embedding(&a, &a);
    assert_eq!(s, ONE); // the raw dot product of 4.0 clamps to 1
    let b = emb(&[-1.0, -1.0, -1.0, -1.0]);
    assert_eq!(match_embedding(&a, &b), -ONE);
}

#[test]
fn best_score_empty_is_no_match() {
    let records: Vec<FaceRecord> = vec![];
    let probe = emb(&[0.6, 0.8]);
    assert!(best_score(&records, &probe).is_none());
}

#[test]
fn best_score_picks_maximum() {
    let records = vec![
        FaceRecord { id: "a".to_string(), embedding: emb(&[1.0, 0.0]).vector },
        FaceRecord { id: "b".to_string(), embedding: emb(&[0.6, 0.8]).vector },
        FaceRecord { id: "c".to_string(), embedding: emb(&[0.0, 1.0]).vector },
    ];
    let probe = emb(&[0.6, 0.8]);
    let s = best_score(&records, &probe).unwrap();
    // The second record is the probe itself; its similarity is the largest.
    assert!((to_f(s) - 1.0).abs() < 1e-2);
    let low = match_embedding(&Embedding { vector: records[0].embedding.clone() }, &probe);
    assert!(s >= low);
}
