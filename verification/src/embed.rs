//! Embedding normalization and matching: L2 normalization, cosine
//! similarity, and best-of-set aggregation over enrolled records.

use vstd::prelude::*;
use crate::fixed::{ONE, qmul, qdiv, q_mul, q_div, spec_isqrt, isqrt_u128, lemma_tdiv_range};
use crate::types::{Embedding, FaceRecord, VAL_LIMIT};
use crate::decode::data_bounded;

verus! {

/// Most entries an embedding may have; real models emit 128.
pub const DIM_LIMIT: usize = 8192;

/// Sum of squares of the first `n` entries.
pub open spec fn spec_sum_squares(v: Seq<i64>, n: int) -> int
    decreases n,
{
    if n <= 0 {
        0
    } else {
        spec_sum_squares(v, n - 1) + v[n - 1] * v[n - 1]
    }
}

/// The fixed-point L2 norm: integer square root of the sum of squares.
pub open spec fn spec_norm(v: Seq<i64>) -> int {
    spec_isqrt(spec_sum_squares(v, v.len() as int))
}

proof fn lemma_sum_squares_bounds(v: Seq<i64>, n: int, m: int)
    requires
        0 <= n <= v.len(),
        data_bounded(v, m),
        0 <= m,
    ensures
        0 <= spec_sum_squares(v, n) <= n * (m * m),
        forall|i: int| 0 <= i < n ==> #[trigger] (v[i] * v[i]) <= spec_sum_squares(v, n),
    decreases n,
{
    if n > 0 {
        lemma_sum_squares_bounds(v, n - 1, m);
        assert(0 <= v[n - 1] * v[n - 1] <= m * m) by (nonlinear_arith)
            requires
                -m <= v[n - 1] <= m,
                0 <= m,
        ;
        assert((n - 1) * (m * m) + m * m == n * (m * m)) by (nonlinear_arith);
    }
}

/// L2-normalizes the vector: every entry is divided by the norm; an
/// all-zero vector (the only way the norm is zero) passes through
/// unchanged, degenerate but not fatal.  Normalized entries never exceed
/// `ONE` in magnitude.
pub fn normalize_embedding(v: &Vec<i64>) -> (r: Vec<i64>)
    requires
        v@.len() <= DIM_LIMIT,
        data_bounded(v@, VAL_LIMIT as int),
    ensures
        r@.len() == v@.len(),
        spec_norm(v@) == 0 ==> r@ == v@,
        spec_norm(v@) > 0 ==> forall|i: int| 0 <= i < v@.len()
            ==> #[trigger] r@[i] == qdiv(v@[i] as int, spec_norm(v@)),
        spec_norm(v@) > 0 ==> data_bounded(r@, ONE as int),
{
    let n = v.len();
    let mut acc: u128 = 0;
    let mut i: usize = 0;
    proof {
        lemma_sum_squares_bounds(v@, n as int, VAL_LIMIT as int);
    }
    while i < n
        invariant
            n == v@.len(),
            n <= DIM_LIMIT,
            data_bounded(v@, VAL_LIMIT as int),
            i <= n,
            acc == spec_sum_squares(v@, i as int),
            acc <= i * ((VAL_LIMIT as int) * (VAL_LIMIT as int)),
        decreases n - i,
    {
        proof {
            lemma_sum_squares_bounds(v@, i + 1, VAL_LIMIT as int);
            lemma_sum_squares_bounds(v@, i as int, VAL_LIMIT as int);
            assert((i as int) * ((VAL_LIMIT as int) * (VAL_LIMIT as int)) + (VAL_LIMIT as int)
                * (VAL_LIMIT as int) == (i + 1) * ((VAL_LIMIT as int) * (VAL_LIMIT as int)))
                by (nonlinear_arith);
            assert(0 <= v@[i as int] * v@[i as int] <= (VAL_LIMIT as int) * (VAL_LIMIT as int))
                by (nonlinear_arith)
                requires
                    -VAL_LIMIT <= v@[i as int] <= VAL_LIMIT,
            ;
        }
        let x: i64 = v[i];
        acc = acc + ((x as i128) * (x as i128)) as u128;
        i = i + 1;
    }
    let normu: u64 = isqrt_u128(acc);
    proof {
        assert(normu * normu <= acc < (normu + 1) * (normu + 1));
        assert(normu <= 9007199254740992) by (nonlinear_arith)
            requires
                0 <= normu,
                normu as int * normu as int <= acc as int,
                acc <= 9671406556917033397649408,
        ;
    }
    let norm: i64 = normu as i64;
    if norm == 0 {
        let c = v.clone();
        proof {
            assert(c@ =~= v@);
        }
        return c;
    }
    let mut out: Vec<i64> = Vec::new();
    let mut k: usize = 0;
    while k < n
        invariant
            n == v@.len(),
            n <= DIM_LIMIT,
            data_bounded(v@, VAL_LIMIT as int),
            0 < norm <= 9007199254740992,
            norm == spec_norm(v@),
            norm * norm <= spec_sum_squares(v@, n as int),
            spec_sum_squares(v@, n as int) < (norm + 1) * (norm + 1),
            k <= n,
            out@.len() == k,
            forall|j: int| 0 <= j < k ==> #[trigger] out@[j] == qdiv(v@[j] as int, norm as int),
            data_bounded(out@, ONE as int),
        decreases n - k,
    {
        proof {
            lemma_sum_squares_bounds(v@, n as int, VAL_LIMIT as int);
            assert(-(norm as int) <= v@[k as int] <= norm) by (nonlinear_arith)
                requires
                    v@[k as int] * v@[k as int] <= spec_sum_squares(v@, n as int),
                    spec_sum_squares(v@, n as int) < (norm + 1) * (norm + 1),
                    0 <= norm,
            ;
            assert(-(norm as int) * (ONE as int) <= v@[k as int] * (ONE as int)
                <= (norm as int) * (ONE as int) && -i64::MAX * (norm as int)
                <= v@[k as int] * (ONE as int) <= i64::MAX * (norm as int))
                by (nonlinear_arith)
                requires
                    -(norm as int) <= v@[k as int] <= norm,
                    0 < norm <= 9007199254740992,
                    ONE == 1048576,
            ;
            lemma_tdiv_range(v@[k as int] * (ONE as int), norm as int, -(ONE as int),
                ONE as int);
        }
        let q = q_div(v[k], norm);
        out.push(q);
        k = k + 1;
    }
    out
}

/// Fixed-point dot product of the first `n` entries.
pub open spec fn spec_dot(a: Seq<i64>, b: Seq<i64>, n: int) -> int
    decreases n,
{
    if n <= 0 {
        0
    } else {
        spec_dot(a, b, n - 1) + qmul(a[n - 1] as int, b[n - 1] as int)
    }
}

/// Clamp to the unit interval of fixed point.
pub open spec fn spec_clamp_one(x: int) -> int {
    if x > ONE {
        ONE as int
    } else if x < -ONE {
        -ONE as int
    } else {
        x
    }
}

/// Cosine similarity of two embeddings: the fixed-point dot product over
/// their common prefix, clamped into `[-ONE, ONE]`.
pub open spec fn spec_match(a: Seq<i64>, b: Seq<i64>) -> int {
    spec_clamp_one(spec_dot(a, b, vstd::math::min(a.len() as int, b.len() as int)))
}

/// The dot product is symmetric.
proof fn lemma_dot_symmetric(a: Seq<i64>, b: Seq<i64>, n: int)
    ensures
        spec_dot(a, b, n) == spec_dot(b, a, n),
    decreases n,
{
    if n > 0 {
        lemma_dot_symmetric(a, b, n - 1);
        assert(a[n - 1] as int * (b[n - 1] as int) == b[n - 1] as int * (a[n - 1] as int))
            by (nonlinear_arith);
    }
}

/// Matching is symmetric: `match(a, b) == match(b, a)`.
pub proof fn lemma_match_symmetric(a: Seq<i64>, b: Seq<i64>)
    ensures
        spec_match(a, b) == spec_match(b, a),
{
    lemma_dot_symmetric(a, b, vstd::math::min(a.len() as int, b.len() as int));
}

proof fn lemma_dot_self_nonneg(a: Seq<i64>, n: int)
    ensures
        spec_dot(a, a, n) >= 0,
    decreases n,
{
    if n > 0 {
        lemma_dot_self_nonneg(a, n - 1);
        assert(a[n - 1] as int * (a[n - 1] as int) >= 0) by (nonlinear_arith);
        vstd::arithmetic::div_mod::lemma_div_pos_is_pos(a[n - 1] as int * (a[n - 1] as int),
            ONE as int);
    }
}

/// Self-similarity is never negative, whatever the vector: the exactly
/// provable part of self-matching in fixed point (the full dot product of a
/// normalized vector with itself reaches one only up to truncation).
pub proof fn lemma_match_self_nonneg(a: Seq<i64>)
    ensures
        spec_match(a, a) >= 0,
{
    lemma_dot_self_nonneg(a, vstd::math::min(a.len() as int, a.len() as int));
}

proof fn lemma_dot_bounds(a: Seq<i64>, b: Seq<i64>, n: int)
    requires
        0 <= n <= a.len(),
        n <= b.len(),
        data_bounded(a, ONE as int),
        data_bounded(b, ONE as int),
    ensures
        -n * (ONE as int) <= spec_dot(a, b, n) <= n * (ONE as int),
    decreases n,
{
    if n > 0 {
        lemma_dot_bounds(a, b, n - 1);
        crate::fixed::lemma_mul_abs_bound(a[n - 1] as int, b[n - 1] as int, ONE as int);
        lemma_tdiv_range(a[n - 1] as int * (b[n - 1] as int), ONE as int, -(ONE as int),
            ONE as int);
        assert((n - 1) * (ONE as int) + ONE == n * (ONE as int)) by (nonlinear_arith);
    }
}

/// Cosine similarity of two embeddings, both already normalized: the dot
/// product over the common prefix of the two vectors, clamped into
/// `[-ONE, ONE]`.
pub fn match_embedding(a: &Embedding, b: &Embedding) -> (r: i64)
    requires
        a.vector@.len() <= DIM_LIMIT,
        b.vector@.len() <= DIM_LIMIT,
        data_bounded(a.vector@, ONE as int),
        data_bounded(b.vector@, ONE as int),
    ensures
        r == spec_match(a.vector@, b.vector@),
        -ONE <= r <= ONE,
{
    let n = if a.vector.len() <= b.vector.len() {
        a.vector.len()
    } else {
        b.vector.len()
    };
    let mut dot: i64 = 0;
    let mut i: usize = 0;
    proof {
        lemma_dot_bounds(a.vector@, b.vector@, 0);
    }
    while i < n
        invariant
            n == vstd::math::min(a.vector@.len() as int, b.vector@.len() as int),
            n <= DIM_LIMIT,
            data_bounded(a.vector@, ONE as int),
            data_bounded(b.vector@, ONE as int),
            i <= n,
            dot == spec_dot(a.vector@, b.vector@, i as int),
            -(i as int) * (ONE as int) <= dot <= (i as int) * (ONE as int),
        decreases n - i,
    {
        proof {
            crate::fixed::lemma_mul_abs_bound(a.vector@[i as int] as int,
                b.vector@[i as int] as int, ONE as int);
            lemma_tdiv_range(a.vector@[i as int] as int * (b.vector@[i as int] as int),
                ONE as int, -(ONE as int), ONE as int);
            assert((i as int) * (ONE as int) + ONE == (i + 1) * (ONE as int))
                by (nonlinear_arith);
            assert(-((i + 1) * (ONE as int)) == -(i as int) * (ONE as int) - ONE)
                by (nonlinear_arith);
        }
        let p = q_mul(a.vector[i], b.vector[i]);
        dot = dot + p;
        i = i + 1;
    }
    if dot > ONE {
        ONE
    } else if dot < -ONE {
        -ONE
    } else {
        dot
    }
}

/// The best similarity of the probe against a record set: the maximum over
/// all records, `None` exactly when the set is empty — never a default
/// score.
pub fn best_score(records: &Vec<FaceRecord>, probe: &Embedding) -> (r: Option<i64>)
    requires
        probe.vector@.len() <= DIM_LIMIT,
        data_bounded(probe.vector@, ONE as int),
        forall|k: int| 0 <= k < records@.len() ==> (#[trigger] records@[k]).embedding@.len()
            <= DIM_LIMIT && data_bounded(records@[k].embedding@, ONE as int),
    ensures
        r is None <==> records@.len() == 0,
        r matches Some(s) ==> {
            &&& exists|k: int| 0 <= k < records@.len() && s == spec_match(
                (#[trigger] records@[k]).embedding@, probe.vector@)
            &&& forall|k: int| 0 <= k < records@.len() ==> s >= spec_match(
                (#[trigger] records@[k]).embedding@, probe.vector@)
        },
{
    let n = records.len();
    let mut best: Option<i64> = None;
    let mut i: usize = 0;
    while i < n
        invariant
            n == records@.len(),
            probe.vector@.len() <= DIM_LIMIT,
            data_bounded(probe.vector@, ONE as int),
            forall|k: int| 0 <= k < records@.len() ==> (#[trigger] records@[k]).embedding@.len()
                <= DIM_LIMIT && data_bounded(records@[k].embedding@, ONE as int),
            i <= n,
            best is None <==> i == 0,
            best matches Some(s) ==> {
                &&& exists|k: int| 0 <= k < i && s == spec_match(
                    (#[trigger] records@[k]).embedding@, probe.vector@)
                &&& forall|k: int| 0 <= k < i ==> s >= spec_match(
                    (#[trigger] records@[k]).embedding@, probe.vector@)
            },
        decreases n - i,
    {
        let cv = records[i].embedding.clone();
        proof {
            assert(cv@ =~= records@[i as int].embedding@);
        }
        let emb = Embedding { vector: cv };
        let s = match_embedding(&emb, probe);
        match best {
            None => {
                best = Some(s);
            },
            Some(b) => {
                if s > b {
                    best = Some(s);
                }
            },
        }
        i = i + 1;
    }
    best
}

} // verus!
