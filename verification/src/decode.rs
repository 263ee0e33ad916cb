//! Anchor-free grid decoding of the detector's multi-scale outputs.
//!
//! The detector emits twelve tensors: for each stride in {8, 16, 32} a
//! classification map, an objectness map, four box deltas and ten landmark
//! deltas per grid cell.  Scores are fused by multiplying classification and
//! objectness first and applying the sigmoid afterwards — that exact order is
//! part of the decode protocol and thresholds are calibrated to it.

use vstd::prelude::*;
use crate::fixed::{
    ONE, HALF, tdiv, qmul, q_mul, lemma_tdiv_range, lemma_qmul_mono_nonneg, lemma_mul_abs_bound,
};
use crate::types::{BBox, Point, Landmarks, RawDetection, VAL_LIMIT, RAW_LIMIT};
use crate::VisionError;

verus! {

// ---------------------------------------------------------------------------
// Sigmoid in fixed point
// ---------------------------------------------------------------------------

/// `e^(-k)` in fixed point, for whole `k`; zero from 15 on, where the value
/// drops below the fixed-point resolution.
pub open spec fn spec_exp_table(k: int) -> int {
    if k == 0 { 1048576 }
    else if k == 1 { 385750 }
    else if k == 2 { 141909 }
    else if k == 3 { 52206 }
    else if k == 4 { 19205 }
    else if k == 5 { 7065 }
    else if k == 6 { 2599 }
    else if k == 7 { 956 }
    else if k == 8 { 352 }
    else if k == 9 { 129 }
    else if k == 10 { 48 }
    else if k == 11 { 18 }
    else if k == 12 { 6 }
    else if k == 13 { 2 }
    else if k == 14 { 1 }
    else { 0 }
}

fn exp_table(k: i64) -> (r: i64)
    requires
        0 <= k,
    ensures
        r == spec_exp_table(k as int),
        0 <= r <= ONE,
{
    if k == 0 { 1048576 }
    else if k == 1 { 385750 }
    else if k == 2 { 141909 }
    else if k == 3 { 52206 }
    else if k == 4 { 19205 }
    else if k == 5 { 7065 }
    else if k == 6 { 2599 }
    else if k == 7 { 956 }
    else if k == 8 { 352 }
    else if k == 9 { 129 }
    else if k == 10 { 48 }
    else if k == 11 { 18 }
    else if k == 12 { 6 }
    else if k == 13 { 2 }
    else if k == 14 { 1 }
    else { 0 }
}

/// Degree-four polynomial for `e^(-f)` on the fractional part `0 <= f < ONE`.
pub open spec fn spec_exp_poly(f: int) -> int {
    let t1 = ONE - f / 4;
    let t2 = ONE - qmul(f / 3, t1);
    let t3 = ONE - qmul(f / 2, t2);
    ONE - qmul(f, t3)
}

fn exp_poly(f: i64) -> (r: i64)
    requires
        0 <= f < ONE,
    ensures
        r == spec_exp_poly(f as int),
        0 <= r <= ONE,
{
    let t1 = ONE - f / 4;
    proof {
        lemma_mul_abs_bound(f as int / 3, t1 as int, ONE as int);
        lemma_qmul_mono_nonneg(f as int / 3, t1 as int, ONE as int, ONE as int);
    }
    let t2 = ONE - q_mul(f / 3, t1);
    proof {
        lemma_mul_abs_bound(f as int / 2, t2 as int, ONE as int);
        lemma_qmul_mono_nonneg(f as int / 2, t2 as int, ONE as int, ONE as int);
    }
    let t3 = ONE - q_mul(f / 2, t2);
    proof {
        lemma_mul_abs_bound(f as int, t3 as int, ONE as int);
        lemma_qmul_mono_nonneg(f as int, t3 as int, ONE as int, ONE as int);
    }
    ONE - q_mul(f, t3)
}

/// `e^(-x)` in fixed point for `x >= 0`: table for the whole part, the
/// polynomial for the fraction.
pub open spec fn spec_exp_neg(x: int) -> int {
    let k = x / (ONE as int);
    let f = x % (ONE as int);
    if k >= 15 {
        0
    } else {
        qmul(spec_exp_table(k), spec_exp_poly(f))
    }
}

/// Logistic function on the nonnegative half-line: `ONE^2 / (ONE + e^(-x))`.
pub open spec fn spec_sigmoid_pos(x: int) -> int {
    tdiv((ONE as int) * (ONE as int), (ONE as int) + spec_exp_neg(x))
}

/// Fixed-point logistic function; the negative half is the exact complement
/// of the positive half.
pub open spec fn spec_sigmoid(x: int) -> int {
    if x >= 0 {
        spec_sigmoid_pos(x)
    } else {
        (ONE as int) - spec_sigmoid_pos(-x)
    }
}

fn sigmoid_pos(x: i64) -> (r: i64)
    requires
        0 <= x,
    ensures
        r == spec_sigmoid_pos(x as int),
        HALF <= r <= ONE,
{
    let k = x / ONE;
    let f = x % ONE;
    let e: i64 = if k >= 15 {
        0
    } else {
        let t = exp_table(k);
        let p = exp_poly(f);
        proof {
            lemma_mul_abs_bound(t as int, p as int, ONE as int);
            lemma_qmul_mono_nonneg(t as int, p as int, ONE as int, ONE as int);
        }
        q_mul(t, p)
    };
    assert(0 <= e <= ONE);
    let den = ONE + e;
    let num: i128 = (ONE as i128) * (ONE as i128);
    proof {
        lemma_tdiv_range((ONE as int) * (ONE as int), den as int, 0, ONE as int);
        vstd::arithmetic::div_mod::lemma_div_is_ordered_by_denominator(
            (ONE as int) * (ONE as int), den as int, 2 * (ONE as int));
    }
    (num / (den as i128)) as i64
}

/// The score activation: `1 / (1 + e^(-x))` in fixed point.  Monotone table
/// plus polynomial on the positive half; exact complement on the negative
/// half, so `sigmoid(x) + sigmoid(-x) == ONE` and `sigmoid(0) == HALF`.
pub fn sigmoid(x: i64) -> (r: i64)
    requires
        -RAW_LIMIT <= x <= RAW_LIMIT,
    ensures
        r == spec_sigmoid(x as int),
        0 <= r <= ONE,
        x >= 0 ==> HALF <= r,
        x < 0 ==> r <= HALF,
{
    if x >= 0 {
        sigmoid_pos(x)
    } else {
        ONE - sigmoid_pos(-x)
    }
}

/// The activation maps zero raw score to exactly one half.
pub proof fn lemma_sigmoid_midpoint()
    ensures
        spec_sigmoid(0) == HALF,
{
    assert(spec_exp_poly(0) == ONE) by {
        assert(qmul(0, ONE as int) == 0) by {
            assert(tdiv(0, ONE as int) == 0);
        }
    }
    assert(spec_exp_neg(0) == qmul(ONE as int, ONE as int));
    assert(qmul(ONE as int, ONE as int) == ONE);
    assert(spec_sigmoid_pos(0) == tdiv(1099511627776, 2097152));
}

/// The activation is symmetric around the midpoint: the images of `x` and
/// `-x` always sum to exactly `ONE`.
pub proof fn lemma_sigmoid_complement(x: int)
    ensures
        spec_sigmoid(x) + spec_sigmoid(-x) == ONE,
{
    if x == 0 {
        lemma_sigmoid_midpoint();
    }
}

// ---------------------------------------------------------------------------
// Output-tensor validation and score fusion
// ---------------------------------------------------------------------------

/// Grid stride of scale `s` (scales 0, 1, 2).
pub open spec fn spec_stride(s: int) -> int {
    if s == 0 { 8 } else if s == 1 { 16 } else { 32 }
}

/// Number of grid cells at scale `s` for a square canvas of `input_size`.
pub open spec fn spec_count(input_size: int, s: int) -> int {
    (input_size / spec_stride(s)) * (input_size / spec_stride(s))
}

/// Shape prefix `[1, _, ch]` of length three, the layout of every output map.
pub open spec fn shape_ok(shape: Seq<i64>, ch: int) -> bool {
    shape.len() == 3 && shape[0] == 1 && shape[2] == ch
}

/// The twelve-tensor contract of the detector: classification, objectness,
/// box and landmark maps for the three scales, in that fixed positional
/// order; the classification maps additionally carry the expected cell
/// count in their shape.
pub open spec fn outputs_valid_scale(
    outputs: Seq<(Vec<i64>, Vec<i64>)>,
    input_size: int,
    s: int,
) -> bool {
    let c = spec_count(input_size, s);
    &&& shape_ok(outputs[s].0@, 1)
    &&& outputs[s].0@[1] == c
    &&& outputs[s].1@.len() == c
    &&& shape_ok(outputs[s + 3].0@, 1)
    &&& outputs[s + 3].1@.len() == c
    &&& shape_ok(outputs[s + 6].0@, 4)
    &&& outputs[s + 6].1@.len() == 4 * c
    &&& shape_ok(outputs[s + 9].0@, 10)
    &&& outputs[s + 9].1@.len() == 10 * c
}

pub open spec fn outputs_valid(outputs: Seq<(Vec<i64>, Vec<i64>)>, input_size: int) -> bool {
    outputs.len() >= 12 && outputs_valid_scale(outputs, input_size, 0)
        && outputs_valid_scale(outputs, input_size, 1)
        && outputs_valid_scale(outputs, input_size, 2)
}

/// All values of a tensor within `m` in magnitude.
pub open spec fn data_bounded(data: Seq<i64>, m: int) -> bool {
    forall|i: int| 0 <= i < data.len() ==> -m <= #[trigger] data[i] <= m
}

fn check_shape(shape: &Vec<i64>, ch: i64) -> (r: bool)
    ensures
        r == shape_ok(shape@, ch as int),
{
    shape.len() == 3 && shape[0] == 1 && shape[2] == ch
}

/// Element-wise fused score: classification times objectness, in fixed point.
fn fuse_scores(cls: &Vec<i64>, obj: &Vec<i64>) -> (r: Vec<i64>)
    requires
        cls@.len() == obj@.len(),
        data_bounded(cls@, VAL_LIMIT as int),
        data_bounded(obj@, VAL_LIMIT as int),
    ensures
        r@.len() == cls@.len(),
        forall|i: int| 0 <= i < r@.len() ==> r@[i] == qmul(cls@[i] as int, obj@[i] as int),
        data_bounded(r@, RAW_LIMIT as int),
{
    let n = cls.len();
    let mut out: Vec<i64> = Vec::new();
    let mut i: usize = 0;
    while i < n
        invariant
            n == cls@.len(),
            cls@.len() == obj@.len(),
            data_bounded(cls@, VAL_LIMIT as int),
            data_bounded(obj@, VAL_LIMIT as int),
            i <= n,
            out@.len() == i,
            forall|k: int| 0 <= k < i ==> out@[k] == qmul(cls@[k] as int, obj@[k] as int),
            data_bounded(out@, RAW_LIMIT as int),
        decreases n - i,
    {
        proof {
            lemma_mul_abs_bound(cls@[i as int] as int, obj@[i as int] as int, VAL_LIMIT as int);
        }
        let v = q_mul(cls[i], obj[i]);
        out.push(v);
        i = i + 1;
    }
    out
}

/// Splits the detector's raw output list into fused score, box-delta and
/// landmark-delta tensors for the three scales.
///
/// Succeeds exactly when the list holds the twelve maps in their documented
/// positional order with the expected shapes; any mismatch is a fatal decode
/// error.  The fused score of each cell is the fixed-point product of its
/// classification and objectness values — no activation is applied here.
pub fn parse_yunet_outputs(
    outputs: &Vec<(Vec<i64>, Vec<i64>)>,
    input_size: usize,
) -> (r: Result<(Vec<Vec<i64>>, Vec<Vec<i64>>, Vec<Vec<i64>>), VisionError>)
    requires
        0 < input_size <= 4096,
        forall|t: int| 0 <= t < outputs@.len()
            ==> data_bounded((#[trigger] outputs@[t]).1@, VAL_LIMIT as int),
    ensures
        r is Ok <==> outputs_valid(outputs@, input_size as int),
        r is Err ==> r == Result::<(Vec<Vec<i64>>, Vec<Vec<i64>>, Vec<Vec<i64>>),
            VisionError>::Err(VisionError::DecodeError),
        r matches Ok(t) ==> {
            &&& t.0@.len() == 3
            &&& t.1@.len() == 3
            &&& t.2@.len() == 3
            &&& forall|s: int| 0 <= s < 3 ==> {
                &&& (#[trigger] t.0@[s])@.len() == spec_count(input_size as int, s)
                &&& t.1@[s]@ == outputs@[s + 6].1@
                &&& t.2@[s]@ == outputs@[s + 9].1@
                &&& forall|i: int| 0 <= i < t.0@[s]@.len()
                    ==> #[trigger] t.0@[s]@[i]
                        == qmul(outputs@[s].1@[i] as int, outputs@[s + 3].1@[i] as int)
                &&& data_bounded(t.0@[s]@, RAW_LIMIT as int)
                &&& data_bounded(t.1@[s]@, VAL_LIMIT as int)
                &&& data_bounded(t.2@[s]@, VAL_LIMIT as int)
            }
        },
{
    if outputs.len() < 12 {
        return Err(VisionError::DecodeError);
    }
    let f0 = input_size / 8;
    let f1 = input_size / 16;
    let f2 = input_size / 32;
    proof {
        assert(f0 * f0 <= 512 * 512 && f1 * f1 <= 512 * 512 && f2 * f2 <= 512 * 512)
            by (nonlinear_arith)
            requires
                f0 <= 512,
                f1 <= 512,
                f2 <= 512,
        ;
    }
    let c0 = f0 * f0;
    let c1 = f1 * f1;
    let c2 = f2 * f2;

    // Classification maps: shape [1, count, 1], count checked explicitly.
    if !check_shape(&outputs[0].0, 1) || outputs[0].0[1] != c0 as i64
        || outputs[0].1.len() != c0 {
        return Err(VisionError::DecodeError);
    }
    if !check_shape(&outputs[1].0, 1) || outputs[1].0[1] != c1 as i64
        || outputs[1].1.len() != c1 {
        return Err(VisionError::DecodeError);
    }
    if !check_shape(&outputs[2].0, 1) || outputs[2].0[1] != c2 as i64
        || outputs[2].1.len() != c2 {
        return Err(VisionError::DecodeError);
    }
    // Objectness maps: shape [1, _, 1] with matching cell count.
    if !check_shape(&outputs[3].0, 1) || outputs[3].1.len() != c0 {
        return Err(VisionError::DecodeError);
    }
    if !check_shape(&outputs[4].0, 1) || outputs[4].1.len() != c1 {
        return Err(VisionError::DecodeError);
    }
    if !check_shape(&outputs[5].0, 1) || outputs[5].1.len() != c2 {
        return Err(VisionError::DecodeError);
    }
    // Box deltas: shape [1, _, 4] with four values per cell.
    if !check_shape(&outputs[6].0, 4) || outputs[6].1.len() != 4 * c0 {
        return Err(VisionError::DecodeError);
    }
    if !check_shape(&outputs[7].0, 4) || outputs[7].1.len() != 4 * c1 {
        return Err(VisionError::DecodeError);
    }
    if !check_shape(&outputs[8].0, 4) || outputs[8].1.len() != 4 * c2 {
        return Err(VisionError::DecodeError);
    }
    // Landmark deltas: shape [1, _, 10] with ten values per cell.
    if !check_shape(&outputs[9].0, 10) || outputs[9].1.len() != 10 * c0 {
        return Err(VisionError::DecodeError);
    }
    if !check_shape(&outputs[10].0, 10) || outputs[10].1.len() != 10 * c1 {
        return Err(VisionError::DecodeError);
    }
    if !check_shape(&outputs[11].0, 10) || outputs[11].1.len() != 10 * c2 {
        return Err(VisionError::DecodeError);
    }

    let mut cls_scores: Vec<Vec<i64>> = Vec::new();
    cls_scores.push(fuse_scores(&outputs[0].1, &outputs[3].1));
    cls_scores.push(fuse_scores(&outputs[1].1, &outputs[4].1));
    cls_scores.push(fuse_scores(&outputs[2].1, &outputs[5].1));

    let mut bbox_preds: Vec<Vec<i64>> = Vec::new();
    bbox_preds.push(outputs[6].1.clone());
    bbox_preds.push(outputs[7].1.clone());
    bbox_preds.push(outputs[8].1.clone());

    let mut landmark_preds: Vec<Vec<i64>> = Vec::new();
    landmark_preds.push(outputs[9].1.clone());
    landmark_preds.push(outputs[10].1.clone());
    landmark_preds.push(outputs[11].1.clone());

    Ok((cls_scores, bbox_preds, landmark_preds))
}

/// Applies the sigmoid activation to every fused score, in place.
pub fn apply_sigmoid_to_scores(scores: &mut Vec<Vec<i64>>)
    requires
        forall|s: int| 0 <= s < old(scores)@.len()
            ==> data_bounded((#[trigger] old(scores)@[s])@, RAW_LIMIT as int),
    ensures
        final(scores)@.len() == old(scores)@.len(),
        forall|s: int| 0 <= s < old(scores)@.len() ==> {
            &&& (#[trigger] final(scores)@[s])@.len() == old(scores)@[s]@.len()
            &&& forall|i: int| 0 <= i < old(scores)@[s]@.len()
                ==> #[trigger] final(scores)@[s]@[i] == spec_sigmoid(old(scores)@[s]@[i] as int)
            &&& data_bounded(final(scores)@[s]@, ONE as int)
        },
{
    let ghost orig = scores@;
    let n = scores.len();
    let mut out: Vec<Vec<i64>> = Vec::new();
    let mut s: usize = 0;
    while s < n
        invariant
            n == orig.len(),
            scores@ == orig,
            forall|t: int| 0 <= t < orig.len()
                ==> data_bounded((#[trigger] orig[t])@, RAW_LIMIT as int),
            s <= n,
            out@.len() == s,
            forall|t: int| 0 <= t < s ==> {
                &&& (#[trigger] out@[t])@.len() == orig[t]@.len()
                &&& forall|i: int| 0 <= i < orig[t]@.len()
                    ==> #[trigger] out@[t]@[i] == spec_sigmoid(orig[t]@[i] as int)
                &&& data_bounded(out@[t]@, ONE as int)
            },
        decreases n - s,
    {
        let m = scores[s].len();
        let mut inner: Vec<i64> = Vec::new();
        let mut i: usize = 0;
        while i < m
            invariant
                s < orig.len(),
                scores@ == orig,
                m == orig[s as int]@.len(),
                data_bounded(orig[s as int]@, RAW_LIMIT as int),
                i <= m,
                inner@.len() == i,
                forall|k: int| 0 <= k < i
                    ==> #[trigger] inner@[k] == spec_sigmoid(orig[s as int]@[k] as int),
                data_bounded(inner@, ONE as int),
            decreases m - i,
        {
            let v = sigmoid(scores[s][i]);
            inner.push(v);
            i = i + 1;
        }
        out.push(inner);
        s = s + 1;
    }
    *scores = out;
}

// ---------------------------------------------------------------------------
// Grid decoding
// ---------------------------------------------------------------------------

/// Magnitude bound on any single decoded coordinate (2^38).
pub const CELL_LIMIT: i64 = 274877906944;

/// A normalized center or landmark coordinate: `((g + delta) * stride) /
/// input_size` carried out in fixed point.
pub open spec fn spec_cell_coord(g: int, delta: int, stride: int, input_size: int) -> int {
    tdiv((g * (ONE as int) + delta) * stride, input_size)
}

/// A normalized box extent: `(delta * stride) / input_size` in fixed point.
pub open spec fn spec_cell_size(delta: int, stride: int, input_size: int) -> int {
    tdiv(delta * stride, input_size)
}

/// The `k`-th landmark of cell `idx`, decoded from the landmark-delta map.
pub open spec fn spec_cell_point(
    lm: Seq<i64>,
    fs: int,
    stride: int,
    input_size: int,
    idx: int,
    k: int,
) -> Point {
    let i = idx / fs;
    let j = idx % fs;
    Point {
        x: spec_cell_coord(j, lm[10 * idx + 2 * k] as int, stride, input_size) as i64,
        y: spec_cell_coord(i, lm[10 * idx + 2 * k + 1] as int, stride, input_size) as i64,
    }
}

/// The detection decoded from grid cell `idx` of one scale: center offsets
/// and sizes mapped from grid to normalized canvas coordinates, corner-format
/// box, and the five landmarks.
pub open spec fn spec_cell_det(
    cls: Seq<i64>,
    bb: Seq<i64>,
    lm: Seq<i64>,
    fs: int,
    stride: int,
    input_size: int,
    idx: int,
) -> RawDetection {
    let i = idx / fs;
    let j = idx % fs;
    let cx = spec_cell_coord(j, bb[4 * idx] as int, stride, input_size);
    let cy = spec_cell_coord(i, bb[4 * idx + 1] as int, stride, input_size);
    let w = spec_cell_size(bb[4 * idx + 2] as int, stride, input_size);
    let h = spec_cell_size(bb[4 * idx + 3] as int, stride, input_size);
    let x = cx - tdiv(w, 2);
    let y = cy - tdiv(h, 2);
    RawDetection {
        bbox: BBox { x: x as i64, y: y as i64, w: w as i64, h: h as i64 },
        score: cls[idx],
        landmarks: Landmarks {
            left_eye: spec_cell_point(lm, fs, stride, input_size, idx, 0),
            right_eye: spec_cell_point(lm, fs, stride, input_size, idx, 1),
            nose: spec_cell_point(lm, fs, stride, input_size, idx, 2),
            mouth_left: spec_cell_point(lm, fs, stride, input_size, idx, 3),
            mouth_right: spec_cell_point(lm, fs, stride, input_size, idx, 4),
        },
    }
}

/// The detections of the first `n` cells of one scale whose score passes the
/// threshold, in row-major grid order.
pub open spec fn spec_scale_dets(
    cls: Seq<i64>,
    bb: Seq<i64>,
    lm: Seq<i64>,
    fs: int,
    stride: int,
    input_size: int,
    thr: int,
    n: int,
) -> Seq<RawDetection>
    decreases n,
{
    if n <= 0 {
        Seq::empty()
    } else {
        let pre = spec_scale_dets(cls, bb, lm, fs, stride, input_size, thr, n - 1);
        if cls[n - 1] >= thr {
            pre.push(spec_cell_det(cls, bb, lm, fs, stride, input_size, n - 1))
        } else {
            pre
        }
    }
}

fn cell_coord(g: usize, delta: i64, stride: i64, input_size: usize) -> (r: i64)
    requires
        g < 4096,
        -VAL_LIMIT <= delta <= VAL_LIMIT,
        0 < stride <= 32,
        0 < input_size <= 4096,
    ensures
        r == spec_cell_coord(g as int, delta as int, stride as int, input_size as int),
        -CELL_LIMIT <= r <= CELL_LIMIT,
{
    let t: i64 = (g as i64) * ONE + delta;
    proof {
        assert(-CELL_LIMIT <= t * stride <= CELL_LIMIT) by (nonlinear_arith)
            requires
                -5368709120 <= t <= 5368709120,
                0 < stride <= 32,
                CELL_LIMIT == 274877906944,
        ;
        lemma_tdiv_range(t as int * stride as int, input_size as int,
            -(CELL_LIMIT as int), CELL_LIMIT as int);
    }
    let p: i64 = t * stride;
    p / (input_size as i64)
}

fn cell_size(delta: i64, stride: i64, input_size: usize) -> (r: i64)
    requires
        -VAL_LIMIT <= delta <= VAL_LIMIT,
        0 < stride <= 32,
        0 < input_size <= 4096,
    ensures
        r == spec_cell_size(delta as int, stride as int, input_size as int),
        -CELL_LIMIT <= r <= CELL_LIMIT,
{
    proof {
        assert(-CELL_LIMIT <= delta * stride <= CELL_LIMIT) by (nonlinear_arith)
            requires
                -VAL_LIMIT <= delta <= VAL_LIMIT,
                0 < stride <= 32,
                VAL_LIMIT == 1073741824,
                CELL_LIMIT == 274877906944,
        ;
        lemma_tdiv_range(delta as int * stride as int, input_size as int,
            -(CELL_LIMIT as int), CELL_LIMIT as int);
    }
    let p: i64 = delta * stride;
    p / (input_size as i64)
}

/// Decodes one scale, appending every detection whose score passes the
/// threshold, in row-major grid order.
fn decode_scale(
    cls: &Vec<i64>,
    bb: &Vec<i64>,
    lm: &Vec<i64>,
    fs: usize,
    stride: i64,
    input_size: usize,
    score_threshold: i64,
    dets: &mut Vec<RawDetection>,
)
    requires
        0 < stride <= 32,
        0 < input_size <= 4096,
        0 < fs <= 512,
        cls@.len() == fs * fs,
        bb@.len() == 4 * (fs * fs),
        lm@.len() == 10 * (fs * fs),
        data_bounded(cls@, RAW_LIMIT as int),
        data_bounded(bb@, VAL_LIMIT as int),
        data_bounded(lm@, VAL_LIMIT as int),
        forall|k: int| 0 <= k < old(dets)@.len() ==> (#[trigger] old(dets)@[k]).bounded(),
    ensures
        final(dets)@ == old(dets)@ + spec_scale_dets(cls@, bb@, lm@, fs as int, stride as int,
            input_size as int, score_threshold as int, (fs * fs) as int),
        forall|k: int| 0 <= k < final(dets)@.len() ==> (#[trigger] final(dets)@[k]).bounded(),
{
    proof {
        assert(fs * fs <= 512 * 512) by (nonlinear_arith)
            requires
                0 < fs <= 512,
        ;
    }
    let total: usize = fs * fs;
    let mut idx: usize = 0;
    while idx < total
        invariant
            0 < stride <= 32,
            0 < input_size <= 4096,
            0 < fs <= 512,
            total == fs * fs,
            total <= 512 * 512,
            cls@.len() == total,
            bb@.len() == 4 * total,
            lm@.len() == 10 * total,
            data_bounded(cls@, RAW_LIMIT as int),
            data_bounded(bb@, VAL_LIMIT as int),
            data_bounded(lm@, VAL_LIMIT as int),
            idx <= total,
            dets@ == old(dets)@ + spec_scale_dets(cls@, bb@, lm@, fs as int, stride as int,
                input_size as int, score_threshold as int, idx as int),
            forall|k: int| 0 <= k < dets@.len() ==> (#[trigger] dets@[k]).bounded(),
        decreases total - idx,
    {
        let score = cls[idx];
        if score >= score_threshold {
            let i = idx / fs;
            let j = idx % fs;
            proof {
                vstd::arithmetic::div_mod::lemma_multiply_divide_lt(idx as int, fs as int,
                    fs as int);
                vstd::arithmetic::div_mod::lemma_mod_division_less_than_divisor(idx as int,
                    fs as int);
            }
            let b4 = 4 * idx;
            let b10 = 10 * idx;
            let cx = cell_coord(j, bb[b4], stride, input_size);
            let cy = cell_coord(i, bb[b4 + 1], stride, input_size);
            let w = cell_size(bb[b4 + 2], stride, input_size);
            let h = cell_size(bb[b4 + 3], stride, input_size);
            let x = cx - w / 2;
            let y = cy - h / 2;
            let det = RawDetection {
                bbox: BBox { x, y, w, h },
                score,
                landmarks: Landmarks {
                    left_eye: Point {
                        x: cell_coord(j, lm[b10], stride, input_size),
                        y: cell_coord(i, lm[b10 + 1], stride, input_size),
                    },
                    right_eye: Point {
                        x: cell_coord(j, lm[b10 + 2], stride, input_size),
                        y: cell_coord(i, lm[b10 + 3], stride, input_size),
                    },
                    nose: Point {
                        x: cell_coord(j, lm[b10 + 4], stride, input_size),
                        y: cell_coord(i, lm[b10 + 5], stride, input_size),
                    },
                    mouth_left: Point {
                        x: cell_coord(j, lm[b10 + 6], stride, input_size),
                        y: cell_coord(i, lm[b10 + 7], stride, input_size),
                    },
                    mouth_right: Point {
                        x: cell_coord(j, lm[b10 + 8], stride, input_size),
                        y: cell_coord(i, lm[b10 + 9], stride, input_size),
                    },
                },
            };
            proof {
                assert(det == spec_cell_det(cls@, bb@, lm@, fs as int, stride as int,
                    input_size as int, idx as int));
                assert(spec_scale_dets(cls@, bb@, lm@, fs as int, stride as int,
                    input_size as int, score_threshold as int, idx + 1)
                    == spec_scale_dets(cls@, bb@, lm@, fs as int, stride as int,
                        input_size as int, score_threshold as int, idx as int).push(det));
            }
            dets.push(det);
        } else {
            proof {
                assert(spec_scale_dets(cls@, bb@, lm@, fs as int, stride as int,
                    input_size as int, score_threshold as int, idx + 1)
                    == spec_scale_dets(cls@, bb@, lm@, fs as int, stride as int,
                        input_size as int, score_threshold as int, idx as int));
            }
        }
        idx = idx + 1;
    }
}

/// One scale's maps cover its grid exactly.
pub open spec fn scale_shape_ok(
    cls: Seq<Seq<i64>>,
    bb: Seq<Seq<i64>>,
    lm: Seq<Seq<i64>>,
    input_size: int,
    s: int,
) -> bool {
    let c = spec_count(input_size, s);
    cls[s].len() == c && bb[s].len() == 4 * c && lm[s].len() == 10 * c
}

/// Shapes that the decoder itself checks: each scale's maps must cover
/// exactly its grid.
pub open spec fn decode_shapes_ok(
    cls: Seq<Seq<i64>>,
    bb: Seq<Seq<i64>>,
    lm: Seq<Seq<i64>>,
    input_size: int,
) -> bool {
    scale_shape_ok(cls, bb, lm, input_size, 0) && scale_shape_ok(cls, bb, lm, input_size, 1)
        && scale_shape_ok(cls, bb, lm, input_size, 2)
}

/// The full decode across the three scales, in scale order.
pub open spec fn spec_all_dets(
    cls: Seq<Seq<i64>>,
    bb: Seq<Seq<i64>>,
    lm: Seq<Seq<i64>>,
    input_size: int,
    thr: int,
) -> Seq<RawDetection> {
    spec_scale_dets(cls[0], bb[0], lm[0], input_size / 8, 8, input_size, thr,
        spec_count(input_size, 0)) + spec_scale_dets(cls[1], bb[1], lm[1], input_size / 16,
        16, input_size, thr, spec_count(input_size, 1)) + spec_scale_dets(cls[2], bb[2],
        lm[2], input_size / 32, 32, input_size, thr, spec_count(input_size, 2))
}

/// Anchor-free grid decoding over the three scales.
///
/// For every grid cell whose (already activated) score reaches the
/// threshold, the box deltas are mapped straight from grid to normalized
/// canvas coordinates — `((g + d) * stride) / input_size`, no anchors and no
/// exponential — and the box is converted from center to corner format; the
/// ten landmark deltas are mapped the same way.  A scale whose maps do not
/// cover its grid exactly is a fatal decode error.
pub fn decode_detections(
    cls_scores: Vec<Vec<i64>>,
    bbox_preds: Vec<Vec<i64>>,
    landmark_preds: Vec<Vec<i64>>,
    score_threshold: i64,
    input_size: usize,
) -> (r: Result<Vec<RawDetection>, VisionError>)
    requires
        cls_scores@.len() == 3,
        bbox_preds@.len() == 3,
        landmark_preds@.len() == 3,
        32 <= input_size <= 4096,
        forall|s: int| 0 <= s < 3 ==> data_bounded((#[trigger] cls_scores@[s])@, RAW_LIMIT as int),
        forall|s: int| 0 <= s < 3 ==> data_bounded((#[trigger] bbox_preds@[s])@, VAL_LIMIT as int),
        forall|s: int| 0 <= s < 3
            ==> data_bounded((#[trigger] landmark_preds@[s])@, VAL_LIMIT as int),
    ensures
        r is Ok <==> decode_shapes_ok(cls_scores.deep_view(), bbox_preds.deep_view(),
            landmark_preds.deep_view(), input_size as int),
        r is Err ==> r == Result::<Vec<RawDetection>, VisionError>::Err(VisionError::DecodeError),
        r matches Ok(dets) ==> dets@ == spec_all_dets(cls_scores.deep_view(),
            bbox_preds.deep_view(), landmark_preds.deep_view(), input_size as int,
            score_threshold as int),
        r matches Ok(dets) ==> forall|k: int|
            0 <= k < dets@.len() ==> (#[trigger] dets@[k]).bounded(),
{
    let f0 = input_size / 8;
    let f1 = input_size / 16;
    let f2 = input_size / 32;
    proof {
        assert(f0 * f0 <= 512 * 512 && f1 * f1 <= 512 * 512 && f2 * f2 <= 512 * 512)
            by (nonlinear_arith)
            requires
                f0 <= 512,
                f1 <= 512,
                f2 <= 512,
        ;
    }
    let c0 = f0 * f0;
    let c1 = f1 * f1;
    let c2 = f2 * f2;
    proof {
        assert forall|s: int| 0 <= s < 3 implies cls_scores.deep_view()[s] == cls_scores@[s]@
            && bbox_preds.deep_view()[s] == bbox_preds@[s]@
            && landmark_preds.deep_view()[s] == landmark_preds@[s]@ by {
        }
    }
    if cls_scores[0].len() != c0 || bbox_preds[0].len() != 4 * c0
        || landmark_preds[0].len() != 10 * c0 {
        return Err(VisionError::DecodeError);
    }
    if cls_scores[1].len() != c1 || bbox_preds[1].len() != 4 * c1
        || landmark_preds[1].len() != 10 * c1 {
        return Err(VisionError::DecodeError);
    }
    if cls_scores[2].len() != c2 || bbox_preds[2].len() != 4 * c2
        || landmark_preds[2].len() != 10 * c2 {
        return Err(VisionError::DecodeError);
    }
    let mut dets: Vec<RawDetection> = Vec::new();
    decode_scale(&cls_scores[0], &bbox_preds[0], &landmark_preds[0], f0, 8, input_size,
        score_threshold, &mut dets);
    decode_scale(&cls_scores[1], &bbox_preds[1], &landmark_preds[1], f1, 16, input_size,
        score_threshold, &mut dets);
    decode_scale(&cls_scores[2], &bbox_preds[2], &landmark_preds[2], f2, 32, input_size,
        score_threshold, &mut dets);
    proof {
        assert(dets@ =~= spec_all_dets(cls_scores.deep_view(), bbox_preds.deep_view(),
            landmark_preds.deep_view(), input_size as int, score_threshold as int));
    }
    Ok(dets)
}

} // verus!
