//! Duplicate suppression: Intersection-over-Union and non-maximum
//! suppression over fixed-point boxes.

use vstd::prelude::*;
use crate::fixed::{
    ONE, qmul, qdiv, lemma_tdiv_range, lemma_qmul_mono_nonneg, lemma_mul_abs_bound, q_mul, q_div,
};
use crate::types::{BBox, Detection, COORD_LIMIT};
use vstd::math::{max, min};

verus! {

/// Intersection-over-Union of two boxes: intersection area over union area,
/// zero when the boxes do not overlap or when the union is degenerate.
pub open spec fn spec_iou(a: BBox, b: BBox) -> int {
    let x1 = max(a.x as int, b.x as int);
    let y1 = max(a.y as int, b.y as int);
    let x2 = min(a.x + a.w, b.x + b.w);
    let y2 = min(a.y + a.h, b.y + b.h);
    if x2 <= x1 || y2 <= y1 {
        0
    } else {
        let inter = qmul(x2 - x1, y2 - y1);
        let u = a.area() + b.area() - inter;
        if u <= 0 {
            0
        } else {
            qdiv(inter, u)
        }
    }
}

/// A box overlapping itself has IoU exactly one, whenever its fixed-point
/// area does not truncate to zero.
pub proof fn lemma_iou_self(a: BBox)
    requires
        a.w > 0,
        a.h > 0,
        a.area() > 0,
    ensures
        spec_iou(a, a) == ONE,
{
    let inter = qmul(a.w as int, a.h as int);
    assert(spec_iou(a, a) == qdiv(inter, inter));
    vstd::arithmetic::div_mod::lemma_div_multiples_vanish(ONE as int, inter);
    assert((inter * ONE) / inter == ONE);
}

/// Disjoint boxes have IoU zero.
pub proof fn lemma_iou_disjoint(a: BBox, b: BBox)
    requires
        a.x + a.w <= b.x || b.x + b.w <= a.x || a.y + a.h <= b.y || b.y + b.h <= a.y,
    ensures
        spec_iou(a, b) == 0,
{
}

/// IoU is symmetric in its two boxes.
pub proof fn lemma_iou_symmetric(a: BBox, b: BBox)
    ensures
        spec_iou(a, b) == spec_iou(b, a),
{
}

/// Computes `spec_iou` exactly; the result is a ratio in `[0, ONE]`.
pub fn compute_iou(a: &BBox, b: &BBox) -> (r: i64)
    requires
        a.bounded(),
        b.bounded(),
    ensures
        r == spec_iou(*a, *b),
        0 <= r <= ONE,
{
    let x1 = if a.x >= b.x { a.x } else { b.x };
    let y1 = if a.y >= b.y { a.y } else { b.y };
    let ar = a.x + a.w;
    let br = b.x + b.w;
    let x2 = if ar <= br { ar } else { br };
    let ab = a.y + a.h;
    let bb = b.y + b.h;
    let y2 = if ab <= bb { ab } else { bb };
    if x2 <= x1 || y2 <= y1 {
        return 0;
    }
    let iw = x2 - x1;
    let ih = y2 - y1;
    assert(0 < iw <= a.w && 0 < ih <= a.h && iw <= b.w && ih <= b.h);
    proof {
        lemma_mul_abs_bound(a.w as int, a.h as int, COORD_LIMIT as int);
        lemma_mul_abs_bound(b.w as int, b.h as int, COORD_LIMIT as int);
        lemma_mul_abs_bound(iw as int, ih as int, COORD_LIMIT as int);
        lemma_qmul_mono_nonneg(iw as int, ih as int, a.w as int, a.h as int);
        lemma_qmul_mono_nonneg(iw as int, ih as int, b.w as int, b.h as int);
    }
    let inter = q_mul(iw, ih);
    let area_a = q_mul(a.w, a.h);
    let area_b = q_mul(b.w, b.h);
    let u = area_a + area_b - inter;
    if u <= 0 {
        return 0;
    }
    assert(inter <= u);
    proof {
        assert(inter as int * (ONE as int) <= i64::MAX * (u as int)
            && -i64::MAX * (u as int) <= inter as int * (ONE as int)
            && 0 * (u as int) <= inter as int * (ONE as int)
            && inter as int * (ONE as int) <= (ONE as int) * (u as int)) by (nonlinear_arith)
            requires
                0 <= inter <= u,
                0 < u,
                0 < ONE <= i64::MAX,
        ;
        lemma_tdiv_range(inter as int * (ONE as int), u as int, 0, ONE as int);
    }
    q_div(inter, u)
}

/// Descending score order.
pub open spec fn sorted_desc(s: Seq<Detection>) -> bool {
    forall|i: int, j: int| 0 <= i <= j < s.len() ==> s[i].score >= s[j].score
}

/// All detections of a sequence within the coordinate bound.
pub open spec fn all_bounded(s: Seq<Detection>) -> bool {
    forall|i: int| 0 <= i < s.len() ==> #[trigger] s[i].bounded()
}

/// Number of `false` entries of a boolean sequence.
pub open spec fn count_false(s: Seq<bool>) -> nat
    decreases s.len(),
{
    if s.len() == 0 {
        0
    } else {
        count_false(s.drop_last()) + if s.last() {
            0nat
        } else {
            1nat
        }
    }
}

proof fn lemma_count_false_all_false(s: Seq<bool>)
    requires
        forall|i: int| 0 <= i < s.len() ==> !s[i],
    ensures
        count_false(s) == s.len(),
    decreases s.len(),
{
    if s.len() > 0 {
        lemma_count_false_all_false(s.drop_last());
    }
}

proof fn lemma_count_false_le_len(s: Seq<bool>)
    ensures
        count_false(s) <= s.len(),
    decreases s.len(),
{
    if s.len() > 0 {
        lemma_count_false_le_len(s.drop_last());
    }
}

proof fn lemma_count_false_update_true(s: Seq<bool>, i: int)
    requires
        0 <= i < s.len(),
        !s[i],
    ensures
        count_false(s.update(i, true)) == count_false(s) - 1,
    decreases s.len(),
{
    let t = s.update(i, true);
    if i == s.len() - 1 {
        assert(t.drop_last() =~= s.drop_last());
    } else {
        assert(t.drop_last() =~= s.drop_last().update(i, true));
        lemma_count_false_update_true(s.drop_last(), i);
    }
}

proof fn lemma_count_false_all_true(s: Seq<bool>)
    requires
        forall|i: int| 0 <= i < s.len() ==> s[i],
    ensures
        count_false(s) == 0,
    decreases s.len(),
{
    if s.len() > 0 {
        lemma_count_false_all_true(s.drop_last());
    }
}

proof fn lemma_count_false_some_false(s: Seq<bool>, i: int)
    requires
        0 <= i < s.len(),
        !s[i],
    ensures
        count_false(s) > 0,
    decreases s.len(),
{
    if i < s.len() - 1 {
        lemma_count_false_some_false(s.drop_last(), i);
    }
}

/// The highest-scoring detection not yet taken, if any remains.
fn find_best(dets: &Vec<Detection>, taken: &Vec<bool>) -> (r: Option<usize>)
    requires
        taken@.len() == dets@.len(),
    ensures
        match r {
            Some(b) => b < dets@.len() && !taken@[b as int] && forall|i: int|
                0 <= i < dets@.len() && !taken@[i] ==> dets@[b as int].score >= dets@[i].score,
            None => forall|i: int| 0 <= i < dets@.len() ==> taken@[i],
        },
{
    let mut best: Option<usize> = None;
    let n = dets.len();
    for j in 0..n
        invariant
            taken@.len() == dets@.len(),
            n == dets@.len(),
            match best {
                Some(b) => b < dets@.len() && !taken@[b as int] && forall|i: int|
                    0 <= i < j && !taken@[i] ==> dets@[b as int].score >= dets@[i].score,
                None => forall|i: int| 0 <= i < j ==> taken@[i],
            },
    {
        if !taken[j] {
            match best {
                Some(b) => {
                    if dets[j].score > dets[b].score {
                        best = Some(j);
                    }
                },
                None => {
                    best = Some(j);
                },
            }
        }
    }
    best
}

/// Non-maximum suppression.
///
/// Greedily keeps the highest-scoring remaining detection and discards every
/// remaining detection whose IoU with it exceeds `iou_threshold`.  The result
/// is in descending score order; its first element scores at least as high as
/// every input; kept detections overlap each other by at most the threshold;
/// and every input is either kept or overlaps some kept detection of equal or
/// higher score by more than the threshold.  A threshold of `ONE` or more
/// suppresses nothing: the result is then the input in descending score
/// order.
pub fn nms(dets: &Vec<Detection>, iou_threshold: i64) -> (r: Vec<Detection>)
    requires
        all_bounded(dets@),
    ensures
        sorted_desc(r@),
        r@.len() <= dets@.len(),
        dets@.len() > 0 ==> r@.len() > 0,
        all_bounded(r@),
        forall|k: int| 0 <= k < r@.len() ==> dets@.contains(#[trigger] r@[k]),
        forall|k: int, l: int| 0 <= k < l < r@.len()
            ==> spec_iou(r@[k].bbox, r@[l].bbox) <= iou_threshold,
        forall|i: int| 0 <= i < dets@.len() ==> r@.contains(#[trigger] dets@[i]) || exists|k: int|
            0 <= k < r@.len() && r@[k].score >= dets@[i].score
                && spec_iou(r@[k].bbox, dets@[i].bbox) > iou_threshold,
        dets@.len() > 0 ==> forall|i: int| 0 <= i < dets@.len() ==> r@[0].score >= dets@[i].score,
        iou_threshold >= ONE ==> r@.len() == dets@.len(),
{
    let n = dets.len();
    let mut taken: Vec<bool> = Vec::new();
    let mut idx: usize = 0;
    while idx < n
        invariant
            taken@.len() == idx,
            idx <= n,
            forall|i: int| 0 <= i < idx ==> !taken@[i],
        decreases n - idx,
    {
        taken.push(false);
        idx = idx + 1;
    }
    let mut keep: Vec<Detection> = Vec::new();
    proof {
        lemma_count_false_le_len(taken@);
        lemma_count_false_all_false(taken@);
    }
    loop
        invariant
            n == dets@.len(),
            taken@.len() == n,
            all_bounded(dets@),
            sorted_desc(keep@),
            all_bounded(keep@),
            keep@.len() + count_false(taken@) <= n,
            iou_threshold >= ONE ==> keep@.len() + count_false(taken@) == n,
            keep@.len() == 0 ==> forall|i: int| 0 <= i < n ==> !taken@[i],
            forall|k: int| 0 <= k < keep@.len() ==> dets@.contains(#[trigger] keep@[k]),
            forall|k: int, l: int| 0 <= k < l < keep@.len()
                ==> spec_iou(keep@[k].bbox, keep@[l].bbox) <= iou_threshold,
            forall|i: int| 0 <= i < n && taken@[i] ==> keep@.contains(#[trigger] dets@[i])
                || exists|k: int|
                0 <= k < keep@.len() && keep@[k].score >= dets@[i].score
                    && spec_iou(keep@[k].bbox, dets@[i].bbox) > iou_threshold,
            forall|i: int| 0 <= i < n && !taken@[i] && keep@.len() > 0
                ==> keep@.last().score >= dets@[i].score,
            forall|k: int, i: int| 0 <= k < keep@.len() && 0 <= i < n && !taken@[i]
                ==> spec_iou(keep@[k].bbox, dets@[i].bbox) <= iou_threshold,
            forall|i: int| 0 <= i < n && keep@.len() > 0 ==> keep@[0].score >= dets@[i].score,
        ensures
            forall|i: int| 0 <= i < n ==> taken@[i],
        decreases count_false(taken@),
    {
        let picked = find_best(dets, &taken);
        match picked {
            None => {
                break;
            },
            Some(b) => {
                let ghost taken0 = taken@;
                let ghost count0 = count_false(taken@);
                let ghost keep0 = keep@;
                proof {
                    // The pick overlaps every earlier kept detection by at
                    // most the threshold, and scores at least as high as
                    // every remaining detection.
                    assert(forall|k: int| 0 <= k < keep@.len()
                        ==> spec_iou(keep@[k].bbox, dets@[b as int].bbox) <= iou_threshold);
                }
                taken.set(b, true);
                proof {
                    lemma_count_false_update_true(taken0, b as int);
                }
                let chosen = dets[b];
                keep.push(chosen);
                let ghost kl = keep@.len() - 1;
                proof {
                    assert(keep@[kl] == dets@[b as int]);
                    assert(forall|k: int| 0 <= k < kl ==> keep@[k] == keep0[k]);
                    assert(sorted_desc(keep@)) by {
                        assert(forall|i: int| 0 <= i < kl ==> keep@[i].score >= keep@[kl].score);
                    }
                }
                let mut j: usize = 0;
                while j < n
                    invariant
                        n == dets@.len(),
                        taken@.len() == n,
                        all_bounded(dets@),
                        sorted_desc(keep@),
                        all_bounded(keep@),
                        j <= n,
                        0 <= kl < keep@.len(),
                        kl == keep@.len() - 1,
                        chosen == keep@[kl],
                        chosen.bounded(),
                        keep@.len() + count_false(taken@) <= n,
                        iou_threshold >= ONE ==> keep@.len() + count_false(taken@) == n,
                        count_false(taken@) <= count0 - 1,
                        forall|k: int| 0 <= k < keep@.len() ==> dets@.contains(#[trigger] keep@[k]),
                        forall|k: int, l: int| 0 <= k < l < keep@.len()
                            ==> spec_iou(keep@[k].bbox, keep@[l].bbox) <= iou_threshold,
                        forall|i: int| 0 <= i < n && taken@[i]
                            ==> keep@.contains(#[trigger] dets@[i]) || exists|k: int|
                            0 <= k < keep@.len() && keep@[k].score >= dets@[i].score
                                && spec_iou(keep@[k].bbox, dets@[i].bbox) > iou_threshold,
                        forall|i: int| 0 <= i < n && !taken@[i]
                            ==> keep@.last().score >= dets@[i].score,
                        forall|k: int, i: int| 0 <= k < kl && 0 <= i < n && !taken@[i]
                            ==> spec_iou(keep@[k].bbox, dets@[i].bbox) <= iou_threshold,
                        forall|i: int| 0 <= i < n && !taken@[i] && i < j
                            ==> spec_iou(keep@[kl].bbox, dets@[i].bbox) <= iou_threshold,
                        forall|i: int| 0 <= i < n ==> keep@[0].score >= dets@[i].score,
                    decreases n - j,
                {
                    if !taken[j] {
                        assert(dets@[j as int].bounded());
                        let ov = compute_iou(&chosen.bbox, &dets[j].bbox);
                        if ov > iou_threshold {
                            let ghost taken1 = taken@;
                            taken.set(j, true);
                            proof {
                                lemma_count_false_update_true(taken1, j as int);
                                // The freshly kept detection witnesses the
                                // suppression of detection j.
                                assert(keep@[kl].score >= dets@[j as int].score);
                                assert(spec_iou(keep@[kl].bbox, dets@[j as int].bbox)
                                    > iou_threshold);
                            }
                        }
                    }
                    j = j + 1;
                }
            },
        }
    }
    proof {
        if n > 0 && keep@.len() == 0 {
            assert(!taken@[0]);
        }
        lemma_count_false_all_true(taken@);
    }
    keep
}

} // verus!
