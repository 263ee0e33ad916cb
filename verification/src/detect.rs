//! The detection post-processing chain: raw inference outputs to final
//! detections in original-image pixels.
//!
//! One call runs validation and score fusion, the sigmoid activation, the
//! anchor-free grid decode, the unmapping out of letterbox space, and —
//! below the pass-through threshold — non-maximum suppression, all of it
//! verified end to end against the stage specifications.

use vstd::prelude::*;
use crate::fixed::{ONE, qmul};
use crate::types::{RawDetection, Detection, VAL_LIMIT, COORD_LIMIT};
use crate::decode::{
    spec_sigmoid, spec_count, outputs_valid, data_bounded, spec_scale_dets,
    spec_all_dets, parse_yunet_outputs, apply_sigmoid_to_scores, decode_detections,
};
use crate::preprocess::LetterboxParams;
use crate::remap::{spec_unmap_det, unmap_detections};
use crate::nms::{nms, spec_iou, sorted_desc, all_bounded};
use crate::VisionError;

verus! {

/// The activated score map of scale `s`: classification times objectness,
/// then the sigmoid, per grid cell.
pub open spec fn spec_sig_scale(
    outputs: Seq<(Vec<i64>, Vec<i64>)>,
    input_size: int,
    s: int,
) -> Seq<i64> {
    Seq::new(spec_count(input_size, s) as nat, |i: int| spec_sigmoid(qmul(
        outputs[s].1@[i] as int, outputs[s + 3].1@[i] as int)) as i64)
}

/// Every detection the decoder produces from the raw outputs, in scale and
/// grid order, in normalized canvas coordinates.
pub open spec fn spec_detect_raw(
    outputs: Seq<(Vec<i64>, Vec<i64>)>,
    input_size: int,
    thr: int,
) -> Seq<RawDetection> {
    spec_all_dets(
        seq![
            spec_sig_scale(outputs, input_size, 0),
            spec_sig_scale(outputs, input_size, 1),
            spec_sig_scale(outputs, input_size, 2),
        ],
        seq![outputs[6].1@, outputs[7].1@, outputs[8].1@],
        seq![outputs[9].1@, outputs[10].1@, outputs[11].1@],
        input_size,
        thr,
    )
}

/// The same detections mapped back to original-image pixels.
pub open spec fn spec_detect_unmapped(
    outputs: Seq<(Vec<i64>, Vec<i64>)>,
    p: LetterboxParams,
    thr: int,
) -> Seq<Detection> {
    spec_detect_raw(outputs, p.size as int, thr).map_values(
        |d: RawDetection| spec_unmap_det(d, p))
}

/// Every score of a decoded scale is one of the score map's values.
proof fn lemma_scale_dets_score_bounded(
    cls: Seq<i64>,
    bb: Seq<i64>,
    lm: Seq<i64>,
    fs: int,
    stride: int,
    input_size: int,
    thr: int,
    n: int,
    m: int,
)
    requires
        data_bounded(cls, m),
        n <= cls.len(),
    ensures
        forall|k: int| 0 <= k < spec_scale_dets(cls, bb, lm, fs, stride, input_size, thr,
            n).len() ==> -m <= (#[trigger] spec_scale_dets(cls, bb, lm, fs, stride,
            input_size, thr, n)[k]).score <= m,
    decreases n,
{
    if n > 0 {
        lemma_scale_dets_score_bounded(cls, bb, lm, fs, stride, input_size, thr, n - 1, m);
        let pre = spec_scale_dets(cls, bb, lm, fs, stride, input_size, thr, n - 1);
        let s = spec_scale_dets(cls, bb, lm, fs, stride, input_size, thr, n);
        if cls[n - 1] >= thr {
            assert(-m <= cls[n - 1] <= m);
            assert(s == pre.push(crate::decode::spec_cell_det(cls, bb, lm, fs, stride,
                input_size, n - 1)));
            assert forall|k: int| 0 <= k < s.len() implies -m <= (#[trigger] s[k]).score
                <= m by {
                if k < pre.len() {
                    assert(s[k] == pre[k]);
                } else {
                    assert(s[k].score == cls[n - 1]);
                }
            }
        }
    }
}

/// Runs the whole post-inference pipeline on the detector's raw outputs:
/// twelve-tensor validation, multiply-then-sigmoid score fusion, anchor-free
/// decoding against the score threshold, unmapping into original-image
/// pixels, and non-maximum suppression.  A suppression threshold of `ONE`
/// or more disables suppression and passes the unmapped detections through
/// unchanged; below it, the result is in descending score order, keeps the
/// highest-scoring detection, kept pairs overlap at most the threshold, and
/// every decoded detection is either kept or suppressed by a kept one of
/// equal or higher score.
pub fn detect_postprocess(
    outputs: &Vec<(Vec<i64>, Vec<i64>)>,
    params: &LetterboxParams,
    score_threshold: i64,
    nms_threshold: i64,
) -> (r: Result<Vec<Detection>, VisionError>)
    requires
        params.wf(),
        forall|t: int| 0 <= t < outputs@.len()
            ==> data_bounded((#[trigger] outputs@[t]).1@, VAL_LIMIT as int),
    ensures
        r is Ok <==> outputs_valid(outputs@, params.size as int),
        r is Err ==> r == Result::<Vec<Detection>, VisionError>::Err(VisionError::DecodeError),
        r matches Ok(dets) ==> ({
            let u = spec_detect_unmapped(outputs@, *params, score_threshold as int);
            &&& all_bounded(dets@)
            &&& nms_threshold >= ONE ==> dets@ == u
            &&& nms_threshold < ONE ==> {
                &&& sorted_desc(dets@)
                &&& dets@.len() <= u.len()
                &&& u.len() > 0 ==> dets@.len() > 0
                &&& forall|k: int| 0 <= k < dets@.len() ==> u.contains(#[trigger] dets@[k])
                &&& forall|k: int, l: int| 0 <= k < l < dets@.len()
                    ==> spec_iou(dets@[k].bbox, dets@[l].bbox) <= nms_threshold
                &&& forall|i: int| 0 <= i < u.len() ==> dets@.contains(#[trigger] u[i])
                    || exists|k: int|
                    0 <= k < dets@.len() && dets@[k].score >= u[i].score
                        && spec_iou(dets@[k].bbox, u[i].bbox) > nms_threshold
                &&& u.len() > 0 ==> forall|i: int| 0 <= i < u.len()
                    ==> dets@[0].score >= u[i].score
            }
        }),
{
    let size = params.size;
    let parsed = match parse_yunet_outputs(outputs, size) {
        Ok(t) => t,
        Err(e) => {
            return Err(e);
        },
    };
    let (mut cls, bb, lm) = parsed;
    apply_sigmoid_to_scores(&mut cls);
    proof {
        assert(cls.deep_view() =~~= seq![
            spec_sig_scale(outputs@, size as int, 0),
            spec_sig_scale(outputs@, size as int, 1),
            spec_sig_scale(outputs@, size as int, 2),
        ]);
        assert(bb.deep_view() =~~= seq![outputs@[6].1@, outputs@[7].1@, outputs@[8].1@]);
        assert(lm.deep_view() =~~= seq![outputs@[9].1@, outputs@[10].1@, outputs@[11].1@]);
    }
    let raw = match decode_detections(cls, bb, lm, score_threshold, size) {
        Ok(d) => d,
        Err(_) => {
            proof {
                // The decoder cannot reject shapes that validation above
                // just accepted.
                assert(false);
            }
            return Err(VisionError::DecodeError);
        },
    };
    proof {
        assert(raw@ == spec_detect_raw(outputs@, size as int, score_threshold as int));
        let sig0 = spec_sig_scale(outputs@, size as int, 0);
        let sig1 = spec_sig_scale(outputs@, size as int, 1);
        let sig2 = spec_sig_scale(outputs@, size as int, 2);
        lemma_scale_dets_score_bounded(sig0, outputs@[6].1@, outputs@[9].1@,
            size as int / 8, 8, size as int, score_threshold as int, sig0.len() as int,
            ONE as int);
        lemma_scale_dets_score_bounded(sig1, outputs@[7].1@, outputs@[10].1@,
            size as int / 16, 16, size as int, score_threshold as int, sig1.len() as int,
            ONE as int);
        lemma_scale_dets_score_bounded(sig2, outputs@[8].1@, outputs@[11].1@,
            size as int / 32, 32, size as int, score_threshold as int, sig2.len() as int,
            ONE as int);
        assert(forall|k: int| 0 <= k < raw@.len() ==> -COORD_LIMIT
            <= (#[trigger] raw@[k]).score <= COORD_LIMIT);
    }
    let dets = unmap_detections(&raw, params);
    proof {
        assert(dets@ == spec_detect_unmapped(outputs@, *params, score_threshold as int));
    }
    if nms_threshold < ONE {
        Ok(nms(&dets, nms_threshold))
    } else {
        Ok(dets)
    }
}

/// The index of the best detection: the highest score, and among equals the
/// latest, as the selection in the recognition pipeline picks it.  An empty
/// detection list is the recoverable no-face error.
pub fn select_best_detection(dets: &Vec<Detection>) -> (r: Result<usize, VisionError>)
    ensures
        r is Err <==> dets@.len() == 0,
        r is Err ==> r == Result::<usize, VisionError>::Err(VisionError::NoFaceError),
        r matches Ok(b) ==> {
            &&& b < dets@.len()
            &&& forall|k: int| 0 <= k < dets@.len() ==> dets@[b as int].score
                >= (#[trigger] dets@[k]).score
            &&& forall|k: int| b < k < dets@.len() ==> dets@[b as int].score
                > (#[trigger] dets@[k]).score
        },
{
    if dets.len() == 0 {
        return Err(VisionError::NoFaceError);
    }
    let n = dets.len();
    let mut best: usize = 0;
    let mut i: usize = 1;
    while i < n
        invariant
            n == dets@.len(),
            best < i <= n,
            forall|k: int| 0 <= k < i ==> dets@[best as int].score
                >= (#[trigger] dets@[k]).score,
            forall|k: int| best < k < i ==> dets@[best as int].score
                > (#[trigger] dets@[k]).score,
        decreases n - i,
    {
        if dets[i].score >= dets[best].score {
            best = i;
        }
        i = i + 1;
    }
    Ok(best)
}

} // verus!
