//! The scan/decision loop's state: repeated frame attempts under a fixed
//! attempt budget, driven by the surrounding workflow which owns the camera
//! and the inference engine.
//!
//! The loop around these types performs one full pipeline pass per frame and
//! reports the outcome as a [`ScanEvent`]; per-frame failures are expected
//! and only consume budget.  All decisions — what to keep, when to stop,
//! what the terminal state is — live here and are verified.

use vstd::prelude::*;

verus! {

/// One frame's outcome, reported by the surrounding loop: capture failure,
/// a pass that found no face, or a face with its score and embedding.  For
/// an authentication scan the score is the best match score of the frame.
pub enum ScanEvent {
    FrameFailed,
    NoFace,
    Face { score: i64, embedding: Vec<i64> },
}

/// The state of a scan: still running, or one of the three terminal states.
#[derive(Clone, Copy, Debug, PartialEq, Eq, Structural)]
pub enum ScanStatus {
    /// More attempts remain and no terminal condition was hit.
    Scanning,
    /// Enrollment: a high-confidence face ended the scan early.
    /// Authentication: a frame matched at or above the threshold.
    Success,
    /// The budget ran out: enrollment with nothing usable, authentication
    /// without a match.
    Failure,
    /// Enrollment only: the budget ran out but a best face was collected.
    Exhausted,
}

/// The updated best candidate: a face event replaces the best exactly when
/// it scores strictly higher, or when nothing was collected yet.
pub open spec fn spec_enroll_best(
    best: Option<(i64, Vec<i64>)>,
    event: ScanEvent,
) -> Option<(i64, Vec<i64>)> {
    match event {
        ScanEvent::Face { score, embedding } => match best {
            Some(p) => if score > p.0 {
                Some((score, embedding))
            } else {
                best
            },
            None => Some((score, embedding)),
        },
        _ => best,
    }
}

/// An enrollment scan: collects the highest-scoring face over the budget,
/// stopping early once a score passes the high-confidence cutoff.  The best
/// frame is picked purely by detector confidence.
pub struct EnrollScan {
    pub attempts_left: u32,
    pub cutoff: i64,
    pub best: Option<(i64, Vec<i64>)>,
    pub status: ScanStatus,
}

impl EnrollScan {
    /// While scanning, budget remains and no collected score has passed the
    /// cutoff yet.
    pub open spec fn wf(self) -> bool {
        &&& self.status is Scanning ==> self.attempts_left > 0
        &&& self.status is Scanning ==> match self.best {
            Some(p) => p.0 <= self.cutoff,
            None => true,
        }
    }

    pub fn new(max_attempts: u32, cutoff: i64) -> (s: Self)
        requires
            max_attempts > 0,
        ensures
            s.attempts_left == max_attempts,
            s.cutoff == cutoff,
            s.best is None,
            s.status is Scanning,
            s.wf(),
    {
        EnrollScan { attempts_left: max_attempts, cutoff, best: None, status:
            ScanStatus::Scanning }
    }

    /// Consumes one attempt: keeps the better of the collected and the new
    /// face; ends in `Success` the moment a score passes the cutoff, in
    /// `Exhausted` when the budget runs out with a face collected, and in
    /// `Failure` when it runs out with none.
    pub fn step(&mut self, event: ScanEvent)
        requires
            old(self).status is Scanning,
            old(self).wf(),
        ensures
            final(self).cutoff == old(self).cutoff,
            final(self).attempts_left == old(self).attempts_left - 1,
            final(self).best == spec_enroll_best(old(self).best, event),
            final(self).status == (if final(self).best matches Some(p) && p.0
                > old(self).cutoff {
                ScanStatus::Success
            } else if old(self).attempts_left == 1 {
                if final(self).best is Some {
                    ScanStatus::Exhausted
                } else {
                    ScanStatus::Failure
                }
            } else {
                ScanStatus::Scanning
            }),
            final(self).wf(),
    {
        self.attempts_left = self.attempts_left - 1;
        match event {
            ScanEvent::Face { score, embedding } => {
                let replace = match &self.best {
                    Some(p) => score > p.0,
                    None => true,
                };
                if replace {
                    self.best = Some((score, embedding));
                }
            },
            _ => {},
        }
        let passed = match &self.best {
            Some(p) => p.0 > self.cutoff,
            None => false,
        };
        if passed {
            self.status = ScanStatus::Success;
        } else if self.attempts_left == 0 {
            if self.best.is_some() {
                self.status = ScanStatus::Exhausted;
            } else {
                self.status = ScanStatus::Failure;
            }
        }
    }
}

/// An authentication scan: succeeds the moment a frame's best match score
/// reaches the threshold, fails when the budget runs out without one.
pub struct AuthScan {
    pub attempts_left: u32,
    pub threshold: i64,
    pub status: ScanStatus,
}

impl AuthScan {
    pub open spec fn wf(self) -> bool {
        self.status is Scanning ==> self.attempts_left > 0
    }

    pub fn new(max_attempts: u32, threshold: i64) -> (s: Self)
        requires
            max_attempts > 0,
        ensures
            s.attempts_left == max_attempts,
            s.threshold == threshold,
            s.status is Scanning,
            s.wf(),
    {
        AuthScan { attempts_left: max_attempts, threshold, status: ScanStatus::Scanning }
    }

    /// Consumes one attempt: `Success` exactly when the event carries a
    /// score at or above the threshold; `Failure` when the budget runs out
    /// without one; otherwise the scan goes on.
    pub fn step(&mut self, event: &ScanEvent)
        requires
            old(self).status is Scanning,
            old(self).wf(),
        ensures
            final(self).threshold == old(self).threshold,
            final(self).attempts_left == old(self).attempts_left - 1,
            final(self).status == (if event matches ScanEvent::Face { score, .. } && score
                >= old(self).threshold {
                ScanStatus::Success
            } else if old(self).attempts_left == 1 {
                ScanStatus::Failure
            } else {
                ScanStatus::Scanning
            }),
            final(self).wf(),
    {
        self.attempts_left = self.attempts_left - 1;
        let matched = match event {
            ScanEvent::Face { score, .. } => *score >= self.threshold,
            _ => false,
        };
        if matched {
            self.status = ScanStatus::Success;
        } else if self.attempts_left == 0 {
            self.status = ScanStatus::Failure;
        }
    }
}

} // verus!
