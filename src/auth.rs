//! The authentication decision, as steps that the caller drives: check the
//! failure counter, look up the profile, capture frames, then conclude.
use vstd::prelude::*;
use crate::limiter::{CounterUpdate, LimiterState, MAX_ATTEMPTS, attempts_of, state_of, updated};
use crate::similarity::{
    SCORE_SCALE,
    all_equal_to,
    batch_score_of,
    compare_templates_batch,
    lemma_identical_batches_score_full,
    spread,
    templates_fit,
};

verus! {

/// Acceptance threshold, in units of `SCORE_SCALE` (0.65).
pub const ACCEPT_THRESHOLD: u32 = 6500;

/// How an authentication attempt ended.
#[derive(Debug, PartialEq, Eq, Structural)]
pub enum AuthOutcome {
    /// The live capture matched; `confidence` is the batch score.
    Success { confidence: u32 },
    /// The live capture did not match; `confidence` is the batch score.
    Failure { confidence: u32 },
    /// Too many failures in a row: refused without capturing.
    Blocked,
    /// The user has no usable profile.
    ProfileNotFound,
    /// No captured frame gave a template.
    CaptureFailed,
}

/// What the caller must do next.
#[derive(Debug, PartialEq, Eq, Structural)]
pub enum AuthStep {
    /// Load the user's profile and report whether it was found.
    LoadProfile,
    /// Capture a batch of live frames and turn them into templates.
    CaptureFrames,
    /// The attempt is over: update the stored counter and report the outcome.
    Finish(AuthOutcome, CounterUpdate),
}

pub open spec fn begin_step(attempts: i32) -> AuthStep {
    if state_of(attempts) == LimiterState::Blocked {
        AuthStep::Finish(AuthOutcome::Blocked, CounterUpdate::Remove)
    } else {
        AuthStep::LoadProfile
    }
}

pub open spec fn profile_step(found: bool) -> AuthStep {
    if found {
        AuthStep::CaptureFrames
    } else {
        AuthStep::Finish(AuthOutcome::ProfileNotFound, CounterUpdate::Keep)
    }
}

pub open spec fn conclude_step(attempts: i32, live: Seq<Vec<u8>>, stored: Seq<Vec<u8>>) -> AuthStep {
    let score = batch_score_of(live, stored);
    if live.len() == 0 {
        AuthStep::Finish(AuthOutcome::CaptureFailed, CounterUpdate::Keep)
    } else if score >= ACCEPT_THRESHOLD {
        AuthStep::Finish(AuthOutcome::Success { confidence: score as u32 }, CounterUpdate::Remove)
    } else {
        AuthStep::Finish(
            AuthOutcome::Failure { confidence: score as u32 },
            CounterUpdate::Store((attempts + 1) as i32),
        )
    }
}

/// First step: a user at the failure limit is refused at once and the counter
/// is cleared; anyone else goes on to the profile lookup.
pub fn begin_authentication(attempts: i32) -> (r: AuthStep)
    ensures
        r == begin_step(attempts),
{
    if attempts >= MAX_ATTEMPTS {
        AuthStep::Finish(AuthOutcome::Blocked, CounterUpdate::Remove)
    } else {
        AuthStep::LoadProfile
    }
}

/// Second step: without a profile the attempt ends and nothing is charged.
pub fn after_profile_lookup(found: bool) -> (r: AuthStep)
    ensures
        r == profile_step(found),
{
    if found {
        AuthStep::CaptureFrames
    } else {
        AuthStep::Finish(AuthOutcome::ProfileNotFound, CounterUpdate::Keep)
    }
}

/// Last step: scores the live templates against the enrolled ones. A score at
/// or above the threshold succeeds and clears the counter; below it the
/// attempt fails and the counter goes up by one.
pub fn conclude_authentication(attempts: i32, live: &[Vec<u8>], stored: &[Vec<u8>]) -> (r: AuthStep)
    requires
        attempts < MAX_ATTEMPTS,
        templates_fit(live@),
    ensures
        r == conclude_step(attempts, live@, stored@),
{
    if live.len() == 0 {
        return AuthStep::Finish(AuthOutcome::CaptureFailed, CounterUpdate::Keep);
    }
    let score = compare_templates_batch(live, stored);
    if score >= ACCEPT_THRESHOLD {
        AuthStep::Finish(AuthOutcome::Success { confidence: score }, CounterUpdate::Remove)
    } else {
        AuthStep::Finish(AuthOutcome::Failure { confidence: score }, CounterUpdate::Store(attempts + 1))
    }
}

/// The counter update that a finished step carries; `Keep` for the others.
pub open spec fn update_of(s: AuthStep) -> CounterUpdate {
    match s {
        AuthStep::Finish(_, u) => u,
        _ => CounterUpdate::Keep,
    }
}

/// Starting with no record, three attempts in a row whose live batches score
/// below the threshold each go through to a capture and leave the counter at 3,
/// which is the blocked state; the attempt after that is refused before the
/// profile or the camera is consulted, and it deletes the record.
pub proof fn lemma_three_failures_lock_out(
    live1: Seq<Vec<u8>>,
    live2: Seq<Vec<u8>>,
    live3: Seq<Vec<u8>>,
    stored: Seq<Vec<u8>>,
)
    requires
        live1.len() > 0 && batch_score_of(live1, stored) < ACCEPT_THRESHOLD,
        live2.len() > 0 && batch_score_of(live2, stored) < ACCEPT_THRESHOLD,
        live3.len() > 0 && batch_score_of(live3, stored) < ACCEPT_THRESHOLD,
    ensures
        ({
            let r0: Option<i32> = None;
            let r1 = updated(r0, update_of(conclude_step(attempts_of(r0), live1, stored)));
            let r2 = updated(r1, update_of(conclude_step(attempts_of(r1), live2, stored)));
            let r3 = updated(r2, update_of(conclude_step(attempts_of(r2), live3, stored)));
            &&& begin_step(attempts_of(r0)) == AuthStep::LoadProfile
            &&& begin_step(attempts_of(r1)) == AuthStep::LoadProfile
            &&& begin_step(attempts_of(r2)) == AuthStep::LoadProfile
            &&& r3 == Some(3i32)
            &&& state_of(attempts_of(r3)) == LimiterState::Blocked
            &&& begin_step(attempts_of(r3)) == AuthStep::Finish(AuthOutcome::Blocked, CounterUpdate::Remove)
            &&& updated(r3, CounterUpdate::Remove) is None
        }),
{
}

/// An attempt that goes through and scores at or above the threshold deletes
/// the counter record, whatever it held before the limit was reached.
pub proof fn lemma_success_clears_record(record: Option<i32>, live: Seq<Vec<u8>>, stored: Seq<Vec<u8>>)
    requires
        attempts_of(record) < MAX_ATTEMPTS,
        live.len() > 0,
        batch_score_of(live, stored) >= ACCEPT_THRESHOLD,
    ensures
        begin_step(attempts_of(record)) == AuthStep::LoadProfile,
        updated(record, update_of(conclude_step(attempts_of(record), live, stored))) is None,
{
}

/// A missing profile ends the attempt without touching the counter record.
pub proof fn lemma_missing_profile_charges_nothing(record: Option<i32>)
    ensures
        updated(record, update_of(profile_step(false))) == record,
        profile_step(false) == AuthStep::Finish(AuthOutcome::ProfileNotFound, CounterUpdate::Keep),
{
}

/// Presenting again the templates of an enrollment whose captures all gave the
/// same non-flat template succeeds with full confidence and deletes the record.
pub proof fn lemma_same_templates_succeed(
    record: Option<i32>,
    live: Seq<Vec<u8>>,
    stored: Seq<Vec<u8>>,
    t: Seq<u8>,
)
    requires
        attempts_of(record) < MAX_ATTEMPTS,
        live.len() > 0,
        stored.len() > 0,
        all_equal_to(live, t),
        all_equal_to(stored, t),
        spread(t) != 0,
    ensures
        conclude_step(attempts_of(record), live, stored) == AuthStep::Finish(
            AuthOutcome::Success { confidence: SCORE_SCALE },
            CounterUpdate::Remove,
        ),
        updated(record, update_of(conclude_step(attempts_of(record), live, stored))) is None,
{
    lemma_identical_batches_score_full(live, stored, t);
}

} // verus!
