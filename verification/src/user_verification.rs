//! The user-verification policy: lockout check, optional face verification
//! that falls back to PAM, and the lockout bookkeeping of each outcome.
//!
//! The waiting (camera, PAM conversation, timeouts, cancellation) happens
//! outside the library; the decisions are made here, one step at a time.

use vstd::prelude::*;
use crate::lockout::{LockoutTracker, LockoutState, failure_step, success_step, remaining_lockout};

verus! {

/// CTAP2 errors that user verification and attestation can end with.
#[derive(Debug, PartialEq, Eq)]
pub enum Ctap2Error {
    /// Verification is locked out after repeated failures.
    PinAuthBlocked,
    /// The client cancelled the operation.
    KeepaliveCancel,
    /// The user did not answer in time.
    UserActionTimeout,
    /// Verification failed or could not be carried out.
    OperationDenied,
    /// Encoding a CBOR structure failed.
    Cbor(String),
}

/// Token standing for a successful user verification. The verification
/// steps (`conclude_face`, `conclude_pam`) hand one out only after a
/// successful face or PAM verification; `test_only` makes one for tests.
pub struct UserPresenceProof {
    _private: (),
}

impl UserPresenceProof {
    /// A proof for use in tests.
    pub fn test_only() -> Self {
        UserPresenceProof { _private: () }
    }
}

/// Seconds allowed for a face verification attempt.
pub const FACE_TIMEOUT_SECS: u64 = 8;
/// Seconds allowed for the PAM conversation.
pub const PAM_TIMEOUT_SECS: u64 = 60;
/// Milliseconds between keepalive messages while PAM runs.
pub const KEEPALIVE_INTERVAL_MS: u64 = 100;
/// Keepalive status sent while waiting for the user ("user presence needed").
pub const KEEPALIVE_STATUS_UP_NEEDED: u8 = 0x02;

/// How a verification attempt starts.
#[derive(Debug, Clone, Copy, PartialEq, Eq, Structural)]
pub enum UvStart {
    /// Locked out: fail with `PinAuthBlocked` without trying anything.
    Blocked,
    /// Try face verification first (within `FACE_TIMEOUT_SECS`).
    TryFace,
    /// Go straight to PAM.
    RunPam,
}

/// How a face verification attempt ended.
#[derive(Debug, Clone, Copy, PartialEq, Eq, Structural)]
pub enum FaceOutcome {
    /// The face was live and matched an enrolled model.
    Verified,
    /// Verification returned an error (no match, no face, camera failure...).
    Rejected,
    /// Verification panicked.
    Panicked,
    /// The blocking task could not be joined.
    JoinFailed,
    /// The attempt did not finish within `FACE_TIMEOUT_SECS`.
    TimedOut,
}

/// How the PAM conversation ended.
#[derive(Debug, Clone, Copy, PartialEq, Eq, Structural)]
pub enum PamOutcome {
    /// PAM authenticated the user.
    Authenticated,
    /// PAM refused or failed.
    Failed,
    /// The blocking task could not be joined.
    JoinFailed,
    /// The conversation did not finish within `PAM_TIMEOUT_SECS`.
    TimedOut,
}

/// How an attempt starts, given the lockout state at `now`.
pub open spec fn start_decision(s: LockoutState, now: u64, face_available: bool, cancelled: bool) -> UvStart {
    if remaining_lockout(s, now) is Some {
        UvStart::Blocked
    } else if face_available && !cancelled {
        UvStart::TryFace
    } else {
        UvStart::RunPam
    }
}

/// The lockout state after a face attempt: a success clears it, any failure
/// leaves it as it was (face failures never count toward lockout).
pub open spec fn face_lockout(s: LockoutState, outcome: FaceOutcome) -> LockoutState {
    if outcome is Verified { success_step(s) } else { s }
}

/// The verdict of the PAM step (`Ok(())` stands for a proof).
pub open spec fn pam_verdict(cancelled: bool, outcome: PamOutcome) -> Result<(), Ctap2Error> {
    if cancelled {
        Err(Ctap2Error::KeepaliveCancel)
    } else {
        match outcome {
            PamOutcome::Authenticated => Ok(()),
            PamOutcome::Failed => Err(Ctap2Error::OperationDenied),
            PamOutcome::JoinFailed => Err(Ctap2Error::OperationDenied),
            PamOutcome::TimedOut => Err(Ctap2Error::UserActionTimeout),
        }
    }
}

/// The lockout state after the PAM step ended at `now`: a cancellation
/// leaves it alone, a success clears it, anything else is a failure.
pub open spec fn pam_lockout(s: LockoutState, now: u64, cancelled: bool, outcome: PamOutcome) -> LockoutState {
    if cancelled {
        s
    } else if outcome is Authenticated {
        success_step(s)
    } else {
        failure_step(s, now)
    }
}

/// Decides how a verification attempt starts at time `now` (nanoseconds on
/// the tracker's clock): blocked while locked out, face first when a face
/// verifier is configured and the operation is not cancelled, PAM otherwise.
pub fn start_verification(lockout: &LockoutTracker, now: u64, face_available: bool, cancelled: bool) -> (r: UvStart)
    ensures
        r == start_decision(lockout@, now, face_available, cancelled),
        (r is Blocked) <==> (lockout@.locked_until matches Some(u) && now < u),
        !(r is Blocked) ==> ((r is TryFace) <==> (face_available && !cancelled)),
{
    if lockout.check_locked_at(now).is_some() {
        UvStart::Blocked
    } else if face_available && !cancelled {
        UvStart::TryFace
    } else {
        UvStart::RunPam
    }
}

/// Concludes a face attempt: on success the lockout is cleared and a proof
/// is returned; on any failure nothing changes and PAM comes next (`None`).
pub fn conclude_face(lockout: &mut LockoutTracker, outcome: FaceOutcome) -> (r: Option<UserPresenceProof>)
    ensures
        r is Some <==> outcome is Verified,
        final(lockout)@ == face_lockout(old(lockout)@, outcome),
        !(outcome is Verified) ==> final(lockout)@ == old(lockout)@,
        outcome is Verified ==> final(lockout)@.failures == 0 && final(lockout)@.locked_until is None,
{
    match outcome {
        FaceOutcome::Verified => {
            lockout.record_success();
            Some(UserPresenceProof { _private: () })
        },
        _ => None,
    }
}

/// Concludes the PAM step that ended at `now`: a cancellation wins over any
/// outcome; a success clears the lockout and yields a proof; a timeout or a
/// failure counts toward lockout.
pub fn conclude_pam(lockout: &mut LockoutTracker, now: u64, cancelled: bool, outcome: PamOutcome) -> (r: Result<UserPresenceProof, Ctap2Error>)
    requires
        !cancelled && !(outcome is Authenticated) ==> old(lockout)@.failures < u32::MAX,
    ensures
        match (r, pam_verdict(cancelled, outcome)) {
            (Ok(_), Ok(_)) => true,
            (Err(e), Err(f)) => e == f,
            _ => false,
        },
        final(lockout)@ == pam_lockout(old(lockout)@, now, cancelled, outcome),
        cancelled ==> (r matches Err(Ctap2Error::KeepaliveCancel)) && final(lockout)@ == old(lockout)@,
        !cancelled && outcome is Authenticated ==> r is Ok && final(lockout)@.failures == 0
            && final(lockout)@.locked_until is None,
        !cancelled && outcome is TimedOut ==> r matches Err(Ctap2Error::UserActionTimeout),
        !cancelled && (outcome is Failed || outcome is JoinFailed) ==> r matches Err(
            Ctap2Error::OperationDenied,
        ),
        !cancelled && !(outcome is Authenticated) ==> {
            &&& final(lockout)@.failures == old(lockout)@.failures + 1
            &&& final(lockout)@.locked_until == if old(lockout)@.failures + 1 >= old(lockout)@.max_failures {
                Some(now + old(lockout)@.lockout)
            } else {
                old(lockout)@.locked_until
            }
        },
{
    if cancelled {
        return Err(Ctap2Error::KeepaliveCancel);
    }
    match outcome {
        PamOutcome::TimedOut => {
            lockout.record_failure_at(now);
            Err(Ctap2Error::UserActionTimeout)
        },
        PamOutcome::JoinFailed => {
            lockout.record_failure_at(now);
            Err(Ctap2Error::OperationDenied)
        },
        PamOutcome::Authenticated => {
            lockout.record_success();
            Ok(UserPresenceProof { _private: () })
        },
        PamOutcome::Failed => {
            lockout.record_failure_at(now);
            Err(Ctap2Error::OperationDenied)
        },
    }
}


/// One whole verification attempt, step by step: the start decision at
/// `t_start`, the face attempt when it is tried, and the PAM step that ends
/// at `t_end` when it is reached. Yields the verdict (`Ok(())` stands for a
/// proof) and the lockout state afterwards.
pub open spec fn verification_attempt(
    s: LockoutState,
    t_start: u64,
    face_available: bool,
    cancelled_at_start: bool,
    face: FaceOutcome,
    t_end: u64,
    cancelled_after_pam: bool,
    pam: PamOutcome,
) -> (Result<(), Ctap2Error>, LockoutState) {
    match start_decision(s, t_start, face_available, cancelled_at_start) {
        UvStart::Blocked => (Err(Ctap2Error::PinAuthBlocked), s),
        UvStart::TryFace => if face is Verified {
            (Ok(()), face_lockout(s, face))
        } else {
            let after_face = face_lockout(s, face);
            (
                pam_verdict(cancelled_after_pam, pam),
                pam_lockout(after_face, t_end, cancelled_after_pam, pam),
            )
        },
        UvStart::RunPam => (
            pam_verdict(cancelled_after_pam, pam),
            pam_lockout(s, t_end, cancelled_after_pam, pam),
        ),
    }
}

/// Law: while locked out, an attempt is refused with `PinAuthBlocked`
/// before anything is tried, and the lockout state stays as it was.
pub proof fn lemma_locked_out_attempt_refused(
    s: LockoutState,
    t_start: u64,
    face_available: bool,
    cancelled_at_start: bool,
    face: FaceOutcome,
    t_end: u64,
    cancelled_after_pam: bool,
    pam: PamOutcome,
)
    requires
        remaining_lockout(s, t_start) is Some,
    ensures
        verification_attempt(s, t_start, face_available, cancelled_at_start, face, t_end, cancelled_after_pam, pam)
            == (Err::<(), Ctap2Error>(Ctap2Error::PinAuthBlocked), s),
{
}

/// Law: a proof is issued only when the attempt was not locked out and either
/// the face attempt was made and verified, or PAM authenticated the user
/// without the operation being cancelled; and a proof always clears the
/// failure count and any lockout.
pub proof fn lemma_proof_only_after_verification(
    s: LockoutState,
    t_start: u64,
    face_available: bool,
    cancelled_at_start: bool,
    face: FaceOutcome,
    t_end: u64,
    cancelled_after_pam: bool,
    pam: PamOutcome,
)
    requires
        verification_attempt(s, t_start, face_available, cancelled_at_start, face, t_end, cancelled_after_pam, pam).0 is Ok,
    ensures
        remaining_lockout(s, t_start) is None,
        (face_available && !cancelled_at_start && face is Verified) || (!cancelled_after_pam
            && pam is Authenticated),
        verification_attempt(s, t_start, face_available, cancelled_at_start, face, t_end, cancelled_after_pam, pam).1.failures == 0,
        verification_attempt(s, t_start, face_available, cancelled_at_start, face, t_end, cancelled_after_pam, pam).1.locked_until is None,
{
}

/// Law: a failed face attempt never counts toward lockout; an attempt adds
/// at most one failure, and only when PAM itself failed or timed out.
pub proof fn lemma_only_pam_failures_count(
    s: LockoutState,
    t_start: u64,
    face_available: bool,
    cancelled_at_start: bool,
    face: FaceOutcome,
    t_end: u64,
    cancelled_after_pam: bool,
    pam: PamOutcome,
)
    ensures
        ({
            let after = verification_attempt(s, t_start, face_available, cancelled_at_start, face, t_end, cancelled_after_pam, pam).1;
            &&& after.failures == s.failures + 1 || after.failures == s.failures || after.failures == 0
            &&& after.failures == s.failures + 1 ==> !cancelled_after_pam && !(pam is Authenticated)
                && remaining_lockout(s, t_start) is None
            &&& (cancelled_after_pam && !(face_available && !cancelled_at_start && face is Verified))
                ==> after == s
        }),
{
}

/// Law: a face attempt that does not verify leaves the lockout state exactly
/// as it was (face failures never count, and never clear a count); a
/// verified face clears the failure count and any lockout.
pub proof fn lemma_face_outcome_lockout(s: LockoutState, outcome: FaceOutcome)
    ensures
        !(outcome is Verified) ==> face_lockout(s, outcome) == s,
        outcome is Verified ==> face_lockout(s, outcome).failures == 0
            && face_lockout(s, outcome).locked_until is None,
        face_lockout(s, outcome).max_failures == s.max_failures,
        face_lockout(s, outcome).lockout == s.lockout,
{
}

/// Law: an attempt is refused as locked out exactly while a lockout runs at
/// its start time; otherwise it goes to the face verifier when one is
/// available and the operation is not cancelled, and to PAM if not.
pub proof fn lemma_start_follows_lockout(s: LockoutState, now: u64, face_available: bool, cancelled: bool)
    ensures
        (start_decision(s, now, face_available, cancelled) is Blocked) <==> (s.locked_until matches Some(
            u,
        ) && now < u),
        remaining_lockout(s, now) is None ==> start_decision(s, now, face_available, cancelled) == if face_available
            && !cancelled {
            UvStart::TryFace
        } else {
            UvStart::RunPam
        },
{
}

} // verus!
