use vauth::lockout::LockoutTracker;
use vauth::user_verification::{
    conclude_face, conclude_pam, start_verification, Ctap2Error, FaceOutcome, PamOutcome,
    UserPresenceProof, UvStart,
};

#[test]
fn locked_out_attempt_is_blocked() {
    let mut t = LockoutTracker::new(1, 60);
    t.record_failure_at(0);
    assert_eq!(start_verification(&t, 1, true, false), UvStart::Blocked);
}

#[test]
fn face_first_when_available_and_not_cancelled() {
    let t = LockoutTracker::new(5, 60);
    assert_eq!(start_verification(&t, 0, true, false), UvStart::TryFace);
    assert_eq!(start_verification(&t, 0, true, true), UvStart::RunPam);
    assert_eq!(start_verification(&t, 0, false, false), UvStart::RunPam);
}

#[test]
fn face_success_clears_failures_and_gives_proof() {
    let mut t = LockoutTracker::new(5, 60);
    t.record_failure_at(0);
    assert!(conclude_face(&mut t, FaceOutcome::Verified).is_some());
    assert_eq!(t.consecutive_failures(), 0);
}

#[test]
fn face_failures_do_not_count() {
    let mut t = LockoutTracker::new(5, 60);
    for o in [FaceOutcome::Rejected, FaceOutcome::Panicked, FaceOutcome::JoinFailed, FaceOutcome::TimedOut] {
        assert!(conclude_face(&mut t, o).is_none());
    }
    assert_eq!(t.consecutive_failures(), 0);
}

#[test]
fn pam_outcomes() {
    let mut t = LockoutTracker::new(5, 60);
    assert!(matches!(conclude_pam(&mut t, 0, false, PamOutcome::TimedOut), Err(Ctap2Error::UserActionTimeout)));
    assert!(matches!(conclude_pam(&mut t, 0, false, PamOutcome::Failed), Err(Ctap2Error::OperationDenied)));
    assert!(matches!(conclude_pam(&mut t, 0, false, PamOutcome::JoinFailed), Err(Ctap2Error::OperationDenied)));
    assert_eq!(t.consecutive_failures(), 3);
    assert!(conclude_pam(&mut t, 0, false, PamOutcome::Authenticated).is_ok());
    assert_eq!(t.consecutive_failures(), 0);
}

#[test]
fn cancellation_wins_and_is_not_counted() {
    let mut t = LockoutTracker::new(5, 60);
    assert!(matches!(conclude_pam(&mut t, 0, true, PamOutcome::Authenticated), Err(Ctap2Error::KeepaliveCancel)));
    assert!(matches!(conclude_pam(&mut t, 0, true, PamOutcome::Failed), Err(Ctap2Error::KeepaliveCancel)));
    assert_eq!(t.consecutive_failures(), 0);
}

#[test]
fn pam_failures_reach_lockout() {
    let mut t = LockoutTracker::new(2, 60);
    let _ = conclude_pam(&mut t, 0, false, PamOutcome::Failed);
    assert_eq!(start_verification(&t, 1, false, false), UvStart::RunPam);
    let _ = conclude_pam(&mut t, 1, false, PamOutcome::Failed);
    assert_eq!(start_verification(&t, 2, false, false), UvStart::Blocked);
}

#[test]
fn test_proof_can_be_made() {
    let _p: UserPresenceProof = UserPresenceProof::test_only();
}
