use vauth::liveness::{eye_reading, mouth_reading};
use vauth::liveness::{
    FrameObservation, LivenessFailure, LivenessResult, LivenessScan, MotionTracker,
    EAR_BLINK_THRESHOLD, EAR_OPEN_THRESHOLD, MAR_CLOSED_THRESHOLD, MAR_OPEN_THRESHOLD,
};

fn bits(x: f64) -> u64 {
    x.to_bits()
}

#[test]
fn test_blink_detection() {
    let mut tracker = MotionTracker::new();
    // Simulate: open -> closed -> open
    tracker.update(bits(0.30), bits(0.1)); // eyes open
    assert_eq!(tracker.blinks(), 0);
    tracker.update(bits(0.15), bits(0.1)); // eyes closed
    assert_eq!(tracker.blinks(), 0);
    tracker.update(bits(0.30), bits(0.1)); // eyes reopen -> blink counted
    assert_eq!(tracker.blinks(), 1);
    assert!(tracker.is_alive());
}

#[test]
fn test_mouth_event_detection() {
    let mut tracker = MotionTracker::new();
    // Simulate: closed -> open -> closed
    tracker.update(bits(0.30), bits(0.1)); // mouth closed
    assert_eq!(tracker.mouth_events(), 0);
    tracker.update(bits(0.30), bits(0.4)); // mouth open
    assert_eq!(tracker.mouth_events(), 0);
    tracker.update(bits(0.30), bits(0.1)); // mouth closed -> event counted
    assert_eq!(tracker.mouth_events(), 1);
    assert!(tracker.is_alive());
}

#[test]
fn test_no_motion_not_alive() {
    let mut tracker = MotionTracker::new();
    // All frames with steady open eyes, closed mouth
    for _ in 0..30 {
        tracker.update(bits(0.30), bits(0.1));
    }
    assert_eq!(tracker.blinks(), 0);
    assert_eq!(tracker.mouth_events(), 0);
    assert!(!tracker.is_alive());
}

#[test]
fn thresholds_are_the_documented_values() {
    assert_eq!(f64::from_bits(EAR_BLINK_THRESHOLD), 0.21);
    assert_eq!(f64::from_bits(EAR_OPEN_THRESHOLD), 0.23);
    assert_eq!(f64::from_bits(MAR_OPEN_THRESHOLD), 0.3);
    assert_eq!(f64::from_bits(MAR_CLOSED_THRESHOLD), 0.15);
}

#[test]
fn closed_eyes_before_any_open_reading_do_not_count() {
    let mut tracker = MotionTracker::new();
    tracker.update(bits(0.10), bits(0.2));
    tracker.update(bits(0.30), bits(0.2));
    assert_eq!(tracker.blinks(), 0);
    tracker.update(bits(0.10), bits(0.2));
    tracker.update(bits(0.30), bits(0.2));
    assert_eq!(tracker.blinks(), 1);
}

#[test]
fn readings_between_thresholds_change_nothing() {
    let mut tracker = MotionTracker::new();
    tracker.update(bits(0.30), bits(0.1));
    tracker.update(bits(0.22), bits(0.2)); // neither open nor closed
    tracker.update(bits(0.30), bits(0.1));
    assert_eq!(tracker.blinks(), 0);
    assert_eq!(tracker.mouth_events(), 0);
    // exactly on a threshold is not beyond it
    tracker.update(bits(0.21), bits(0.3));
    tracker.update(bits(0.30), bits(0.1));
    assert_eq!(tracker.blinks(), 0);
    assert_eq!(tracker.mouth_events(), 0);
}

#[test]
fn nan_readings_change_nothing() {
    let mut tracker = MotionTracker::new();
    tracker.update(bits(0.30), bits(0.1));
    tracker.update(bits(f64::NAN), bits(f64::NAN));
    tracker.update(bits(0.30), bits(0.1));
    assert!(!tracker.is_alive());
}

#[test]
fn scan_reports_alive_with_counts() {
    let mut scan = LivenessScan::new();
    assert_eq!(scan.observe(FrameObservation::CaptureFailed), None);
    assert_eq!(scan.observe(FrameObservation::NoFace), None);
    assert_eq!(scan.observe(FrameObservation::IncompleteLandmarks), None);
    let open = FrameObservation::Measured { ear: bits(0.3), mar: bits(0.1) };
    let closed = FrameObservation::Measured { ear: bits(0.1), mar: bits(0.1) };
    assert_eq!(scan.observe(open), None);
    assert_eq!(scan.observe(closed), None);
    assert_eq!(
        scan.observe(open),
        Some(LivenessResult::Alive { blinks: 1, mouth_events: 0, frames_analyzed: 5 })
    );
}

#[test]
fn scan_without_face_fails_with_no_face() {
    let mut scan = LivenessScan::new();
    scan.observe(FrameObservation::NoFace);
    scan.observe(FrameObservation::CaptureFailed);
    assert_eq!(scan.finish(), LivenessResult::Failed(LivenessFailure::NoFace));
}

#[test]
fn scan_without_motion_fails_with_no_motion() {
    let mut scan = LivenessScan::new();
    scan.observe(FrameObservation::NoFace);
    scan.observe(FrameObservation::CaptureFailed);
    for _ in 0..3 {
        scan.observe(FrameObservation::Measured { ear: bits(0.3), mar: bits(0.1) });
    }
    scan.observe(FrameObservation::IncompleteLandmarks);
    assert_eq!(
        scan.finish(),
        LivenessResult::Failed(LivenessFailure::NoMotion { frames_analyzed: 5 })
    );
}

#[test]
fn diagnostic_readings() {
    assert_eq!(eye_reading(0.1f64.to_bits()), "CLOSED");
    assert_eq!(eye_reading(0.21f64.to_bits()), "partial");
    assert_eq!(eye_reading(0.25f64.to_bits()), "partial");
    assert_eq!(eye_reading(0.3f64.to_bits()), "open");
    assert_eq!(eye_reading(f64::NAN.to_bits()), "partial");
    assert_eq!(mouth_reading(0.7f64.to_bits()), "OPEN");
    assert_eq!(mouth_reading(0.6f64.to_bits()), "partial");
    assert_eq!(mouth_reading(0.29f64.to_bits()), "closed");
    assert_eq!(mouth_reading((-0.0f64).to_bits()), "closed");
}

#[test]
fn in_between_frames_change_nothing() {
    let mut tracker = MotionTracker::new();
    tracker.update(bits(0.30), bits(0.10)); // eyes open, mouth closed
    tracker.update(bits(0.15), bits(0.40)); // eyes closed, mouth open
    for _ in 0..5 {
        tracker.update(bits(0.22), bits(0.20)); // between both pairs of thresholds
        assert_eq!(tracker.blinks(), 0);
        assert_eq!(tracker.mouth_events(), 0);
    }
    // the pending blink and mouth event are still there
    tracker.update(bits(0.30), bits(0.10));
    assert_eq!(tracker.blinks(), 1);
    assert_eq!(tracker.mouth_events(), 1);
}
