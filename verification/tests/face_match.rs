use vauth::face_match::{decide_face_match, face_verdict, DistanceSample, FaceMatch, FaceRejection};
use vauth::liveness::{LivenessFailure, LivenessResult};

fn sample(model: usize, len: usize, d: f64) -> DistanceSample {
    DistanceSample { model, encoding_len: len, distance: d.to_bits() }
}

#[test]
fn closest_enrolled_encoding_wins() {
    let samples = vec![
        sample(0, 128, 0.5),
        sample(1, 128, 0.3),
        sample(2, 128, 0.3),
        sample(3, 127, 0.1),
        sample(4, 128, f64::NAN),
    ];
    match decide_face_match(true, &samples, 0.4f64.to_bits()) {
        FaceMatch::Match { model, distance } => {
            assert_eq!(model, 1);
            assert_eq!(f64::from_bits(distance), 0.3);
        }
        _ => panic!("expected a match"),
    }
}

#[test]
fn distance_above_threshold_is_no_match() {
    let samples = vec![sample(0, 128, 0.5), sample(1, 128, 0.45)];
    match decide_face_match(true, &samples, 0.4f64.to_bits()) {
        FaceMatch::NoMatch { best_distance } => assert_eq!(f64::from_bits(best_distance), 0.45),
        _ => panic!("expected no match"),
    }
    // the threshold itself still matches
    match decide_face_match(true, &samples, 0.45f64.to_bits()) {
        FaceMatch::Match { model, .. } => assert_eq!(model, 1),
        _ => panic!("expected a match"),
    }
}

#[test]
fn no_face_and_no_models() {
    assert!(matches!(decide_face_match(false, &vec![sample(0, 128, 0.0)], 0.4f64.to_bits()), FaceMatch::NoFace));
    match decide_face_match(true, &vec![], 0.4f64.to_bits()) {
        FaceMatch::NoMatch { best_distance } => assert_eq!(f64::from_bits(best_distance), f64::MAX),
        _ => panic!("expected no match"),
    }
    // with no enrolled encoding to compare there is no match, whatever the threshold
    match decide_face_match(true, &vec![], f64::INFINITY.to_bits()) {
        FaceMatch::NoMatch { best_distance } => assert_eq!(f64::from_bits(best_distance), f64::MAX),
        _ => panic!("expected no match"),
    }
    assert!(matches!(
        decide_face_match(true, &vec![sample(0, 127, 0.1)], f64::INFINITY.to_bits()),
        FaceMatch::NoMatch { .. }
    ));
    assert!(matches!(
        decide_face_match(true, &vec![sample(0, 128, 0.1)], f64::NAN.to_bits()),
        FaceMatch::NoMatch { .. }
    ));
}

#[test]
fn face_verdict_needs_liveness_and_identity() {
    let alive = LivenessResult::Alive { blinks: 1, mouth_events: 0, frames_analyzed: 12 };
    let photo = LivenessResult::Failed(LivenessFailure::NoMotion { frames_analyzed: 30 });
    let matched = FaceMatch::Match { model: 0, distance: 0.3f64.to_bits() };
    assert_eq!(face_verdict(alive, Some(matched)), Ok(()));
    assert_eq!(
        face_verdict(photo, Some(matched)),
        Err(FaceRejection::Liveness(LivenessFailure::NoMotion { frames_analyzed: 30 }))
    );
    assert_eq!(
        face_verdict(alive, Some(FaceMatch::NoMatch { best_distance: 0.7f64.to_bits() })),
        Err(FaceRejection::NoMatch { best_distance: 0.7f64.to_bits() })
    );
    assert_eq!(face_verdict(alive, Some(FaceMatch::NoFace)), Err(FaceRejection::NoFace));
    assert_eq!(face_verdict(alive, None), Err(FaceRejection::NoIdentityFrame));
}
