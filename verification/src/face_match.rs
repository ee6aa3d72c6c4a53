//! Which enrolled face model a captured face matches.
//!
//! The Euclidean distances between the captured face's encodings and the
//! enrolled encodings are `f64` values computed outside the library; they
//! arrive as their bit patterns, in the order in which the captured
//! encodings, the models and each model's encodings are walked. The library
//! picks the closest enrolled encoding and decides the match against the
//! threshold.

use vstd::prelude::*;
use crate::float_order::{f64_le, f64_lt, f64_less_than, f64_at_most, is_nan, signed_magnitude};
use crate::liveness::{LivenessFailure, LivenessResult};

verus! {

/// Bit pattern of `f64::MAX`, the distance a search starts from.
pub const F64_MAX_BITS: u64 = 0x7FEF_FFFF_FFFF_FFFF;

/// Number of values in a face encoding; enrolled encodings of another
/// length are skipped.
pub const ENCODING_LEN: usize = 128;

/// The distance between one captured encoding and one enrolled encoding.
#[derive(Clone, Copy)]
pub struct DistanceSample {
    /// Index of the enrolled model that the encoding belongs to.
    pub model: usize,
    /// Length of the enrolled encoding.
    pub encoding_len: usize,
    /// The distance, as the bit pattern of an `f64`.
    pub distance: u64,
}

/// Outcome of matching a captured frame against the enrolled models.
#[derive(Debug, Clone, Copy, PartialEq, Eq, Structural)]
pub enum FaceMatch {
    /// A face matched an enrolled model: the model of the closest enrolled
    /// encoding and its distance.
    Match { model: usize, distance: u64 },
    /// A face was found but no enrolled encoding was within the threshold
    /// (the closest distance, `f64::MAX` when no encoding was compared).
    NoMatch { best_distance: u64 },
    /// No face was found in the frame.
    NoFace,
}

/// Whether a sample takes part in the search.
pub open spec fn counts(s: DistanceSample) -> bool {
    s.encoding_len == ENCODING_LEN
}

/// The closest distance and its model after walking `samples` in order: a
/// sample replaces the best so far only when it is strictly closer.
pub open spec fn best_of(samples: Seq<DistanceSample>) -> (u64, Option<usize>)
    decreases samples.len(),
{
    if samples.len() == 0 {
        (F64_MAX_BITS, None)
    } else {
        let prev = best_of(samples.drop_last());
        let s = samples.last();
        if counts(s) && f64_lt(s.distance, prev.0) {
            (s.distance, Some(s.model))
        } else {
            prev
        }
    }
}

/// The outcome for a frame in which a face was (or was not) found.
pub open spec fn face_match_spec(face_found: bool, samples: Seq<DistanceSample>, threshold: u64) -> FaceMatch {
    if !face_found {
        FaceMatch::NoFace
    } else {
        let best = best_of(samples);
        if best.1 is Some && f64_le(best.0, threshold) {
            FaceMatch::Match { model: best.1->0, distance: best.0 }
        } else {
            FaceMatch::NoMatch { best_distance: best.0 }
        }
    }
}

/// Decides the match for a frame: `NoFace` when no face was found, else the
/// closest enrolled encoding of the right length (the first of equally close
/// ones), a match when there is one and its distance is at most
/// `threshold`; with no enrolled encoding to compare there is no match.
pub fn decide_face_match(face_found: bool, samples: &Vec<DistanceSample>, threshold: u64) -> (r: FaceMatch)
    ensures
        r == face_match_spec(face_found, samples@, threshold),
        face_found && best_of(samples@).1 is None ==> r is NoMatch,
        (r is NoFace) <==> !face_found,
        r matches FaceMatch::Match { model, distance } ==> {
            &&& f64_le(distance, threshold)
            &&& forall|k: int| 0 <= k < samples@.len() && counts(#[trigger] samples@[k])
                ==> !f64_lt(samples@[k].distance, distance)
            &&& exists|j: int|
                0 <= j < samples@.len() && counts(#[trigger] samples@[j]) && samples@[j].model == model
                    && samples@[j].distance == distance
                    && forall|k: int| 0 <= k < j && counts(#[trigger] samples@[k])
                        ==> !f64_le(samples@[k].distance, distance)
        },
{
    proof {
        lemma_best_is_closest(samples@);
        lemma_first_closest_wins(samples@);
    }
    if !face_found {
        return FaceMatch::NoFace;
    }
    let mut best: u64 = F64_MAX_BITS;
    let mut best_model: Option<usize> = None;
    let mut i: usize = 0;
    while i < samples.len()
        invariant
            i <= samples@.len(),
            (best, best_model) == best_of(samples@.subrange(0, i as int)),
        decreases samples@.len() - i,
    {
        let s = samples[i];
        proof {
            assert(samples@.subrange(0, i + 1).drop_last() =~= samples@.subrange(0, i as int));
        }
        if s.encoding_len == ENCODING_LEN && f64_less_than(s.distance, best) {
            best = s.distance;
            best_model = Some(s.model);
        }
        i = i + 1;
    }
    proof {
        assert(samples@.subrange(0, samples@.len() as int) =~= samples@);
    }
    match best_model {
        Some(model) => {
            if f64_at_most(best, threshold) {
                FaceMatch::Match { model, distance: best }
            } else {
                FaceMatch::NoMatch { best_distance: best }
            }
        },
        None => FaceMatch::NoMatch { best_distance: best },
    }
}

/// The search keeps the closest distance: no counted sample is strictly
/// closer than the result, and the result is either the starting `f64::MAX`
/// (with no model) or the distance of a counted sample of that model.
pub proof fn lemma_best_is_closest(samples: Seq<DistanceSample>)
    ensures
        forall|j: int| 0 <= j < samples.len() && counts(#[trigger] samples[j])
            ==> !f64_lt(samples[j].distance, best_of(samples).0),
        best_of(samples).1 is None ==> best_of(samples).0 == F64_MAX_BITS,
        best_of(samples).1 matches Some(m) ==> exists|j: int| 0 <= j < samples.len()
            && counts(#[trigger] samples[j]) && samples[j].model == m
            && samples[j].distance == best_of(samples).0,
    decreases samples.len(),
{
    if samples.len() > 0 {
        let init = samples.drop_last();
        lemma_best_is_closest(init);
        assert forall|j: int| 0 <= j < samples.len() && counts(#[trigger] samples[j])
            implies !f64_lt(samples[j].distance, best_of(samples).0) by {
            if j < samples.len() - 1 {
                assert(samples[j] == init[j]);
            }
        }
        if best_of(samples).1 is Some && best_of(samples) == best_of(init) {
            let m = best_of(samples).1->0;
            let j = choose|j: int| 0 <= j < init.len() && counts(#[trigger] init[j])
                && init[j].model == m && init[j].distance == best_of(init).0;
            assert(samples[j] == init[j]);
        }
        if best_of(samples) != best_of(init) {
            assert(counts(samples[samples.len() - 1]));
        }
    }
}

/// Law: of equally close enrolled encodings the first one wins: the model
/// found is that of a counted sample at the closest distance, and no counted
/// sample before it is at that distance or closer. The closest distance is
/// never a NaN.
pub proof fn lemma_first_closest_wins(samples: Seq<DistanceSample>)
    ensures
        !is_nan(best_of(samples).0),
        best_of(samples).1 matches Some(m) ==> exists|j: int|
            0 <= j < samples.len() && counts(#[trigger] samples[j]) && samples[j].model == m
                && samples[j].distance == best_of(samples).0
                && forall|k: int| 0 <= k < j && counts(#[trigger] samples[k])
                    ==> !f64_le(samples[k].distance, best_of(samples).0),
    decreases samples.len(),
{
    if samples.len() > 0 {
        let init = samples.drop_last();
        let n = samples.len() - 1;
        lemma_first_closest_wins(init);
        lemma_best_is_closest(init);
        let prev = best_of(init);
        let x = samples[n];
        assert(samples.last() == x);
        if counts(x) && f64_lt(x.distance, prev.0) {
            assert forall|k: int| 0 <= k < n && counts(#[trigger] samples[k])
                implies !f64_le(samples[k].distance, best_of(samples).0) by {
                assert(samples[k] == init[k]);
                assert(!f64_lt(init[k].distance, prev.0));
            }
            assert(counts(samples[n]));
        } else if prev.1 is Some {
            let m = prev.1->0;
            let j = choose|j: int|
                0 <= j < init.len() && counts(#[trigger] init[j]) && init[j].model == m
                    && init[j].distance == prev.0
                    && forall|k: int| 0 <= k < j && counts(#[trigger] init[k])
                        ==> !f64_le(init[k].distance, prev.0);
            assert(samples[j] == init[j]);
            assert forall|k: int| 0 <= k < j && counts(#[trigger] samples[k])
                implies !f64_le(samples[k].distance, best_of(samples).0) by {
                assert(samples[k] == init[k]);
            }
        }
    }
}

/// A match is only ever reported for an enrolled model, within the
/// threshold; a frame with a face is refused only when no enrolled encoding
/// was compared, or the closest distance is above the threshold or not a
/// number.
pub proof fn lemma_match_within_threshold(face_found: bool, samples: Seq<DistanceSample>, threshold: u64)
    ensures
        face_match_spec(face_found, samples, threshold) matches FaceMatch::Match { model, distance }
            ==> f64_le(distance, threshold) && distance == best_of(samples).0
                && best_of(samples).1 == Some(model),
        face_match_spec(face_found, samples, threshold) matches FaceMatch::NoMatch { best_distance }
            ==> (best_of(samples).1 is None || is_nan(best_distance) || is_nan(threshold)
                || signed_magnitude(threshold) < signed_magnitude(best_distance)),
        (face_match_spec(face_found, samples, threshold) is NoFace) == !face_found,
{
}

/// Why a face verification did not succeed.
#[derive(Debug, Clone, Copy, PartialEq, Eq, Structural)]
pub enum FaceRejection {
    /// The liveness check failed (possibly a photo).
    Liveness(LivenessFailure),
    /// A face was found but matched no enrolled model.
    NoMatch { best_distance: u64 },
    /// No face was found in the identity frame.
    NoFace,
    /// The face was live but no identity frame was matched.
    NoIdentityFrame,
}

/// The verdict of a face verification: a failed liveness check decides
/// first; a live face succeeds only on an identity match.
pub open spec fn face_verdict_spec(liveness: LivenessResult, identity: Option<FaceMatch>) -> Result<(), FaceRejection> {
    match liveness {
        LivenessResult::Failed(f) => Err(FaceRejection::Liveness(f)),
        LivenessResult::Alive { .. } => match identity {
            Some(FaceMatch::Match { .. }) => Ok(()),
            Some(FaceMatch::NoMatch { best_distance }) => Err(FaceRejection::NoMatch { best_distance }),
            Some(FaceMatch::NoFace) => Err(FaceRejection::NoFace),
            None => Err(FaceRejection::NoIdentityFrame),
        },
    }
}

/// Decides a face verification from the liveness result and the identity
/// match of the frame captured after it: success only when the face was
/// live and matched an enrolled model.
pub fn face_verdict(liveness: LivenessResult, identity: Option<FaceMatch>) -> (r: Result<(), FaceRejection>)
    ensures
        r == face_verdict_spec(liveness, identity),
        (r is Ok) <==> (liveness is Alive && identity matches Some(FaceMatch::Match { .. })),
        liveness is Failed ==> r matches Err(FaceRejection::Liveness(_)),
{
    match liveness {
        LivenessResult::Failed(f) => Err(FaceRejection::Liveness(f)),
        LivenessResult::Alive { .. } => match identity {
            Some(FaceMatch::Match { .. }) => Ok(()),
            Some(FaceMatch::NoMatch { best_distance }) => Err(FaceRejection::NoMatch { best_distance }),
            Some(FaceMatch::NoFace) => Err(FaceRejection::NoFace),
            None => Err(FaceRejection::NoIdentityFrame),
        },
    }
}

} // verus!
