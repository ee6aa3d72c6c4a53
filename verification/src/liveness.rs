//! Liveness decisions from eye and mouth aspect ratios.
//!
//! The aspect ratios are `f64` values computed from face landmarks outside
//! the library; they arrive here as their IEEE-754 bit patterns. The library
//! decides blink and mouth events from them and the outcome of a scan.

use vstd::prelude::*;
use crate::float_order::{f64_gt, f64_lt, f64_less_than, f64_greater_than};

verus! {

/// Eye aspect ratio below which the eyes count as closed (0.21).
pub const EAR_BLINK_THRESHOLD: u64 = 0x3FCA_E147_AE14_7AE1;
/// Eye aspect ratio above which the eyes count as open (0.23).
pub const EAR_OPEN_THRESHOLD: u64 = 0x3FCD_70A3_D70A_3D71;
/// Mouth aspect ratio above which the mouth counts as open (0.3).
pub const MAR_OPEN_THRESHOLD: u64 = 0x3FD3_3333_3333_3333;
/// Mouth aspect ratio below which the mouth counts as closed (0.15).
pub const MAR_CLOSED_THRESHOLD: u64 = 0x3FC3_3333_3333_3333;

/// Whether an eye aspect ratio reads as open eyes.
pub open spec fn eyes_read_open(ear: u64) -> bool {
    f64_gt(ear, EAR_OPEN_THRESHOLD)
}

/// Whether an eye aspect ratio reads as closed eyes.
pub open spec fn eyes_read_closed(ear: u64) -> bool {
    f64_lt(ear, EAR_BLINK_THRESHOLD)
}

/// Whether a mouth aspect ratio reads as a closed mouth.
pub open spec fn mouth_reads_closed(mar: u64) -> bool {
    f64_lt(mar, MAR_CLOSED_THRESHOLD)
}

/// Whether a mouth aspect ratio reads as an open mouth.
pub open spec fn mouth_reads_open(mar: u64) -> bool {
    f64_gt(mar, MAR_OPEN_THRESHOLD)
}

/// Abstract state of a motion tracker.
pub struct MotionState {
    pub eyes_were_open: bool,
    pub eyes_closed: bool,
    pub blinks: nat,
    pub mouth_was_closed: bool,
    pub mouth_opened: bool,
    pub mouth_events: nat,
}

/// One frame's effect on the eye part of the state:
/// open -> closed -> open counts one blink.
pub open spec fn eye_step(s: MotionState, ear: u64) -> MotionState {
    if eyes_read_open(ear) {
        MotionState {
            blinks: if s.eyes_closed { s.blinks + 1 } else { s.blinks },
            eyes_closed: false,
            eyes_were_open: true,
            ..s
        }
    } else if eyes_read_closed(ear) && s.eyes_were_open {
        MotionState { eyes_closed: true, ..s }
    } else {
        s
    }
}

/// One frame's effect on the mouth part of the state:
/// closed -> open -> closed counts one mouth event.
pub open spec fn mouth_step(s: MotionState, mar: u64) -> MotionState {
    if mouth_reads_closed(mar) {
        MotionState {
            mouth_events: if s.mouth_opened { s.mouth_events + 1 } else { s.mouth_events },
            mouth_opened: false,
            mouth_was_closed: true,
            ..s
        }
    } else if mouth_reads_open(mar) && s.mouth_was_closed {
        MotionState { mouth_opened: true, ..s }
    } else {
        s
    }
}

/// One frame's effect on the whole state.
pub open spec fn motion_step(s: MotionState, ear: u64, mar: u64) -> MotionState {
    mouth_step(eye_step(s, ear), mar)
}

/// The state after a sequence of `(ear, mar)` frames.
pub open spec fn motion_run(s: MotionState, frames: Seq<(u64, u64)>) -> MotionState
    decreases frames.len(),
{
    if frames.len() == 0 {
        s
    } else {
        motion_run(motion_step(s, frames[0].0, frames[0].1), frames.drop_first())
    }
}

/// Live means at least one blink or one mouth event was seen.
pub open spec fn motion_alive(s: MotionState) -> bool {
    s.blinks >= 1 || s.mouth_events >= 1
}

/// The state of a fresh tracker.
pub open spec fn motion_initial() -> MotionState {
    MotionState {
        eyes_were_open: false,
        eyes_closed: false,
        blinks: 0,
        mouth_was_closed: false,
        mouth_opened: false,
        mouth_events: 0,
    }
}

/// Tracks eye and mouth state transitions across frames.
pub struct MotionTracker {
    eyes_were_open: bool,
    eyes_closed: bool,
    blinks: u32,
    mouth_was_closed: bool,
    mouth_opened: bool,
    mouth_events: u32,
}

impl View for MotionTracker {
    type V = MotionState;

    closed spec fn view(&self) -> MotionState {
        MotionState {
            eyes_were_open: self.eyes_were_open,
            eyes_closed: self.eyes_closed,
            blinks: self.blinks as nat,
            mouth_was_closed: self.mouth_was_closed,
            mouth_opened: self.mouth_opened,
            mouth_events: self.mouth_events as nat,
        }
    }
}

impl MotionTracker {
    /// A tracker that has seen nothing yet.
    pub fn new() -> (t: Self)
        ensures
            t@ == motion_initial(),
            !t@.eyes_were_open && !t@.eyes_closed && t@.blinks == 0,
            !t@.mouth_was_closed && !t@.mouth_opened && t@.mouth_events == 0,
    {
        MotionTracker {
            eyes_were_open: false,
            eyes_closed: false,
            blinks: 0,
            mouth_was_closed: false,
            mouth_opened: false,
            mouth_events: 0,
        }
    }

    /// Number of blinks counted so far.
    pub fn blinks(&self) -> (n: u32)
        ensures
            n == self@.blinks,
    {
        self.blinks
    }

    /// Number of mouth events counted so far.
    pub fn mouth_events(&self) -> (n: u32)
        ensures
            n == self@.mouth_events,
    {
        self.mouth_events
    }

    /// Feeds one frame's eye aspect ratio `ear` and mouth aspect ratio `mar`
    /// (as `f64` bit patterns).
    pub fn update(&mut self, ear: u64, mar: u64)
        requires
            old(self)@.blinks < u32::MAX,
            old(self)@.mouth_events < u32::MAX,
        ensures
            final(self)@ == motion_step(old(self)@, ear, mar),
            final(self)@.blinks == old(self)@.blinks || final(self)@.blinks == old(self)@.blinks + 1,
            final(self)@.mouth_events == old(self)@.mouth_events || final(self)@.mouth_events
                == old(self)@.mouth_events + 1,
            final(self)@.blinks == old(self)@.blinks + 1 ==> eyes_read_open(ear),
            final(self)@.mouth_events == old(self)@.mouth_events + 1 ==> mouth_reads_closed(mar),
            !eyes_read_open(ear) && !eyes_read_closed(ear) && !mouth_reads_open(mar)
                && !mouth_reads_closed(mar) ==> final(self)@ == old(self)@,
            final(self)@.blinks == old(self)@.blinks + 1 ==> old(self)@.eyes_closed,
            final(self)@.eyes_closed && !old(self)@.eyes_closed ==> old(self)@.eyes_were_open
                && eyes_read_closed(ear),
            final(self)@.mouth_events == old(self)@.mouth_events + 1 ==> old(self)@.mouth_opened,
            final(self)@.mouth_opened && !old(self)@.mouth_opened ==> old(self)@.mouth_was_closed
                && mouth_reads_open(mar),
    {
        proof {
            lemma_one_frame_changes_little(self@, ear, mar);
        }
        if f64_greater_than(ear, EAR_OPEN_THRESHOLD) {
            if self.eyes_closed {
                self.blinks = self.blinks + 1;
                self.eyes_closed = false;
            }
            self.eyes_were_open = true;
        } else if f64_less_than(ear, EAR_BLINK_THRESHOLD) && self.eyes_were_open {
            self.eyes_closed = true;
        }

        if f64_less_than(mar, MAR_CLOSED_THRESHOLD) {
            if self.mouth_opened {
                self.mouth_events = self.mouth_events + 1;
                self.mouth_opened = false;
            }
            self.mouth_was_closed = true;
        } else if f64_greater_than(mar, MAR_OPEN_THRESHOLD) && self.mouth_was_closed {
            self.mouth_opened = true;
        }
    }

    /// Whether real movement has been seen.
    pub fn is_alive(&self) -> (r: bool)
        ensures
            r == motion_alive(self@),
    {
        self.blinks >= 1 || self.mouth_events >= 1
    }
}


/// Why liveness failed.
#[derive(Debug, Clone, Copy, PartialEq, Eq, Structural)]
pub enum LivenessFailure {
    /// No face detected in any frame.
    NoFace,
    /// Face detected but no motion (possible photo).
    NoMotion { frames_analyzed: u32 },
    /// Ran out of time.
    Timeout { frames_analyzed: u32 },
}

/// Result of a liveness check.
#[derive(Debug, Clone, Copy, PartialEq, Eq, Structural)]
pub enum LivenessResult {
    /// Face is live: real movement was detected.
    Alive { blinks: u32, mouth_events: u32, frames_analyzed: u32 },
    /// Liveness check failed.
    Failed(LivenessFailure),
}

/// What one attempt to capture and analyse a camera frame yielded.
#[derive(Debug, Clone, Copy, PartialEq, Eq, Structural)]
pub enum FrameObservation {
    /// The frame could not be captured (a dropped frame).
    CaptureFailed,
    /// The frame held no face.
    NoFace,
    /// A face was found but fewer than 68 landmarks were predicted.
    IncompleteLandmarks,
    /// A face with all 68 landmarks: its eye and mouth aspect ratios
    /// (as `f64` bit patterns).
    Measured { ear: u64, mar: u64 },
}

/// Abstract state of a liveness scan.
pub struct ScanState {
    pub motion: MotionState,
    pub frames: nat,
    pub any_face: bool,
}

/// The state of a scan that has seen no frame.
pub open spec fn scan_initial() -> ScanState {
    ScanState { motion: motion_initial(), frames: 0, any_face: false }
}

/// One observation's effect on a scan: every captured frame is counted,
/// every frame with a face is noted, and complete landmarks feed the tracker.
pub open spec fn scan_step(s: ScanState, obs: FrameObservation) -> ScanState {
    match obs {
        FrameObservation::CaptureFailed => s,
        FrameObservation::NoFace => ScanState { frames: s.frames + 1, ..s },
        FrameObservation::IncompleteLandmarks => ScanState {
            frames: s.frames + 1,
            any_face: true,
            ..s
        },
        FrameObservation::Measured { ear, mar } => ScanState {
            frames: s.frames + 1,
            any_face: true,
            motion: motion_step(s.motion, ear, mar),
        },
    }
}

/// The result reported as soon as motion is seen.
pub open spec fn alive_result(s: ScanState) -> LivenessResult {
    LivenessResult::Alive {
        blinks: s.motion.blinks as u32,
        mouth_events: s.motion.mouth_events as u32,
        frames_analyzed: s.frames as u32,
    }
}

/// What an observation makes the scan report: the live result when the
/// frame was measured and the tracker is now live, nothing otherwise.
pub open spec fn scan_report(s: ScanState, obs: FrameObservation) -> Option<LivenessResult> {
    let next = scan_step(s, obs);
    if obs is Measured && motion_alive(next.motion) {
        Some(alive_result(next))
    } else {
        None
    }
}

/// The result when the scan's time ran out.
pub open spec fn scan_final(s: ScanState) -> LivenessResult {
    if !s.any_face {
        LivenessResult::Failed(LivenessFailure::NoFace)
    } else if !motion_alive(s.motion) {
        LivenessResult::Failed(LivenessFailure::NoMotion { frames_analyzed: s.frames as u32 })
    } else {
        LivenessResult::Failed(LivenessFailure::Timeout { frames_analyzed: s.frames as u32 })
    }
}

/// The scan state after a sequence of observations.
pub open spec fn scan_run(s: ScanState, obs: Seq<FrameObservation>) -> ScanState
    decreases obs.len(),
{
    if obs.len() == 0 {
        s
    } else {
        scan_step(scan_run(s, obs.drop_last()), obs.last())
    }
}

/// Number of observations in which a frame was captured.
pub open spec fn captured_count(obs: Seq<FrameObservation>) -> nat
    decreases obs.len(),
{
    if obs.len() == 0 {
        0
    } else {
        captured_count(obs.drop_last()) + if obs.last() is CaptureFailed { 0nat } else { 1nat }
    }
}

/// Whether some observation found a face.
pub open spec fn some_face(obs: Seq<FrameObservation>) -> bool {
    exists|i: int| 0 <= i < obs.len() && (#[trigger] obs[i] is IncompleteLandmarks || obs[i] is Measured)
}

/// Decision state of one liveness check over a camera session.
pub struct LivenessScan {
    tracker: MotionTracker,
    frames: u32,
    any_face: bool,
}

impl View for LivenessScan {
    type V = ScanState;

    closed spec fn view(&self) -> ScanState {
        ScanState { motion: self.tracker@, frames: self.frames as nat, any_face: self.any_face }
    }
}

impl LivenessScan {
    /// A scan that has seen no frame.
    pub fn new() -> (s: Self)
        ensures
            s@ == scan_initial(),
    {
        LivenessScan { tracker: MotionTracker::new(), frames: 0, any_face: false }
    }

    /// Whether any observation can be taken without a counter overflowing.
    pub fn can_observe(&self) -> (r: bool)
        ensures
            r == (self@.frames < u32::MAX && self@.motion.blinks < u32::MAX
                && self@.motion.mouth_events < u32::MAX),
    {
        self.frames < u32::MAX && self.tracker.blinks() < u32::MAX && self.tracker.mouth_events()
            < u32::MAX
    }

    /// Takes one observation; returns the live result as soon as motion is seen.
    pub fn observe(&mut self, obs: FrameObservation) -> (r: Option<LivenessResult>)
        requires
            !(obs is CaptureFailed) ==> old(self)@.frames < u32::MAX,
            obs is Measured ==> old(self)@.motion.blinks < u32::MAX,
            obs is Measured ==> old(self)@.motion.mouth_events < u32::MAX,
        ensures
            final(self)@ == scan_step(old(self)@, obs),
            r == scan_report(old(self)@, obs),
            final(self)@.frames == old(self)@.frames + (if obs is CaptureFailed { 0int } else { 1int }),
            final(self)@.any_face == (old(self)@.any_face || (obs is IncompleteLandmarks)
                || (obs is Measured)),
            !(obs is Measured) ==> (final(self)@.motion == old(self)@.motion && (r is None)),
            (obs is Measured) ==> ((r is Some) <==> (final(self)@.motion.blinks >= 1
                || final(self)@.motion.mouth_events >= 1)),
            r matches Some(res) ==> res == (LivenessResult::Alive {
                blinks: final(self)@.motion.blinks as u32,
                mouth_events: final(self)@.motion.mouth_events as u32,
                frames_analyzed: final(self)@.frames as u32,
            }),
    {
        match obs {
            FrameObservation::CaptureFailed => None,
            FrameObservation::NoFace => {
                self.frames = self.frames + 1;
                None
            },
            FrameObservation::IncompleteLandmarks => {
                self.frames = self.frames + 1;
                self.any_face = true;
                None
            },
            FrameObservation::Measured { ear, mar } => {
                self.frames = self.frames + 1;
                self.any_face = true;
                self.tracker.update(ear, mar);
                if self.tracker.is_alive() {
                    Some(
                        LivenessResult::Alive {
                            blinks: self.tracker.blinks(),
                            mouth_events: self.tracker.mouth_events(),
                            frames_analyzed: self.frames,
                        },
                    )
                } else {
                    None
                }
            },
        }
    }

    /// The result when the time for the scan has run out.
    pub fn finish(&self) -> (r: LivenessResult)
        ensures
            r == scan_final(self@),
            !self@.any_face ==> r == LivenessResult::Failed(LivenessFailure::NoFace),
            self@.any_face && self@.motion.blinks == 0 && self@.motion.mouth_events == 0 ==> r
                == (LivenessResult::Failed(LivenessFailure::NoMotion { frames_analyzed: self@.frames as u32 })),
            self@.any_face && (self@.motion.blinks > 0 || self@.motion.mouth_events > 0) ==> r
                == (LivenessResult::Failed(LivenessFailure::Timeout { frames_analyzed: self@.frames as u32 })),
    {
        if !self.any_face {
            LivenessResult::Failed(LivenessFailure::NoFace)
        } else if !self.tracker.is_alive() {
            LivenessResult::Failed(LivenessFailure::NoMotion { frames_analyzed: self.frames })
        } else {
            LivenessResult::Failed(LivenessFailure::Timeout { frames_analyzed: self.frames })
        }
    }
}


/// Law: one frame adds at most one blink and at most one mouth event; a
/// blink is counted only on a frame whose eyes read open, a mouth event only
/// on a frame whose mouth reads closed; and a frame whose eye ratio lies
/// between the two eye thresholds (or is not a number) and whose mouth ratio
/// lies between the two mouth thresholds (or is not a number) changes
/// nothing. Holds of every state, with counters unbounded.
pub proof fn lemma_one_frame_changes_little(s: MotionState, ear: u64, mar: u64)
    ensures
        motion_step(s, ear, mar).blinks == s.blinks || motion_step(s, ear, mar).blinks == s.blinks + 1,
        motion_step(s, ear, mar).mouth_events == s.mouth_events
            || motion_step(s, ear, mar).mouth_events == s.mouth_events + 1,
        motion_step(s, ear, mar).blinks == s.blinks + 1 ==> eyes_read_open(ear),
        motion_step(s, ear, mar).mouth_events == s.mouth_events + 1 ==> mouth_reads_closed(mar),
        !eyes_read_open(ear) && !eyes_read_closed(ear) && !mouth_reads_open(mar)
            && !mouth_reads_closed(mar) ==> motion_step(s, ear, mar) == s,
{
}

/// Law: eyes that read open, then closed, then open again count exactly one
/// blink (whatever the mouth does meanwhile), starting from eyes not
/// already counted as closed.
pub proof fn lemma_open_closed_open_is_one_blink(
    s: MotionState,
    e1: u64,
    m1: u64,
    e2: u64,
    m2: u64,
    e3: u64,
    m3: u64,
)
    requires
        !s.eyes_closed,
        eyes_read_open(e1),
        eyes_read_closed(e2),
        eyes_read_open(e3),
    ensures
        motion_run(s, seq![(e1, m1), (e2, m2), (e3, m3)]).blinks == s.blinks + 1,
{
    let f = seq![(e1, m1), (e2, m2), (e3, m3)];
    let s1 = motion_step(s, e1, m1);
    let s2 = motion_step(s1, e2, m2);
    let s3 = motion_step(s2, e3, m3);
    assert(f.drop_first() =~= seq![(e2, m2), (e3, m3)]);
    assert(f.drop_first().drop_first() =~= seq![(e3, m3)]);
    assert(f.drop_first().drop_first().drop_first() =~= Seq::<(u64, u64)>::empty());
    assert(motion_run(s3, Seq::<(u64, u64)>::empty()) == s3);
    assert(motion_run(s2, seq![(e3, m3)]) == s3);
    assert(motion_run(s1, seq![(e2, m2), (e3, m3)]) == s3);
}

/// Law: a mouth that reads closed, then open, then closed again counts
/// exactly one mouth event (whatever the eyes do meanwhile), starting from
/// a mouth not already counted as open.
pub proof fn lemma_closed_open_closed_is_one_mouth_event(
    s: MotionState,
    e1: u64,
    m1: u64,
    e2: u64,
    m2: u64,
    e3: u64,
    m3: u64,
)
    requires
        !s.mouth_opened,
        mouth_reads_closed(m1),
        mouth_reads_open(m2),
        mouth_reads_closed(m3),
    ensures
        motion_run(s, seq![(e1, m1), (e2, m2), (e3, m3)]).mouth_events == s.mouth_events + 1,
{
    let f = seq![(e1, m1), (e2, m2), (e3, m3)];
    let s1 = motion_step(s, e1, m1);
    let s2 = motion_step(s1, e2, m2);
    let s3 = motion_step(s2, e3, m3);
    assert(f.drop_first() =~= seq![(e2, m2), (e3, m3)]);
    assert(f.drop_first().drop_first() =~= seq![(e3, m3)]);
    assert(f.drop_first().drop_first().drop_first() =~= Seq::<(u64, u64)>::empty());
    assert(motion_run(s3, Seq::<(u64, u64)>::empty()) == s3);
    assert(motion_run(s2, seq![(e3, m3)]) == s3);
    assert(motion_run(s1, seq![(e2, m2), (e3, m3)]) == s3);
}

/// Law: without any frame whose eyes read closed, no blink is counted.
pub proof fn lemma_no_closed_eyes_no_blink(s: MotionState, frames: Seq<(u64, u64)>)
    requires
        !s.eyes_closed,
        forall|i: int| 0 <= i < frames.len() ==> !eyes_read_closed(#[trigger] frames[i].0),
    ensures
        motion_run(s, frames).blinks == s.blinks,
        !motion_run(s, frames).eyes_closed,
    decreases frames.len(),
{
    if frames.len() > 0 {
        let next = motion_step(s, frames[0].0, frames[0].1);
        assert(!eyes_read_closed(frames[0].0));
        let rest = frames.drop_first();
        assert forall|i: int| 0 <= i < rest.len() implies !eyes_read_closed(#[trigger] rest[i].0) by {
            assert(rest[i] == frames[i + 1]);
        }
        lemma_no_closed_eyes_no_blink(next, rest);
    }
}

/// Law: without any frame whose mouth reads open, no mouth event is counted.
pub proof fn lemma_no_open_mouth_no_event(s: MotionState, frames: Seq<(u64, u64)>)
    requires
        !s.mouth_opened,
        forall|i: int| 0 <= i < frames.len() ==> !mouth_reads_open(#[trigger] frames[i].1),
    ensures
        motion_run(s, frames).mouth_events == s.mouth_events,
        !motion_run(s, frames).mouth_opened,
    decreases frames.len(),
{
    if frames.len() > 0 {
        let next = motion_step(s, frames[0].0, frames[0].1);
        assert(!mouth_reads_open(frames[0].1));
        let rest = frames.drop_first();
        assert forall|i: int| 0 <= i < rest.len() implies !mouth_reads_open(#[trigger] rest[i].1) by {
            assert(rest[i] == frames[i + 1]);
        }
        lemma_no_open_mouth_no_event(next, rest);
    }
}

/// Law: the frames a scan reports are the frames that were captured, and it
/// has seen a face exactly when some observation held one.
pub proof fn lemma_scan_counts(obs: Seq<FrameObservation>)
    ensures
        scan_run(scan_initial(), obs).frames == captured_count(obs),
        scan_run(scan_initial(), obs).any_face == some_face(obs),
    decreases obs.len(),
{
    if obs.len() > 0 {
        let prefix = obs.drop_last();
        lemma_scan_counts(prefix);
        if some_face(prefix) {
            let i = choose|i: int| 0 <= i < prefix.len() && (#[trigger] prefix[i] is IncompleteLandmarks || prefix[i] is Measured);
            assert(obs[i] == prefix[i]);
        }
        if some_face(obs) {
            let i = choose|i: int| 0 <= i < obs.len() && (#[trigger] obs[i] is IncompleteLandmarks || obs[i] is Measured);
            if i < obs.len() - 1 {
                assert(prefix[i] == obs[i]);
            }
        }
        if obs.last() is IncompleteLandmarks || obs.last() is Measured {
            assert(obs[obs.len() - 1] == obs.last());
        }
    }
}

/// Law: a scan that reported nothing for any of its observations is not
/// live, so when its time runs out it fails for want of a face or of motion,
/// never by timeout.
pub proof fn lemma_silent_scan_never_times_out(obs: Seq<FrameObservation>)
    requires
        forall|i: int|
            0 <= i < obs.len() ==> #[trigger] scan_report(scan_run(scan_initial(), obs.take(i)), obs[i])
                is None,
    ensures
        !motion_alive(scan_run(scan_initial(), obs).motion),
        !(scan_final(scan_run(scan_initial(), obs)) matches LivenessResult::Failed(
            LivenessFailure::Timeout { .. },
        )),
    decreases obs.len(),
{
    if obs.len() > 0 {
        let prefix = obs.drop_last();
        assert forall|i: int| 0 <= i < prefix.len() implies #[trigger] scan_report(
            scan_run(scan_initial(), prefix.take(i)),
            prefix[i],
        ) is None by {
            assert(prefix.take(i) =~= obs.take(i));
            assert(prefix[i] == obs[i]);
            assert(scan_report(scan_run(scan_initial(), obs.take(i)), obs[i]) is None);
        }
        lemma_silent_scan_never_times_out(prefix);
        let k = obs.len() - 1;
        assert(obs.take(k) =~= prefix);
        assert(obs[k] == obs.last());
        assert(scan_report(scan_run(scan_initial(), obs.take(k)), obs[k]) is None);
    }
}

/// Eye aspect ratio above which the diagnostic readout calls the eyes open (0.25).
pub const DIAG_EAR_OPEN: u64 = 0x3FD0_0000_0000_0000;
/// Mouth aspect ratio above which the diagnostic readout calls the mouth open (0.6).
pub const DIAG_MAR_OPEN: u64 = 0x3FE3_3333_3333_3333;
/// Mouth aspect ratio below which the diagnostic readout calls the mouth closed (0.3).
pub const DIAG_MAR_CLOSED: u64 = 0x3FD3_3333_3333_3333;

/// The diagnostic label of an eye aspect ratio: "CLOSED" below the blink
/// threshold, "open" above `DIAG_EAR_OPEN`, "partial" otherwise.
pub open spec fn eye_reading_text(ear: u64) -> Seq<char> {
    if f64_lt(ear, EAR_BLINK_THRESHOLD) {
        "CLOSED"@
    } else if f64_gt(ear, DIAG_EAR_OPEN) {
        "open"@
    } else {
        "partial"@
    }
}

/// The diagnostic label of a mouth aspect ratio: "OPEN" above
/// `DIAG_MAR_OPEN`, "closed" below `DIAG_MAR_CLOSED`, "partial" otherwise.
pub open spec fn mouth_reading_text(mar: u64) -> Seq<char> {
    if f64_gt(mar, DIAG_MAR_OPEN) {
        "OPEN"@
    } else if f64_lt(mar, DIAG_MAR_CLOSED) {
        "closed"@
    } else {
        "partial"@
    }
}

/// The diagnostic label of the eye aspect ratio with bit pattern `ear`.
pub fn eye_reading(ear: u64) -> (r: &'static str)
    ensures
        r@ == eye_reading_text(ear),
{
    if f64_less_than(ear, EAR_BLINK_THRESHOLD) {
        "CLOSED"
    } else if f64_greater_than(ear, DIAG_EAR_OPEN) {
        "open"
    } else {
        "partial"
    }
}

/// The diagnostic label of the mouth aspect ratio with bit pattern `mar`.
pub fn mouth_reading(mar: u64) -> (r: &'static str)
    ensures
        r@ == mouth_reading_text(mar),
{
    if f64_greater_than(mar, DIAG_MAR_OPEN) {
        "OPEN"
    } else if f64_less_than(mar, DIAG_MAR_CLOSED) {
        "closed"
    } else {
        "partial"
    }
}

/// Some frame's eyes read open.
pub open spec fn saw_eyes_open(f: Seq<(u64, u64)>) -> bool {
    exists|i: int| 0 <= i < f.len() && eyes_read_open(#[trigger] f[i].0)
}

/// Some frame's eyes read open and a later one's closed.
pub open spec fn saw_eyes_open_closed(f: Seq<(u64, u64)>) -> bool {
    exists|i: int, j: int|
        #![trigger f[i], f[j]]
        0 <= i < j < f.len() && eyes_read_open(f[i].0) && eyes_read_closed(f[j].0)
}

/// Some frames read eyes open, then closed, then open again, in that order.
pub open spec fn saw_open_closed_open(f: Seq<(u64, u64)>) -> bool {
    exists|i: int, j: int, k: int|
        #![trigger f[i], f[j], f[k]]
        0 <= i < j < k < f.len() && eyes_read_open(f[i].0) && eyes_read_closed(f[j].0)
            && eyes_read_open(f[k].0)
}

/// Some frame's mouth reads closed.
pub open spec fn saw_mouth_closed(f: Seq<(u64, u64)>) -> bool {
    exists|i: int| 0 <= i < f.len() && mouth_reads_closed(#[trigger] f[i].1)
}

/// Some frame's mouth reads closed and a later one's open.
pub open spec fn saw_mouth_closed_open(f: Seq<(u64, u64)>) -> bool {
    exists|i: int, j: int|
        #![trigger f[i], f[j]]
        0 <= i < j < f.len() && mouth_reads_closed(f[i].1) && mouth_reads_open(f[j].1)
}

/// Some frames read the mouth closed, then open, then closed again, in that
/// order.
pub open spec fn saw_closed_open_closed(f: Seq<(u64, u64)>) -> bool {
    exists|i: int, j: int, k: int|
        #![trigger f[i], f[j], f[k]]
        0 <= i < j < k < f.len() && mouth_reads_closed(f[i].1) && mouth_reads_open(f[j].1)
            && mouth_reads_closed(f[k].1)
}

proof fn lemma_run_last(s: MotionState, f: Seq<(u64, u64)>)
    requires
        f.len() > 0,
    ensures
        motion_run(s, f) == motion_step(motion_run(s, f.drop_last()), f.last().0, f.last().1),
    decreases f.len(),
{
    let s1 = motion_step(s, f[0].0, f[0].1);
    if f.len() == 1 {
        assert(f.drop_first() =~= Seq::<(u64, u64)>::empty());
        assert(f.drop_last() =~= Seq::<(u64, u64)>::empty());
        assert(motion_run(s1, f.drop_first()) == s1);
        assert(motion_run(s, f.drop_last()) == s);
        assert(f.last() == f[0]);
    } else {
        lemma_run_last(s1, f.drop_first());
        assert(f.drop_first().drop_last() =~= f.drop_last().drop_first());
        assert(f.drop_first().last() == f.last());
        assert(f.drop_last()[0] == f[0]);
        assert(motion_run(s, f.drop_last()) == motion_run(s1, f.drop_last().drop_first()));
    }
}

proof fn lemma_history(f: Seq<(u64, u64)>)
    ensures
        ({
            let r = motion_run(motion_initial(), f);
            &&& r.eyes_were_open ==> saw_eyes_open(f)
            &&& r.eyes_closed ==> saw_eyes_open_closed(f)
            &&& r.blinks > 0 ==> saw_open_closed_open(f)
            &&& r.mouth_was_closed ==> saw_mouth_closed(f)
            &&& r.mouth_opened ==> saw_mouth_closed_open(f)
            &&& r.mouth_events > 0 ==> saw_closed_open_closed(f)
        }),
    decreases f.len(),
{
    if f.len() > 0 {
        let g = f.drop_last();
        let n = g.len() as int;
        let x = f.last();
        lemma_history(g);
        lemma_run_last(motion_initial(), f);
        let p = motion_run(motion_initial(), g);
        let r = motion_run(motion_initial(), f);
        assert(r == motion_step(p, x.0, x.1));
        assert(f[n] == x);
        assert forall|i: int| 0 <= i < n implies #[trigger] f[i] == g[i] by {}
        if p.eyes_were_open {
            let i = choose|i: int| 0 <= i < g.len() && eyes_read_open(#[trigger] g[i].0);
            assert(f[i] == g[i]);
        }
        if p.eyes_closed {
            let (i, j) = choose|i: int, j: int|
                #![trigger g[i], g[j]]
                0 <= i < j < g.len() && eyes_read_open(g[i].0) && eyes_read_closed(g[j].0);
            assert(f[i] == g[i] && f[j] == g[j]);
            if r.blinks > p.blinks {
                assert(f[i] == g[i] && f[j] == g[j] && f[n] == x);
            }
        }
        if p.eyes_were_open && eyes_read_closed(x.0) && !eyes_read_open(x.0) {
            let i = choose|i: int| 0 <= i < g.len() && eyes_read_open(#[trigger] g[i].0);
            assert(f[i] == g[i] && f[n] == x);
        }
        if p.blinks > 0 {
            let (i, j, k) = choose|i: int, j: int, k: int|
                #![trigger g[i], g[j], g[k]]
                0 <= i < j < k < g.len() && eyes_read_open(g[i].0) && eyes_read_closed(g[j].0)
                    && eyes_read_open(g[k].0);
            assert(f[i] == g[i] && f[j] == g[j] && f[k] == g[k]);
        }
        if p.mouth_was_closed {
            let i = choose|i: int| 0 <= i < g.len() && mouth_reads_closed(#[trigger] g[i].1);
            assert(f[i] == g[i]);
            if mouth_reads_open(x.1) && !mouth_reads_closed(x.1) {
                assert(f[i] == g[i] && f[n] == x);
            }
        }
        if mouth_reads_closed(x.1) {
            assert(f[n] == x);
        }
        if eyes_read_open(x.0) {
            assert(f[n] == x);
        }
        if p.mouth_opened {
            let (i, j) = choose|i: int, j: int|
                #![trigger g[i], g[j]]
                0 <= i < j < g.len() && mouth_reads_closed(g[i].1) && mouth_reads_open(g[j].1);
            assert(f[i] == g[i] && f[j] == g[j]);
            if mouth_reads_closed(x.1) {
                assert(f[i] == g[i] && f[j] == g[j] && f[n] == x);
            }
        }
        if p.mouth_events > 0 {
            let (i, j, k) = choose|i: int, j: int, k: int|
                #![trigger g[i], g[j], g[k]]
                0 <= i < j < k < g.len() && mouth_reads_closed(g[i].1) && mouth_reads_open(g[j].1)
                    && mouth_reads_closed(g[k].1);
            assert(f[i] == g[i] && f[j] == g[j] && f[k] == g[k]);
        }
    }
}

/// Law: from a fresh tracker, a mouth event is counted only after frames
/// whose mouth reads closed, then open, then closed again, in that order; a
/// mouth that is open from the start does not count until it has been seen
/// closed first.
pub proof fn lemma_mouth_event_needs_closed_open_closed(frames: Seq<(u64, u64)>)
    ensures
        motion_run(motion_initial(), frames).mouth_events > 0 ==> saw_closed_open_closed(frames),
        motion_run(motion_initial(), frames).mouth_opened ==> saw_mouth_closed_open(frames),
{
    lemma_history(frames);
}

/// Law: from a fresh tracker, a blink is counted only after frames whose
/// eyes read open, then closed, then open again, in that order; eyes closed
/// from the start do not count until they have been seen open first.
pub proof fn lemma_blink_needs_open_closed_open(frames: Seq<(u64, u64)>)
    ensures
        motion_run(motion_initial(), frames).blinks > 0 ==> saw_open_closed_open(frames),
        motion_run(motion_initial(), frames).eyes_closed ==> saw_eyes_open_closed(frames),
{
    lemma_history(frames);
}

} // verus!
