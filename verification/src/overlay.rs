//! Verification overlay: the status line shown for a liveness frame, and the
//! handles of an overlay session in builds without the GTK overlay (where
//! showing frames does nothing).

use vstd::prelude::*;
use crate::float_order::{f64_lt, f64_less_than};
use crate::liveness::EAR_BLINK_THRESHOLD;
use vstd::arithmetic::div_mod::lemma_fundamental_div_mod_converse;

verus! {

/// `std::sync::mpsc::SyncSender`, the channel end that frames are pushed into.
#[verifier::external_type_specification]
#[verifier::external_body]
#[verifier::reject_recursive_types(T)]
pub struct ExSyncSender<T>(std::sync::mpsc::SyncSender<T>);

/// One frame of a liveness check as the overlay shows it. The ratios and
/// the remaining time are floating-point values given by their bit patterns
/// (`f64::to_bits` for the ratios, `f32::to_bits` for the time).
pub struct LivenessFrame {
    pub rgb: Vec<u8>,
    pub width: u32,
    pub height: u32,
    pub face_detected: bool,
    pub ear: u64,
    pub mar: u64,
    pub blinks: u32,
    pub mouth_events: u32,
    pub time_remaining_secs: u32,
    pub final_status: Option<bool>,
}

impl Default for LivenessFrame {
    /// An empty frame: no image, no face, all counters and values zero.
    fn default() -> (f: Self)
        ensures
            f.rgb@.len() == 0,
            f.width == 0,
            f.height == 0,
            !f.face_detected,
            f.ear == 0,
            f.mar == 0,
            f.blinks == 0,
            f.mouth_events == 0,
            f.time_remaining_secs == 0,
            f.final_status is None,
    {
        LivenessFrame {
            rgb: Vec::new(),
            width: 0,
            height: 0,
            face_detected: false,
            ear: 0,
            mar: 0,
            blinks: 0,
            mouth_events: 0,
            time_remaining_secs: 0,
            final_status: None,
        }
    }
}

/// The status line for a frame of a liveness check in progress.
pub open spec fn status_text(face_detected: bool, blinks: u32, mouth_events: u32, ear: u64) -> Seq<char> {
    if !face_detected {
        "Look at camera"@
    } else if blinks == 0 && mouth_events == 0 {
        if f64_lt(ear, EAR_BLINK_THRESHOLD) {
            "Blink detected..."@
        } else {
            "Blink to verify"@
        }
    } else {
        "Verifying identity..."@
    }
}

/// The status line shown for a frame of a liveness check in progress.
pub fn derive_status(frame: &LivenessFrame) -> (r: &'static str)
    ensures
        r@ == status_text(frame.face_detected, frame.blinks, frame.mouth_events, frame.ear),
        !frame.face_detected ==> r@ == "Look at camera"@,
        frame.face_detected && (frame.blinks > 0 || frame.mouth_events > 0) ==> r@
            == "Verifying identity..."@,
        frame.face_detected && frame.blinks == 0 && frame.mouth_events == 0 ==> r@ == (if f64_lt(
            frame.ear,
            EAR_BLINK_THRESHOLD,
        ) {
            "Blink detected..."@
        } else {
            "Blink to verify"@
        }),
{
    if !frame.face_detected {
        return "Look at camera";
    }
    if frame.blinks == 0 && frame.mouth_events == 0 {
        if f64_less_than(frame.ear, EAR_BLINK_THRESHOLD) {
            return "Blink detected...";
        }
        return "Blink to verify";
    }
    "Verifying identity..."
}

/// The text shown under the camera circle: "Initializing..." before the
/// first frame, the verdict once there is one, else the status of the frame.
pub open spec fn overlay_text(frame: Option<LivenessFrame>) -> Seq<char> {
    match frame {
        None => "Initializing..."@,
        Some(f) => match f.final_status {
            Some(true) => "Verified"@,
            Some(false) => "Not recognized"@,
            None => status_text(f.face_detected, f.blinks, f.mouth_events, f.ear),
        },
    }
}

/// The text shown under the camera circle for the frame on display.
pub fn overlay_status(frame: Option<&LivenessFrame>) -> (r: &'static str)
    ensures
        r@ == overlay_text(match frame { Some(f) => Some(*f), None => None }),
{
    match frame {
        None => "Initializing...",
        Some(f) => match f.final_status {
            Some(true) => "Verified",
            Some(false) => "Not recognized",
            None => derive_status(f),
        },
    }
}

/// The theme colour that the status text is drawn in.
#[derive(Clone, Copy, Debug, PartialEq, Eq, Structural)]
pub enum StatusColor {
    Primary,
    Error,
    Foreground,
    Dim,
}

/// The colour of the status text: dimmed before the first frame, the
/// primary colour for a success, the error colour for a failure, the
/// foreground colour while the check runs.
pub open spec fn status_color_of(frame: Option<LivenessFrame>) -> StatusColor {
    match frame {
        None => StatusColor::Dim,
        Some(f) => match f.final_status {
            Some(true) => StatusColor::Primary,
            Some(false) => StatusColor::Error,
            None => StatusColor::Foreground,
        },
    }
}

/// The colour that the status text is drawn in for the frame on display.
pub fn status_color(frame: Option<&LivenessFrame>) -> (c: StatusColor)
    ensures
        c == status_color_of(match frame { Some(f) => Some(*f), None => None }),
{
    match frame {
        None => StatusColor::Dim,
        Some(f) => match f.final_status {
            Some(true) => StatusColor::Primary,
            Some(false) => StatusColor::Error,
            None => StatusColor::Foreground,
        },
    }
}

/// Byte `i` of a camera image (`width` pixels per row, three bytes red,
/// green, blue per pixel in `rgb`) laid out for cairo's RGB24 format with
/// `stride` bytes per row: each pixel becomes blue, green, red and 255;
/// the padding at the end of a row, and a pixel whose bytes lie beyond
/// `rgb`, stay 0.
pub open spec fn cairo_rgb24_byte(rgb: Seq<u8>, width: int, stride: int, i: int) -> u8 {
    let row = i / stride;
    let offset = i % stride;
    if offset >= 4 * width {
        0
    } else {
        let src = (row * width + offset / 4) * 3;
        if src + 2 < rgb.len() {
            let channel = offset % 4;
            if channel == 0 {
                rgb[src + 2]
            } else if channel == 1 {
                rgb[src + 1]
            } else if channel == 2 {
                rgb[src]
            } else {
                255
            }
        } else {
            0
        }
    }
}

/// The four bytes that pixel (`x`, `y`) occupies in a cairo RGB24 image
/// with `stride` bytes per row.
pub open spec fn cairo_pixel(out: Seq<u8>, stride: int, y: int, x: int) -> (u8, u8, u8, u8) {
    let at = y * stride + 4 * x;
    (out[at], out[at + 1], out[at + 2], out[at + 3])
}

/// The red, green and blue bytes of pixel (`x`, `y`) of a camera image with
/// `width` pixels per row.
pub open spec fn camera_pixel(rgb: Seq<u8>, width: int, y: int, x: int) -> (u8, u8, u8) {
    let at = (y * width + x) * 3;
    (rgb[at], rgb[at + 1], rgb[at + 2])
}

proof fn lemma_row_offset(stride: int, row: int, offset: int)
    requires
        0 <= row,
        0 <= offset < stride,
    ensures
        (row * stride + offset) / stride == row,
        (row * stride + offset) % stride == offset,
{
    lemma_fundamental_div_mod_converse(row * stride + offset, stride, row, offset);
}

proof fn lemma_pixel_bounds(y: int, x: int, width: int, height: int, stride: int)
    by (nonlinear_arith)
    requires
        0 <= y < height,
        0 <= x < width,
        4 * width <= stride,
        stride * height <= 0x7FFF_FFFF,
    ensures
        (y * width + x) * 3 + 2 < 0x7FFF_FFFF,
        y * stride + 4 * x + 3 < stride * height,
{
}

proof fn lemma_row_bounds(y: int, height: int, stride: int)
    by (nonlinear_arith)
    requires
        0 <= y < height,
        0 <= stride,
    ensures
        (y + 1) * stride == y * stride + stride,
        y * stride + stride <= stride * height,
        height * stride == stride * height,
{
}

/// Lays a camera image out for cairo's RGB24 format: `stride` bytes per
/// row, for `height` rows (see `cairo_rgb24_byte`). `stride` is the one that
/// cairo gives for `width`, at least four bytes per pixel, and the image's
/// size stays within the `i32` range in which cairo counts it.
pub fn rgb_to_cairo_rgb24(rgb: &[u8], width: u32, height: u32, stride: u32) -> (out: Vec<u8>)
    requires
        4 * width <= stride,
        stride * height <= 0x7FFF_FFFF,
    ensures
        out@.len() == stride * height,
        forall|i: int| 0 <= i < out@.len()
            ==> #[trigger] out@[i] == cairo_rgb24_byte(rgb@, width as int, stride as int, i),
        forall|y: int, x: int|
            0 <= y < height && 0 <= x < width && (y * width + x) * 3 + 2 < rgb@.len() ==> {
                let p = camera_pixel(rgb@, width as int, y, x);
                #[trigger] cairo_pixel(out@, stride as int, y, x) == (p.2, p.1, p.0, 255u8)
            },
{
    let w = width as usize;
    let h = height as usize;
    let st = stride as usize;
    let total = st * h;
    let mut out: Vec<u8> = vec![0u8; total];
    let mut y: usize = 0;
    while y < h
        invariant
            w == width,
            h == height,
            st == stride,
            4 * w <= st,
            st * h <= 0x7FFF_FFFF,
            total == st * h,
            out@.len() == total,
            y <= h,
            forall|i: int| 0 <= i < y * st
                ==> #[trigger] out@[i] == cairo_rgb24_byte(rgb@, w as int, st as int, i),
            forall|i: int| y * st <= i < total ==> #[trigger] out@[i] == 0,
        decreases h - y,
    {
        proof {
            lemma_row_bounds(y as int, h as int, st as int);
        }
        let row = y * st;
        let mut x: usize = 0;
        while x < w
            invariant
                w == width,
                h == height,
                st == stride,
                4 * w <= st,
                st * h <= 0x7FFF_FFFF,
                total == st * h,
                out@.len() == total,
                y < h,
                row == y * st,
                row + st <= total,
                x <= w,
                forall|i: int| 0 <= i < row + 4 * x
                    ==> #[trigger] out@[i] == cairo_rgb24_byte(rgb@, w as int, st as int, i),
                forall|i: int| row + 4 * x <= i < total ==> #[trigger] out@[i] == 0,
            decreases w - x,
        {
            proof {
                lemma_pixel_bounds(y as int, x as int, w as int, h as int, st as int);
            }
            let src = (y * w + x) * 3;
            let dst = row + 4 * x;
            if src + 2 < rgb.len() {
                out[dst] = rgb[src + 2];
                out[dst + 1] = rgb[src + 1];
                out[dst + 2] = rgb[src];
                out[dst + 3] = 255;
            }
            proof {
                assert forall|c: int| 0 <= c < 4 implies
                    #[trigger] out@[dst + c] == cairo_rgb24_byte(rgb@, w as int, st as int, dst + c) by {
                    lemma_row_offset(st as int, y as int, 4 * x + c);
                    lemma_fundamental_div_mod_converse(4 * x + c, 4, x as int, c);
                }
                assert forall|i: int| 0 <= i < row + 4 * (x + 1) implies
                    #[trigger] out@[i] == cairo_rgb24_byte(rgb@, w as int, st as int, i) by {
                    if i >= dst {
                        assert(out@[dst + (i - dst)] == cairo_rgb24_byte(rgb@, w as int, st as int, dst + (i - dst)));
                    }
                }
            }
            x = x + 1;
        }
        proof {
            assert forall|i: int| 0 <= i < (y + 1) * st implies
                #[trigger] out@[i] == cairo_rgb24_byte(rgb@, w as int, st as int, i) by {
                if i >= row + 4 * w {
                    lemma_row_offset(st as int, y as int, i - row);
                }
            }
        }
        y = y + 1;
    }
    proof {
        if h > 0 {
            lemma_row_bounds(0, h as int, st as int);
        }
        assert forall|yy: int, xx: int|
            0 <= yy < height && 0 <= xx < width && (yy * width + xx) * 3 + 2 < rgb@.len() implies {
                let p = camera_pixel(rgb@, width as int, yy, xx);
                #[trigger] cairo_pixel(out@, stride as int, yy, xx) == (p.2, p.1, p.0, 255u8)
            } by {
            lemma_pixel_bounds(yy, xx, width as int, height as int, stride as int);
            let at = yy * stride + 4 * xx;
            lemma_row_offset(stride as int, yy, 4 * xx);
            lemma_row_offset(stride as int, yy, 4 * xx + 1);
            lemma_row_offset(stride as int, yy, 4 * xx + 2);
            lemma_row_offset(stride as int, yy, 4 * xx + 3);
            lemma_fundamental_div_mod_converse(4 * xx, 4, xx, 0);
            lemma_fundamental_div_mod_converse(4 * xx + 1, 4, xx, 1);
            lemma_fundamental_div_mod_converse(4 * xx + 2, 4, xx, 2);
            lemma_fundamental_div_mod_converse(4 * xx + 3, 4, xx, 3);
            assert(out@[at] == cairo_rgb24_byte(rgb@, width as int, stride as int, at));
            assert(out@[at + 1] == cairo_rgb24_byte(rgb@, width as int, stride as int, at + 1));
            assert(out@[at + 2] == cairo_rgb24_byte(rgb@, width as int, stride as int, at + 2));
            assert(out@[at + 3] == cairo_rgb24_byte(rgb@, width as int, stride as int, at + 3));
        }
    }
    out
}

/// Milliseconds that the verdict stays on screen before the window closes.
pub const VERDICT_DISPLAY_MS: u64 = 1500;

/// What an overlay window has shown so far.
pub struct OverlayProgress {
    /// Whether the verdict is on screen.
    pub final_shown: bool,
    /// The remaining time of the first frame (bits of an `f32`): the full
    /// length of the check, against which the timeout ring is drawn.
    pub total_timeout: Option<u32>,
}

/// What the window does after a poll of the frame channel.
pub enum OverlayStep {
    /// Nothing new: keep polling.
    Wait,
    /// Draw `frame`; keep polling while the window is open, else report the
    /// session done and stop polling.
    Draw { frame: LivenessFrame, keep_polling: bool },
    /// Draw the verdict frame, close the window after `VERDICT_DISPLAY_MS`
    /// and stop polling.
    Verdict { frame: LivenessFrame },
}

impl OverlayProgress {
    /// A window that has shown nothing yet.
    pub fn new() -> (p: Self)
        ensures
            !p.final_shown,
            p.total_timeout is None,
    {
        OverlayProgress { final_shown: false, total_timeout: None }
    }

    /// One poll of the frame channel, given the newest frame that arrived
    /// since the last poll (if any) and whether the window is still open.
    /// Once the verdict is on screen nothing else is drawn; the first frame
    /// fixes the full length of the check; a frame with a verdict is shown
    /// as the bare verdict.
    pub fn on_poll(&mut self, latest: Option<LivenessFrame>, window_open: bool) -> (step: OverlayStep)
        ensures
            old(self).final_shown ==> step is Wait && *final(self) == *old(self),
            !old(self).final_shown && latest is None ==> step is Wait && *final(self) == *old(self),
            !old(self).final_shown && latest is Some ==> {
                let f = latest->0;
                &&& final(self).total_timeout == (match old(self).total_timeout {
                    Some(t) => Some(t),
                    None => Some(f.time_remaining_secs),
                })
                &&& match f.final_status {
                    Some(success) => {
                        &&& final(self).final_shown
                        &&& step matches OverlayStep::Verdict { frame } && frame.final_status
                            == Some(success) && frame.rgb@.len() == 0 && frame.width == 0
                            && frame.height == 0 && !frame.face_detected && frame.ear == 0
                            && frame.mar == 0 && frame.blinks == 0 && frame.mouth_events == 0
                            && frame.time_remaining_secs == 0
                    },
                    None => {
                        &&& !final(self).final_shown
                        &&& step matches OverlayStep::Draw { frame, keep_polling } && frame == f
                            && keep_polling == window_open
                    },
                }
            },
    {
        if self.final_shown {
            return OverlayStep::Wait;
        }
        match latest {
            None => OverlayStep::Wait,
            Some(frame) => {
                if self.total_timeout.is_none() {
                    self.total_timeout = Some(frame.time_remaining_secs);
                }
                match frame.final_status {
                    Some(success) => {
                        self.final_shown = true;
                        let mut shown = LivenessFrame::default();
                        shown.final_status = Some(success);
                        OverlayStep::Verdict { frame: shown }
                    },
                    None => OverlayStep::Draw { frame, keep_polling: window_open },
                }
            },
        }
    }
}

/// Law: a frame without a face asks the user to look at the camera; once a
/// blink or a mouth event has been seen the identity is being checked; before
/// any motion the line prompts for a blink, or shows one in progress while
/// the eyes read closed.
pub proof fn lemma_status_line(face_detected: bool, blinks: u32, mouth_events: u32, ear: u64)
    ensures
        !face_detected ==> status_text(face_detected, blinks, mouth_events, ear) == "Look at camera"@,
        face_detected && (blinks > 0 || mouth_events > 0) ==> status_text(
            face_detected,
            blinks,
            mouth_events,
            ear,
        ) == "Verifying identity..."@,
        face_detected && blinks == 0 && mouth_events == 0 ==> status_text(
            face_detected,
            blinks,
            mouth_events,
            ear,
        ) == (if f64_lt(ear, EAR_BLINK_THRESHOLD) {
            "Blink detected..."@
        } else {
            "Blink to verify"@
        }),
{
}

/// Handle to the current overlay session.
pub struct OverlayHandle {}

/// Sender for pushing liveness frames to the overlay.
pub struct OverlaySender {}

impl OverlaySender {
    /// The channel that frames are pushed into; there is none without the
    /// GTK overlay.
    pub fn sender(&self) -> (r: Option<&std::sync::mpsc::SyncSender<LivenessFrame>>)
        ensures
            r is None,
    {
        None
    }

    /// Shows the final verdict; without the GTK overlay there is nothing to show.
    pub fn send_final(&self, _success: bool) {
    }
}

/// Starts an overlay session; without the GTK overlay it shows nothing.
pub fn spawn_overlay() -> (OverlayHandle, OverlaySender) {
    (OverlayHandle {}, OverlaySender {})
}

} // verus!
