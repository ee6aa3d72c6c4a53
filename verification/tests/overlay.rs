use vauth::overlay::{
    overlay_status, rgb_to_cairo_rgb24, status_color, LivenessFrame, OverlayProgress, OverlayStep,
    StatusColor,
};

fn frame(final_status: Option<bool>) -> LivenessFrame {
    LivenessFrame {
        rgb: vec![1, 2, 3],
        width: 1,
        height: 1,
        face_detected: true,
        ear: 0.3f64.to_bits(),
        mar: 0.0f64.to_bits(),
        blinks: 1,
        mouth_events: 0,
        time_remaining_secs: 7.5f32.to_bits(),
        final_status,
    }
}

#[test]
fn status_line_and_colour() {
    assert_eq!(overlay_status(None), "Initializing...");
    assert_eq!(status_color(None), StatusColor::Dim);
    assert_eq!(overlay_status(Some(&frame(Some(true)))), "Verified");
    assert_eq!(status_color(Some(&frame(Some(true)))), StatusColor::Primary);
    assert_eq!(overlay_status(Some(&frame(Some(false)))), "Not recognized");
    assert_eq!(status_color(Some(&frame(Some(false)))), StatusColor::Error);
    assert_eq!(overlay_status(Some(&frame(None))), "Verifying identity...");
    assert_eq!(status_color(Some(&frame(None))), StatusColor::Foreground);
}

#[test]
fn cairo_layout_of_camera_pixels() {
    // two rows of two pixels, rows padded to 12 bytes
    let rgb = vec![10, 20, 30, 40, 50, 60, 70, 80, 90, 100, 110, 120];
    let out = rgb_to_cairo_rgb24(&rgb, 2, 2, 12);
    assert_eq!(
        out,
        vec![
            30, 20, 10, 255, 60, 50, 40, 255, 0, 0, 0, 0, //
            90, 80, 70, 255, 120, 110, 100, 255, 0, 0, 0, 0,
        ]
    );
    // a pixel whose bytes are missing stays black with a zero fourth byte
    let short = rgb_to_cairo_rgb24(&rgb[..5], 2, 1, 8);
    assert_eq!(short, vec![30, 20, 10, 255, 0, 0, 0, 0]);
    assert!(rgb_to_cairo_rgb24(&rgb, 0, 0, 0).is_empty());
}

#[test]
fn overlay_window_polls() {
    let mut p = OverlayProgress::new();
    assert!(matches!(p.on_poll(None, true), OverlayStep::Wait));
    assert_eq!(p.total_timeout, None);

    let first = frame(None);
    match p.on_poll(Some(first), true) {
        OverlayStep::Draw { frame, keep_polling } => {
            assert!(keep_polling);
            assert_eq!(frame.blinks, 1);
        }
        _ => panic!("expected a frame to draw"),
    }
    assert_eq!(p.total_timeout, Some(7.5f32.to_bits()));

    let mut later = frame(None);
    later.time_remaining_secs = 3.0f32.to_bits();
    match p.on_poll(Some(later), false) {
        OverlayStep::Draw { keep_polling, .. } => assert!(!keep_polling),
        _ => panic!("expected a frame to draw"),
    }
    // the full length stays the one of the first frame
    assert_eq!(p.total_timeout, Some(7.5f32.to_bits()));

    match p.on_poll(Some(frame(Some(true))), true) {
        OverlayStep::Verdict { frame } => {
            assert_eq!(frame.final_status, Some(true));
            assert!(frame.rgb.is_empty());
            assert!(!frame.face_detected);
        }
        _ => panic!("expected the verdict"),
    }
    assert!(p.final_shown);
    assert!(matches!(p.on_poll(Some(frame(None)), true), OverlayStep::Wait));
}
