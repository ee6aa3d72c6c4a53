use vauth::accounts::{real_username, sudo_target};
use vauth::audit::AuditEvent;
use vauth::camera::CameraConfig;
use vauth::keepalive::encode_keepalive;
use vauth::overlay::{derive_status, spawn_overlay, LivenessFrame};
use vauth::timestamps::{decimal_string, format_timestamp};

fn s(x: &str) -> Option<String> {
    Some(x.to_string())
}

#[test]
fn username_precedence() {
    assert_eq!(real_username(s("alice"), s("bob"), s("carol"), s("dave")), "alice");
    assert_eq!(real_username(s("root"), s("bob"), s("carol"), s("dave")), "bob");
    assert_eq!(real_username(s(""), s(""), s("carol"), s("dave")), "carol");
    assert_eq!(real_username(None, None, s(""), s("dave")), "dave");
    assert_eq!(real_username(None, None, None, None), "root");
    assert_eq!(sudo_target(s("root")), None);
    assert_eq!(sudo_target(s("eve")), s("eve"));
    assert_eq!(sudo_target(s("")), None);
}

#[test]
fn audit_events() {
    let e = AuditEvent::make_credential("t".to_string(), "rp", Some("u"), true, None, Some("boom"));
    assert_eq!((e.event, e.uv_result, e.rp_id.as_str()), ("makeCredential", "pass", "rp"));
    assert_eq!(e.user_name.as_deref(), Some("u"));
    assert_eq!(e.error.as_deref(), Some("boom"));
    assert_eq!(e.counter, None);
    let g = AuditEvent::get_assertion(String::new(), "rp", None, false, Some("id"), Some(9), None);
    assert_eq!((g.event, g.uv_result, g.counter), ("getAssertion", "fail", Some(9)));
    let g = g.stamped("now".to_string());
    assert_eq!(g.timestamp, "now");
    let g = g.stamped("later".to_string());
    assert_eq!(g.timestamp, "now");
    let n = AuditEvent::get_assertion_now("rp", None, true, None, None, None).stamped_now();
    assert!(!n.timestamp.is_empty());
    let blank = AuditEvent::get_assertion(String::new(), "rp", None, true, None, None, None).stamped_now();
    assert!(!blank.timestamp.is_empty());
    assert_eq!(blank.rp_id, "rp");
}

#[test]
fn keepalive_packet() {
    let p = encode_keepalive(0x0102_0304, 0x02);
    assert_eq!(&p[..8], &[1, 2, 3, 4, 0xBB, 0, 1, 2]);
    assert!(p[8..].iter().all(|&b| b == 0));
}

#[test]
fn camera_default() {
    let c = CameraConfig::default();
    assert_eq!((c.index, c.width, c.height), (0, 640, 480));
}

#[test]
fn overlay_status() {
    let mut f = LivenessFrame::default();
    assert_eq!(derive_status(&f), "Look at camera");
    f.face_detected = true;
    f.ear = 0.3f64.to_bits();
    assert_eq!(derive_status(&f), "Blink to verify");
    f.ear = 0.1f64.to_bits();
    assert_eq!(derive_status(&f), "Blink detected...");
    f.blinks = 1;
    assert_eq!(derive_status(&f), "Verifying identity...");
    let (_h, sender) = spawn_overlay();
    assert!(sender.sender().is_none());
    sender.send_final(true);
}

#[test]
fn timestamps() {
    assert_eq!(format_timestamp(0), "1970-01-01 00:00:00 UTC");
    assert_eq!(format_timestamp(1700000000), "2023-11-14 22:13:20 UTC");
    assert_eq!(format_timestamp(u64::MAX), "1969-12-31 23:59:59 UTC");
    assert_eq!(format_timestamp(i64::MAX as u64), "9223372036854775807");
    assert_eq!(decimal_string(0), "0");
    assert_eq!(decimal_string(u64::MAX), u64::MAX.to_string());
}
