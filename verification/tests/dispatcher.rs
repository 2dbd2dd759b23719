use bezel::config::OsdConfig;
use bezel::dispatcher::{notify_send_args, plan_osd, OsdAction};

fn osd(enabled: bool, backend: &str, hints: Option<bool>, pipe: Option<&str>) -> OsdConfig {
    OsdConfig {
        enabled,
        backend: backend.to_string(),
        canonical_hints: hints,
        pipe_path: pipe.map(|p| p.to_string()),
    }
}

fn msg() -> Option<String> {
    Some("Left Up".to_string())
}

#[test]
fn disabled_display_shows_nothing() {
    assert!(matches!(plan_osd(&osd(false, "notify-send", None, None), msg()), OsdAction::Silent));
    assert!(matches!(plan_osd(&osd(true, "notify-send", None, None), None), OsdAction::Silent));
}

#[test]
fn notify_send_without_hints() {
    match plan_osd(&osd(true, "notify-send", None, None), msg()) {
        OsdAction::NotifySend { args } => assert_eq!(
            args,
            vec!["-a", "Bezel", "-i", "input-touchpad", "-t", "1000", "-e", "Bezel", "Left Up"]
        ),
        _ => panic!("expected notify-send"),
    }
    match plan_osd(&osd(true, "notify-send", Some(false), None), msg()) {
        OsdAction::NotifySend { args } => assert_eq!(args.len(), 9),
        _ => panic!("expected notify-send"),
    }
}

#[test]
fn notify_send_with_hints() {
    match plan_osd(&osd(true, "notify-send", Some(true), None), msg()) {
        OsdAction::NotifySend { args } => assert_eq!(
            args,
            vec![
                "-a", "Bezel", "-i", "input-touchpad", "-t", "1000", "-e", "Bezel", "Left Up",
                "-h", "string:x-canonical-private-synchronous:bezel", "-h", "int:transient:1",
            ]
        ),
        _ => panic!("expected notify-send"),
    }
    assert_eq!(notify_send_args(&"x".to_string(), true).len(), 13);
}

#[test]
fn swayosd_backend() {
    match plan_osd(&osd(true, "swayosd", Some(true), None), msg()) {
        OsdAction::SwayOsd { args } => assert_eq!(args, vec!["--custom-message", "Left Up"]),
        _ => panic!("expected swayosd"),
    }
}

#[test]
fn pipe_backend() {
    match plan_osd(&osd(true, "pipe", None, Some("/tmp/osd.fifo")), msg()) {
        OsdAction::Pipe { path, line } => {
            assert_eq!(path, "/tmp/osd.fifo");
            assert_eq!(line, "Left Up\n");
        }
        _ => panic!("expected pipe"),
    }
    assert!(matches!(plan_osd(&osd(true, "pipe", None, None), msg()), OsdAction::MissingPipePath));
}

#[test]
fn unknown_backend_is_reported() {
    match plan_osd(&osd(true, "dunst", None, None), msg()) {
        OsdAction::UnknownBackend { backend } => assert_eq!(backend, "dunst"),
        _ => panic!("expected unknown backend"),
    }
    match plan_osd(&osd(true, "Pipe", None, Some("/x")), msg()) {
        OsdAction::UnknownBackend { backend } => assert_eq!(backend, "Pipe"),
        _ => panic!("expected unknown backend"),
    }
}
