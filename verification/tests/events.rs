use bezel::config::{default_device_path, default_osd_backend};
use bezel::events::{
    btn_tool_for_count, is_mt_axis, is_single_touch_emulation, supports_trackpad_axes, RawEvent,
    ABS_MT_POSITION_X, ABS_MT_POSITION_Y, ABS_X, ABS_Y,
};

fn ev(event_type: u16, code: u16, value: i32) -> RawEvent {
    RawEvent { event_type, code, value }
}

#[test]
fn tool_key_for_each_finger_count() {
    assert_eq!(btn_tool_for_count(0), None);
    assert_eq!(btn_tool_for_count(1), Some(0x145));
    assert_eq!(btn_tool_for_count(2), Some(0x14d));
    assert_eq!(btn_tool_for_count(3), Some(0x14e));
    assert_eq!(btn_tool_for_count(4), Some(0x14f));
    assert_eq!(btn_tool_for_count(5), Some(0x148));
    assert_eq!(btn_tool_for_count(6), None);
    assert_eq!(btn_tool_for_count(255), None);
}

#[test]
fn emulation_events_are_recognized() {
    assert!(is_single_touch_emulation(&ev(3, 0x00, 5)));
    assert!(is_single_touch_emulation(&ev(3, 0x01, 5)));
    assert!(is_single_touch_emulation(&ev(1, 0x14a, 1)));
    assert!(is_single_touch_emulation(&ev(1, 0x145, 1)));
    assert!(is_single_touch_emulation(&ev(1, 0x148, 0)));
    assert!(is_single_touch_emulation(&ev(1, 0x14f, 0)));
    // Multitouch axes, other keys and other event types are not emulation.
    assert!(!is_single_touch_emulation(&ev(3, 0x35, 5)));
    assert!(!is_single_touch_emulation(&ev(1, 0x110, 1)));
    assert!(!is_single_touch_emulation(&ev(0, 0x00, 0)));
    assert!(!is_single_touch_emulation(&ev(2, 0x00, 1)));
    // ABS_X's code with the key type is not emulation.
    assert!(!is_single_touch_emulation(&ev(1, 0x00, 1)));
}

#[test]
fn multitouch_axis_range() {
    assert!(!is_mt_axis(0x2e));
    assert!(is_mt_axis(0x2f));
    assert!(is_mt_axis(0x35));
    assert!(is_mt_axis(0x3d));
    assert!(!is_mt_axis(0x3e));
    assert!(!is_mt_axis(0x00));
}

#[test]
fn trackpad_needs_all_four_axes() {
    let full = vec![ABS_X, ABS_Y, 0x18, ABS_MT_POSITION_X, ABS_MT_POSITION_Y];
    assert!(supports_trackpad_axes(&full));
    let no_mt = vec![ABS_X, ABS_Y, 0x18];
    assert!(!supports_trackpad_axes(&no_mt));
    let no_y = vec![ABS_X, ABS_MT_POSITION_X, ABS_MT_POSITION_Y];
    assert!(!supports_trackpad_axes(&no_y));
    assert!(!supports_trackpad_axes(&vec![]));
}

#[test]
fn default_strings() {
    assert_eq!(default_device_path(), "auto");
    assert_eq!(default_osd_backend(), "notify-send");
}
