use bezel::config::{
    default_gestures, resolve_gesture, DeviceConfig, GestureAction, GestureTable, OsdConfig,
};
use bezel::gesture::{Direction, Zone};

const ZONES: [Zone; 4] = [Zone::Left, Zone::Right, Zone::Top, Zone::Bottom];
const DIRECTIONS: [Direction; 5] =
    [Direction::Up, Direction::Down, Direction::Left, Direction::Right, Direction::Tap];

#[test]
fn device_and_osd_defaults() {
    assert_eq!(DeviceConfig::default().path, "auto");
    let osd = OsdConfig::default();
    assert!(!osd.enabled);
    assert_eq!(osd.backend, "notify-send");
    assert_eq!(osd.canonical_hints, None);
    assert_eq!(osd.pipe_path, None);
}

#[test]
fn default_bindings_are_the_documented_ones() {
    let t = default_gestures();
    let expect = |z: Zone, d: Direction| -> Option<&'static str> {
        match (z, d) {
            (Zone::Left, Direction::Up) => Some("wpctl set-volume @DEFAULT_SINK@ 5%+"),
            (Zone::Left, Direction::Down) => Some("wpctl set-volume @DEFAULT_SINK@ 5%-"),
            (Zone::Right, Direction::Up) => Some("brightnessctl set 10%+"),
            (Zone::Right, Direction::Down) => Some("brightnessctl set 10%-"),
            (Zone::Top, Direction::Left) => Some("hyprctl dispatch workspace e-1"),
            (Zone::Top, Direction::Right) => Some("hyprctl dispatch workspace e+1"),
            (Zone::Bottom, Direction::Left) => Some("playerctl previous"),
            (Zone::Bottom, Direction::Right) => Some("playerctl next"),
            (Zone::Bottom, Direction::Tap) => Some("playerctl play-pause"),
            _ => None,
        }
    };
    for z in ZONES {
        for d in DIRECTIONS {
            match (t.get(z, d), expect(z, d)) {
                (Some(a), Some(cmd)) => {
                    assert_eq!(a.action, "command");
                    assert_eq!(a.cmd, cmd);
                }
                (None, None) => {}
                (got, want) => panic!("{:?} {:?}: {:?} vs {:?}", z, d, got, want),
            }
        }
    }
}

#[test]
fn table_reads_back_what_was_written() {
    let mut t = GestureTable::new();
    for z in ZONES {
        for d in DIRECTIONS {
            assert!(t.get(z, d).is_none());
        }
    }
    t.insert(Zone::Top, Direction::Tap, GestureAction::new("command", "echo one"));
    t.insert(Zone::Top, Direction::Up, GestureAction::new("command", "echo two"));
    t.insert(Zone::Top, Direction::Tap, GestureAction::new("command", "echo three"));
    assert_eq!(t.get(Zone::Top, Direction::Tap).unwrap().cmd, "echo three");
    assert_eq!(t.get(Zone::Top, Direction::Up).unwrap().cmd, "echo two");
    assert!(t.get(Zone::Bottom, Direction::Tap).is_none());
    assert!(t.get(Zone::Top, Direction::Down).is_none());
}

#[test]
fn default_bottom_tap_plays_or_pauses() {
    let t = default_gestures();
    let c = resolve_gesture(&t, Zone::Bottom, Direction::Tap).unwrap();
    assert_eq!(c.cmd, "playerctl play-pause");
    assert_eq!(c.osd_message.as_deref(), Some("Bottom Tap"));
    let c = resolve_gesture(&t, Zone::Left, Direction::Up).unwrap();
    assert_eq!(c.cmd, "wpctl set-volume @DEFAULT_SINK@ 5%+");
    assert_eq!(c.osd_message.as_deref(), Some("Left Up"));
}

#[test]
fn unbound_gesture_resolves_to_nothing() {
    let t = default_gestures();
    assert!(resolve_gesture(&t, Zone::Left, Direction::Tap).is_none());
    assert!(resolve_gesture(&t, Zone::Top, Direction::Up).is_none());
}

#[test]
fn non_command_action_resolves_to_nothing() {
    let mut t = GestureTable::new();
    t.insert(Zone::Right, Direction::Tap, GestureAction::new("Command", "echo hi"));
    t.insert(Zone::Left, Direction::Tap, GestureAction::new("command", "echo hi"));
    assert!(resolve_gesture(&t, Zone::Right, Direction::Tap).is_none());
    let c = resolve_gesture(&t, Zone::Left, Direction::Tap).unwrap();
    assert_eq!(c.cmd, "echo hi");
}
