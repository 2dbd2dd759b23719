use bezel::gesture::{
    classify_direction, osd_message, zone_from_edges, Direction, Motion,
    Zone, MAX_TAP_DURATION_MS,
};

fn motion(tap: bool, swipe: bool, x_dom: bool, dx_pos: bool, dy_pos: bool) -> Motion {
    Motion { tap_sized: tap, swipe_sized: swipe, x_dominant: x_dom, dx_positive: dx_pos, dy_positive: dy_pos }
}

#[test]
fn quick_small_touch_is_tap() {
    assert_eq!(classify_direction(motion(true, false, false, false, false), 0), Some(Direction::Tap));
    assert_eq!(classify_direction(motion(true, false, true, true, true), 199), Some(Direction::Tap));
}

#[test]
fn slow_small_touch_is_nothing() {
    assert_eq!(MAX_TAP_DURATION_MS, 200);
    assert_eq!(classify_direction(motion(true, false, true, true, false), 200), None);
    assert_eq!(classify_direction(motion(true, false, false, false, false), 5000), None);
}

#[test]
fn medium_touch_is_nothing() {
    assert_eq!(classify_direction(motion(false, false, true, true, true), 10), None);
}

#[test]
fn swipes_follow_dominant_axis() {
    assert_eq!(classify_direction(motion(false, true, true, true, false), 50), Some(Direction::Right));
    assert_eq!(classify_direction(motion(false, true, true, false, true), 50), Some(Direction::Left));
    assert_eq!(classify_direction(motion(false, true, false, true, true), 50), Some(Direction::Down));
    assert_eq!(classify_direction(motion(false, true, false, true, false), 5000), Some(Direction::Up));
}

#[test]
fn mirrored_swipe_mirrors_direction() {
    let m = motion(false, true, true, true, false);
    let mirrored = Motion { dx_positive: false, ..m };
    assert_eq!(classify_direction(m, 10), Some(Direction::Right));
    assert_eq!(classify_direction(mirrored, 10), Some(Direction::Left));
}

#[test]
fn zone_priority_is_left_right_top_bottom() {
    assert_eq!(zone_from_edges(true, true, true, true), Some(Zone::Left));
    assert_eq!(zone_from_edges(false, true, true, true), Some(Zone::Right));
    assert_eq!(zone_from_edges(false, false, true, true), Some(Zone::Top));
    assert_eq!(zone_from_edges(false, false, false, true), Some(Zone::Bottom));
    assert_eq!(zone_from_edges(false, false, false, false), None);
}

#[test]
fn names_and_messages() {
    assert_eq!(osd_message(Zone::Bottom, Direction::Tap), "Bottom Tap");
    assert_eq!(osd_message(Zone::Top, Direction::Left), "Top Left");
    assert_eq!(osd_message(Zone::Right, Direction::Down), "Right Down");
}

#[test]
fn reversed_motion_reverses_gesture() {
    for m in [
        motion(false, true, true, true, false),
        motion(false, true, false, true, true),
        motion(true, false, false, false, false),
        motion(false, false, true, true, true),
    ] {
        let r = Motion { dx_positive: !m.dx_positive, dy_positive: !m.dy_positive, ..m };
        let opposite = |d: Direction| match d {
            Direction::Up => Direction::Down,
            Direction::Down => Direction::Up,
            Direction::Left => Direction::Right,
            Direction::Right => Direction::Left,
            Direction::Tap => Direction::Tap,
        };
        assert_eq!(classify_direction(r, 10), classify_direction(m, 10).map(opposite));
    }
}
