//! Edge zones, gesture directions, and the decisions that turn a measured
//! finger motion into a gesture.

use vstd::prelude::*;
use vstd::string::*;

verus! {

/// An edge zone of the trackpad.
#[derive(Debug, Clone, Copy, PartialEq, Eq, Hash, Structural)]
pub enum Zone {
    Left,
    Right,
    Top,
    Bottom,
}

/// The direction of a gesture, or a tap.
#[derive(Debug, Clone, Copy, PartialEq, Eq, Hash, Structural)]
pub enum Direction {
    Up,
    Down,
    Left,
    Right,
    Tap,
}

/// A command to run, with the message for the on-screen display.
pub struct ActionCommand {
    pub cmd: String,
    pub osd_message: Option<String>,
}

/// Longest touch, in milliseconds, that still counts as a tap.
pub const MAX_TAP_DURATION_MS: u128 = 200;

/// What is known of a finished touch's motion, measured on the normalized
/// displacement `(dx, dy)` and its length.
#[derive(Debug, Clone, Copy, PartialEq, Eq)]
pub struct Motion {
    /// The length of the motion is below the tap threshold.
    pub tap_sized: bool,
    /// The length of the motion reaches the swipe threshold.
    pub swipe_sized: bool,
    /// The horizontal part of the motion is strictly longer than the vertical part.
    pub x_dominant: bool,
    /// The motion goes right (`dx > 0`).
    pub dx_positive: bool,
    /// The motion goes down (`dy > 0`).
    pub dy_positive: bool,
}

/// The direction of a swipe: along its dominant axis, with its sign; a
/// motion whose axes are equally long counts as vertical.
pub open spec fn swipe_direction(m: Motion) -> Direction {
    if m.x_dominant {
        if m.dx_positive { Direction::Right } else { Direction::Left }
    } else {
        if m.dy_positive { Direction::Down } else { Direction::Up }
    }
}

/// A short, quick touch is a tap; a long enough motion is a swipe along its
/// dominant axis; anything else is no gesture.
pub open spec fn classified(m: Motion, duration_ms: u128) -> Option<Direction> {
    if m.tap_sized && duration_ms < MAX_TAP_DURATION_MS {
        Some(Direction::Tap)
    } else if m.swipe_sized {
        Some(swipe_direction(m))
    } else {
        None
    }
}

/// Classifies a finished touch into a tap, a directional swipe, or nothing.
pub fn classify_direction(motion: Motion, duration_ms: u128) -> (r: Option<Direction>)
    ensures
        r == classified(motion, duration_ms),
{
    if motion.tap_sized && duration_ms < MAX_TAP_DURATION_MS {
        return Some(Direction::Tap);
    }
    if motion.swipe_sized {
        let direction = if motion.x_dominant {
            if motion.dx_positive {
                Direction::Right
            } else {
                Direction::Left
            }
        } else {
            if motion.dy_positive {
                Direction::Down
            } else {
                Direction::Up
            }
        };
        return Some(direction);
    }
    None
}

/// The zone of a touch that starts near the given edges: left first, then
/// right, top and bottom.
pub open spec fn zone_of_edges(left: bool, right: bool, top: bool, bottom: bool) -> Option<Zone> {
    if left {
        Some(Zone::Left)
    } else if right {
        Some(Zone::Right)
    } else if top {
        Some(Zone::Top)
    } else if bottom {
        Some(Zone::Bottom)
    } else {
        None
    }
}

/// Picks the zone of a touch from the edge bands that its start lies in.
pub fn zone_from_edges(near_left: bool, near_right: bool, near_top: bool, near_bottom: bool) -> (r:
    Option<Zone>)
    ensures
        r == zone_of_edges(near_left, near_right, near_top, near_bottom),
{
    if near_left {
        Some(Zone::Left)
    } else if near_right {
        Some(Zone::Right)
    } else if near_top {
        Some(Zone::Top)
    } else if near_bottom {
        Some(Zone::Bottom)
    } else {
        None
    }
}

/// The name of a zone.
pub open spec fn zone_label(z: Zone) -> Seq<char> {
    match z {
        Zone::Left => "Left"@,
        Zone::Right => "Right"@,
        Zone::Top => "Top"@,
        Zone::Bottom => "Bottom"@,
    }
}

/// The name of a direction.
pub open spec fn direction_label(d: Direction) -> Seq<char> {
    match d {
        Direction::Up => "Up"@,
        Direction::Down => "Down"@,
        Direction::Left => "Left"@,
        Direction::Right => "Right"@,
        Direction::Tap => "Tap"@,
    }
}

/// The on-screen message for a gesture: the zone's name, a space, and the
/// direction's name.
pub open spec fn osd_label(z: Zone, d: Direction) -> Seq<char> {
    zone_label(z) + " "@ + direction_label(d)
}

fn zone_str(z: Zone) -> (r: &'static str)
    ensures
        r@ == zone_label(z),
{
    match z {
        Zone::Left => "Left",
        Zone::Right => "Right",
        Zone::Top => "Top",
        Zone::Bottom => "Bottom",
    }
}

fn direction_str(d: Direction) -> (r: &'static str)
    ensures
        r@ == direction_label(d),
{
    match d {
        Direction::Up => "Up",
        Direction::Down => "Down",
        Direction::Left => "Left",
        Direction::Right => "Right",
        Direction::Tap => "Tap",
    }
}

/// The on-screen message that announces a gesture, such as `Bottom Tap`.
pub fn osd_message(z: Zone, d: Direction) -> (r: String)
    ensures
        r@ == osd_label(z, d),
{
    let mut s = String::from_str(zone_str(z));
    s.append(" ");
    s.append(direction_str(d));
    s
}

/// Law: mirroring a swipe left-to-right mirrors its direction, and leaves
/// taps, vertical swipes and non-gestures as they were.
pub proof fn lemma_horizontal_mirror(m: Motion, duration_ms: u128)
    requires
        m.x_dominant,
    ensures
        ({
            let mirrored = Motion { dx_positive: !m.dx_positive, ..m };
            &&& classified(m, duration_ms) == Some(Direction::Right) <==> classified(mirrored, duration_ms) == Some(Direction::Left)
            &&& classified(m, duration_ms) == Some(Direction::Tap) <==> classified(mirrored, duration_ms) == Some(Direction::Tap)
            &&& classified(m, duration_ms) is None <==> classified(mirrored, duration_ms) is None
        }),
{
}

/// Law: a motion classifies as a tap exactly when it is tap-sized and
/// shorter than the tap duration, and a long touch is never a tap.
pub proof fn lemma_tap_needs_quick_touch(m: Motion, duration_ms: u128)
    ensures
        classified(m, duration_ms) == Some(Direction::Tap) <==> (m.tap_sized && duration_ms
            < MAX_TAP_DURATION_MS),
{
}

/// The direction of the opposite motion: left and right swap, up and down
/// swap, and a tap stays a tap.
pub open spec fn opposite(d: Direction) -> Direction {
    match d {
        Direction::Up => Direction::Down,
        Direction::Down => Direction::Up,
        Direction::Left => Direction::Right,
        Direction::Right => Direction::Left,
        Direction::Tap => Direction::Tap,
    }
}

/// The measurement of the opposite motion `(-dx, -dy)`: its length and its
/// dominant axis are the same, and both signs flip. (A swipe never has a
/// zero displacement along its dominant axis, so the flipped sign of that
/// axis is exact; the sign of the other axis does not take part.)
pub open spec fn reversed(m: Motion) -> Motion {
    Motion { dx_positive: !m.dx_positive, dy_positive: !m.dy_positive, ..m }
}

/// Law: reversing a motion reverses its gesture. Both motions are gestures
/// or neither is, and a swipe's direction becomes the opposite one while a
/// tap stays a tap.
pub proof fn lemma_reversed_motion(m: Motion, duration_ms: u128)
    ensures
        classified(reversed(m), duration_ms) is Some <==> classified(m, duration_ms) is Some,
        classified(m, duration_ms) matches Some(d) ==> classified(reversed(m), duration_ms)
            == Some(opposite(d)),
{
}

/// Whether a touch that starts near the given edges lies in zone `z`'s band.
pub open spec fn in_band(z: Zone, left: bool, right: bool, top: bool, bottom: bool) -> bool {
    match z {
        Zone::Left => left,
        Zone::Right => right,
        Zone::Top => top,
        Zone::Bottom => bottom,
    }
}

/// Law: a touch lies in no zone exactly when it lies in no edge band; each
/// band on its own gives its own zone; and where bands overlap, the zone is
/// one whose band holds the touch and no band of higher priority does (left,
/// then right, then top, then bottom).
pub proof fn lemma_zone_follows_bands(left: bool, right: bool, top: bool, bottom: bool)
    ensures
        zone_of_edges(left, right, top, bottom) is None <==> !(left || right || top || bottom),
        zone_of_edges(true, false, false, false) == Some(Zone::Left),
        zone_of_edges(false, true, false, false) == Some(Zone::Right),
        zone_of_edges(false, false, true, false) == Some(Zone::Top),
        zone_of_edges(false, false, false, true) == Some(Zone::Bottom),
        zone_of_edges(left, right, top, bottom) matches Some(z) ==> {
            &&& in_band(z, left, right, top, bottom)
            &&& (z != Zone::Left ==> !left)
            &&& (z == Zone::Top || z == Zone::Bottom ==> !right)
            &&& (z == Zone::Bottom ==> !top)
        },
{
}

/// Law: a swipe's direction does not depend on how long it took, and it is
/// the sign of its dominant axis: right or left when the horizontal part is
/// longer, down or up otherwise. Only a tap-sized motion depends on the
/// duration, which decides whether it is a tap.
pub proof fn lemma_swipe_direction_ignores_duration(m: Motion, d1: u128, d2: u128)
    ensures
        !m.tap_sized ==> classified(m, d1) == classified(m, d2),
        m.tap_sized && d1 >= MAX_TAP_DURATION_MS && d2 >= MAX_TAP_DURATION_MS ==> classified(m, d1)
            == classified(m, d2),
        m.swipe_sized && !(m.tap_sized && d1 < MAX_TAP_DURATION_MS) ==> {
            &&& m.x_dominant && m.dx_positive ==> classified(m, d1) == Some(Direction::Right)
            &&& m.x_dominant && !m.dx_positive ==> classified(m, d1) == Some(Direction::Left)
            &&& !m.x_dominant && m.dy_positive ==> classified(m, d1) == Some(Direction::Down)
            &&& !m.x_dominant && !m.dy_positive ==> classified(m, d1) == Some(Direction::Up)
        },
        !m.swipe_sized && !(m.tap_sized && d1 < MAX_TAP_DURATION_MS) ==> classified(m, d1) is None,
{
}

} // verus!
