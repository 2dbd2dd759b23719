//! Raw input events as plain values, and the predicates on event codes that
//! the frame tracker uses.

use vstd::prelude::*;

verus! {

/// Event type of synchronization events.
pub const EV_SYN: u16 = 0x00;
/// Event type of key and button events.
pub const EV_KEY: u16 = 0x01;
/// Event type of absolute axis events.
pub const EV_ABS: u16 = 0x03;

/// Synchronization code that closes a frame.
pub const SYN_REPORT: u16 = 0;
/// Synchronization code that reports a kernel buffer overflow.
pub const SYN_DROPPED: u16 = 3;

/// Single-touch absolute axes.
pub const ABS_X: u16 = 0x00;
pub const ABS_Y: u16 = 0x01;

/// Multitouch absolute axes.
pub const ABS_MT_SLOT: u16 = 0x2f;
pub const ABS_MT_POSITION_X: u16 = 0x35;
pub const ABS_MT_POSITION_Y: u16 = 0x36;
pub const ABS_MT_TRACKING_ID: u16 = 0x39;
/// Last multitouch axis code.
pub const ABS_MT_TOOL_Y: u16 = 0x3d;

/// Key codes used in single-touch emulation.
pub const BTN_TOUCH: u16 = 0x14a;
pub const BTN_TOOL_FINGER: u16 = 0x145;
pub const BTN_TOOL_DOUBLETAP: u16 = 0x14d;
pub const BTN_TOOL_TRIPLETAP: u16 = 0x14e;
pub const BTN_TOOL_QUADTAP: u16 = 0x14f;
pub const BTN_TOOL_QUINTTAP: u16 = 0x148;

/// One input event: its type, its code and its value.
#[derive(Debug, Clone, Copy, PartialEq, Eq)]
pub struct RawEvent {
    pub event_type: u16,
    pub code: u16,
    pub value: i32,
}

/// A key event with the given code and value.
pub open spec fn key_event(code: u16, value: i32) -> RawEvent {
    RawEvent { event_type: EV_KEY, code, value }
}

/// An absolute axis event with the given code and value.
pub open spec fn abs_event(code: u16, value: i32) -> RawEvent {
    RawEvent { event_type: EV_ABS, code, value }
}

/// The event that closes a frame.
pub open spec fn report_event() -> RawEvent {
    RawEvent { event_type: EV_SYN, code: SYN_REPORT, value: 0 }
}

/// Whether `code` is one of the finger-count tool keys.
pub open spec fn is_tool_key(code: u16) -> bool {
    code == BTN_TOOL_FINGER || code == BTN_TOOL_DOUBLETAP || code == BTN_TOOL_TRIPLETAP
        || code == BTN_TOOL_QUADTAP || code == BTN_TOOL_QUINTTAP
}

/// Events through which a multitouch device emulates a single-touch one:
/// the `ABS_X`/`ABS_Y` axes, `BTN_TOUCH` and the finger-count tool keys.
pub open spec fn is_emulation_event(ev: RawEvent) -> bool {
    ||| ev.event_type == EV_ABS && (ev.code == ABS_X || ev.code == ABS_Y)
    ||| ev.event_type == EV_KEY && (ev.code == BTN_TOUCH || is_tool_key(ev.code))
}

/// Multitouch axes occupy the codes from `ABS_MT_SLOT` up to `ABS_MT_TOOL_Y`.
pub open spec fn is_mt_code(code: u16) -> bool {
    ABS_MT_SLOT <= code <= ABS_MT_TOOL_Y
}

/// The tool key that reports `count` fingers, for one to five fingers.
pub open spec fn tool_key_for(count: u8) -> Option<u16> {
    if count == 1 {
        Some(BTN_TOOL_FINGER)
    } else if count == 2 {
        Some(BTN_TOOL_DOUBLETAP)
    } else if count == 3 {
        Some(BTN_TOOL_TRIPLETAP)
    } else if count == 4 {
        Some(BTN_TOOL_QUADTAP)
    } else if count == 5 {
        Some(BTN_TOOL_QUINTTAP)
    } else {
        None
    }
}

/// Whether the event is part of single-touch emulation (and so is
/// synthesized afresh rather than forwarded).
pub fn is_single_touch_emulation(ev: &RawEvent) -> (r: bool)
    ensures
        r == is_emulation_event(*ev),
{
    if ev.event_type == EV_ABS {
        ev.code == ABS_X || ev.code == ABS_Y
    } else if ev.event_type == EV_KEY {
        let code = ev.code;
        code == BTN_TOUCH || code == BTN_TOOL_FINGER || code == BTN_TOOL_DOUBLETAP
            || code == BTN_TOOL_TRIPLETAP || code == BTN_TOOL_QUADTAP || code == BTN_TOOL_QUINTTAP
    } else {
        false
    }
}

/// Returns the `BTN_TOOL_*` code for a given finger count, if any.
pub fn btn_tool_for_count(count: u8) -> (r: Option<u16>)
    ensures
        r == tool_key_for(count),
        r is Some <==> 1 <= count <= 5,
        r matches Some(code) ==> is_tool_key(code),
{
    match count {
        1 => Some(BTN_TOOL_FINGER),
        2 => Some(BTN_TOOL_DOUBLETAP),
        3 => Some(BTN_TOOL_TRIPLETAP),
        4 => Some(BTN_TOOL_QUADTAP),
        5 => Some(BTN_TOOL_QUINTTAP),
        _ => None,
    }
}

/// Returns true if the absolute axis with this code is a multitouch
/// (`ABS_MT_*`) axis.
pub fn is_mt_axis(code: u16) -> (r: bool)
    ensures
        r == is_mt_code(code),
{
    ABS_MT_SLOT <= code && code <= ABS_MT_TOOL_Y
}

/// Whether the sequence of supported absolute axis codes holds `code`.
pub open spec fn has_axis(axes: Seq<u16>, code: u16) -> bool {
    exists|i: int| 0 <= i < axes.len() && axes[i] == code
}

/// A device is taken for a trackpad when it reports both single-touch axes
/// and both multitouch position axes.
pub open spec fn is_trackpad_axis_set(axes: Seq<u16>) -> bool {
    &&& has_axis(axes, ABS_X)
    &&& has_axis(axes, ABS_Y)
    &&& has_axis(axes, ABS_MT_POSITION_X)
    &&& has_axis(axes, ABS_MT_POSITION_Y)
}

fn contains_axis(axes: &Vec<u16>, code: u16) -> (r: bool)
    ensures
        r == has_axis(axes@, code),
{
    let n = axes.len();
    for i in 0..n
        invariant
            n == axes@.len(),
            forall|j: int| 0 <= j < i ==> axes@[j] != code,
    {
        if axes[i] == code {
            return true;
        }
    }
    false
}

/// Decides, from the codes of the absolute axes that a device supports,
/// whether the device is a trackpad.
pub fn supports_trackpad_axes(axes: &Vec<u16>) -> (r: bool)
    ensures
        r == is_trackpad_axis_set(axes@),
{
    contains_axis(axes, ABS_X) && contains_axis(axes, ABS_Y)
        && contains_axis(axes, ABS_MT_POSITION_X) && contains_axis(axes, ABS_MT_POSITION_Y)
}

/// Whether `code` is one of the four axes that make a trackpad.
pub open spec fn is_trackpad_axis(code: u16) -> bool {
    code == ABS_X || code == ABS_Y || code == ABS_MT_POSITION_X || code == ABS_MT_POSITION_Y
}

/// Law: only the four trackpad axes decide. Two axis lists that agree on
/// which of the four they hold give the same answer, whatever other axes
/// they list; a list of exactly the four is a trackpad, and a list that
/// lacks one of them is not.
pub proof fn lemma_trackpad_needs_only_four_axes(a: Seq<u16>, b: Seq<u16>, extra: u16)
    ensures
        (forall|c: u16| is_trackpad_axis(c) ==> (has_axis(a, c) <==> has_axis(b, c)))
            ==> is_trackpad_axis_set(a) == is_trackpad_axis_set(b),
        !is_trackpad_axis(extra) ==> is_trackpad_axis_set(a.push(extra)) == is_trackpad_axis_set(a),
        is_trackpad_axis_set(seq![ABS_X, ABS_Y, ABS_MT_POSITION_X, ABS_MT_POSITION_Y]),
        is_trackpad_axis_set(a) ==> forall|c: u16|
            is_trackpad_axis(c) ==> #[trigger] has_axis(a, c),
{
    let four = seq![ABS_X, ABS_Y, ABS_MT_POSITION_X, ABS_MT_POSITION_Y];
    assert(four[0] == ABS_X && four[1] == ABS_Y && four[2] == ABS_MT_POSITION_X && four[3]
        == ABS_MT_POSITION_Y);
    if forall|c: u16| is_trackpad_axis(c) ==> (has_axis(a, c) <==> has_axis(b, c)) {
        assert(is_trackpad_axis(ABS_X) && is_trackpad_axis(ABS_Y) && is_trackpad_axis(ABS_MT_POSITION_X)
            && is_trackpad_axis(ABS_MT_POSITION_Y));
    }
    let ap = a.push(extra);
    assert forall|c: u16| c != extra implies has_axis(ap, c) == has_axis(a, c) by {
        if has_axis(ap, c) {
            let i = choose|i: int| 0 <= i < ap.len() && ap[i] == c;
            assert(i < a.len());
            assert(a[i] == ap[i]);
        }
        if has_axis(a, c) {
            let i = choose|i: int| 0 <= i < a.len() && a[i] == c;
            assert(ap[i] == a[i]);
        }
    }
}

/// Law: the finger-count tool keys are five distinct keys, one for each
/// count from one to five; `BTN_TOUCH` is none of them.
pub proof fn lemma_tool_keys_by_count(n1: u8, n2: u8, c: u16)
    ensures
        tool_key_for(n1) is Some && tool_key_for(n1) == tool_key_for(n2) ==> n1 == n2,
        tool_key_for(n1) matches Some(k) ==> is_tool_key(k),
        is_tool_key(c) ==> exists|n: u8| 1 <= n <= 5 && #[trigger] tool_key_for(n) == Some(c),
        !is_tool_key(BTN_TOUCH),
{
    if is_tool_key(c) {
        if c == BTN_TOOL_FINGER {
            assert(tool_key_for(1) == Some(c));
        } else if c == BTN_TOOL_DOUBLETAP {
            assert(tool_key_for(2) == Some(c));
        } else if c == BTN_TOOL_TRIPLETAP {
            assert(tool_key_for(3) == Some(c));
        } else if c == BTN_TOOL_QUADTAP {
            assert(tool_key_for(4) == Some(c));
        } else {
            assert(tool_key_for(5) == Some(c));
        }
    }
}

/// Law: the single-touch events are emulation and the multitouch axes are
/// not, so that the filter can drop the one and keep the other.
pub proof fn lemma_emulation_is_not_multitouch(ev: RawEvent, value: i32, n: u8)
    ensures
        ev.event_type == EV_ABS && is_mt_code(ev.code) ==> !is_emulation_event(ev),
        is_emulation_event(RawEvent { event_type: EV_ABS, code: ABS_X, value }),
        is_emulation_event(RawEvent { event_type: EV_ABS, code: ABS_Y, value }),
        is_emulation_event(key_event(BTN_TOUCH, value)),
        tool_key_for(n) matches Some(k) ==> is_emulation_event(key_event(k, value)),
        is_mt_code(ABS_MT_SLOT) && is_mt_code(ABS_MT_TRACKING_ID),
        is_mt_code(ABS_MT_POSITION_X) && is_mt_code(ABS_MT_POSITION_Y),
        !is_mt_code(ABS_X) && !is_mt_code(ABS_Y),
{
}

} // verus!
