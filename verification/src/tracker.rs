//! The multitouch frame tracker.
//!
//! The tracker follows the touches of a multitouch trackpad slot by slot,
//! frame by frame. A touch that starts in an edge zone is claimed: its
//! multitouch events are hidden from the virtual trackpad, and when it lifts
//! it is reported as a release, to be classified as a gesture. Unclaimed
//! touches pass through, and the tracker synthesizes the single-touch events
//! (`BTN_TOUCH`, the finger-count tool keys, `ABS_X`/`ABS_Y`) from them alone.
//!
//! A frame is handled in two steps. `handle_event` buffers the events of a
//! frame; on the frame's `SYN_REPORT` it applies them to the slots and
//! returns the released touches and the slots whose zone must be determined.
//! Once the caller has determined those zones, `finish_frame` claims the
//! touches that lie in a zone and returns the events for the virtual device.

use vstd::prelude::*;

use crate::events::{
    abs_event, btn_tool_for_count, is_emulation_event, is_mt_axis, is_mt_code,
    is_single_touch_emulation, key_event, report_event, tool_key_for, RawEvent, ABS_MT_POSITION_X,
    ABS_MT_POSITION_Y, ABS_MT_SLOT, ABS_MT_TRACKING_ID, ABS_X, ABS_Y, BTN_TOUCH, EV_ABS, EV_KEY,
    EV_SYN, SYN_DROPPED, SYN_REPORT,
};
use crate::gesture::Zone;

verus! {

/// Number of multitouch slots that are tracked.
pub const SLOT_COUNT: usize = 10;

/// The state of one multitouch slot. Positions are raw device coordinates;
/// times are nanoseconds on a monotonic clock.
#[derive(Debug, Clone, Copy, PartialEq, Eq)]
pub struct SlotState {
    pub active: bool,
    pub claimed: bool,
    pub tracking_id: i32,
    pub start_x: Option<i32>,
    pub start_y: Option<i32>,
    pub current_x: i32,
    pub current_y: i32,
    pub start_time: Option<u64>,
    pub assigned_zone: Option<Zone>,
    pub needs_zone_check: bool,
}

/// A slot that holds no touch.
pub open spec fn empty_slot() -> SlotState {
    SlotState {
        active: false,
        claimed: false,
        tracking_id: 0,
        start_x: None,
        start_y: None,
        current_x: 0,
        current_y: 0,
        start_time: None,
        assigned_zone: None,
        needs_zone_check: false,
    }
}

impl Default for SlotState {
    fn default() -> (r: Self)
        ensures
            r == empty_slot(),
    {
        SlotState::empty()
    }
}

impl SlotState {
    /// A slot that holds no touch.
    pub fn empty() -> (r: SlotState)
        ensures
            r == empty_slot(),
    {
        SlotState {
            active: false,
            claimed: false,
            tracking_id: 0,
            start_x: None,
            start_y: None,
            current_x: 0,
            current_y: 0,
            start_time: None,
            assigned_zone: None,
            needs_zone_check: false,
        }
    }
}

/// A claimed touch that lifted: where it went, how long it lasted, and how
/// many fingers were down when it lifted.
#[derive(Debug, Clone, Copy, PartialEq, Eq)]
pub struct TouchRelease {
    pub zone: Zone,
    pub start_x: i32,
    pub start_y: i32,
    pub end_x: i32,
    pub end_y: i32,
    pub duration_ms: u64,
    pub finger_count: u8,
}

/// A slot whose touch has started and whose zone is still to be determined.
#[derive(Debug, Clone, Copy, PartialEq, Eq)]
pub struct ZoneQuery {
    pub slot: usize,
    pub start_x: i32,
    pub start_y: i32,
}

/// What handling one input event gives back.
pub enum EventOutcome {
    /// The event was added to the current frame.
    Buffered,
    /// The kernel dropped events: all touches were forgotten, and these
    /// events release the virtual device's touch.
    Resynced { output: Vec<RawEvent> },
    /// The frame was applied to the slots: these claimed touches lifted, and
    /// the zones of these slots are to be determined before `finish_frame`.
    FrameReady { releases: Vec<TouchRelease>, zone_queries: Vec<ZoneQuery> },
}

/// The abstract state of a tracker.
pub struct TrackerView {
    pub slots: Seq<SlotState>,
    /// The slot that multitouch events refer to when a frame begins.
    pub current_slot: int,
    /// The slot that multitouch events refer to at the end of the last
    /// applied frame.
    pub frame_slot: int,
    /// Touches begun minus touches ended, as the device reported them.
    pub active_fingers: u8,
    /// The finger count last reported to the virtual device.
    pub prev_unclaimed: u8,
    /// Whether the virtual device was last told that a finger touches.
    pub prev_btn_touch: bool,
    /// The events of the current frame.
    pub frame: Seq<RawEvent>,
    /// Whether the current frame was applied to the slots and awaits
    /// `finish_frame`.
    pub frame_applied: bool,
}

impl TrackerView {
    /// Ten slots, slot pointers among them, and a virtual touch that is down
    /// exactly when the virtual finger count is positive.
    pub open spec fn wf(self) -> bool {
        &&& self.slots.len() == SLOT_COUNT
        &&& 0 <= self.current_slot < SLOT_COUNT
        &&& 0 <= self.frame_slot < SLOT_COUNT
        &&& self.prev_unclaimed <= SLOT_COUNT
        &&& (self.prev_btn_touch <==> self.prev_unclaimed > 0)
    }
}

/// The slot that an `ABS_MT_SLOT` value selects: out-of-range values select
/// the last slot.
pub open spec fn clamp_slot(v: i32) -> int {
    if 0 <= v < SLOT_COUNT {
        v as int
    } else {
        SLOT_COUNT - 1
    }
}

/// Whole milliseconds from `start` to `now`; zero when there is no start or
/// when `now` is earlier.
pub open spec fn elapsed_ms(start: Option<u64>, now: u64) -> u64 {
    match start {
        Some(t) => if t <= now {
            ((now - t) / 1_000_000) as u64
        } else {
            0
        },
        None => 0,
    }
}

/// The release reported when the touch in `s` lifts while `fingers` touches
/// are down: only a claimed touch with a start position and a zone is
/// reported.
pub open spec fn release_of(s: SlotState, fingers: u8, now: u64) -> Seq<TouchRelease> {
    if s.claimed && s.start_x is Some && s.start_y is Some && s.assigned_zone is Some {
        seq![
            TouchRelease {
                zone: s.assigned_zone->0,
                start_x: s.start_x->0,
                start_y: s.start_y->0,
                end_x: s.current_x,
                end_y: s.current_y,
                duration_ms: elapsed_ms(s.start_time, now),
                finger_count: fingers,
            },
        ]
    } else {
        seq![]
    }
}

/// A new tracking id in slot `s`: the touch is active and unclaimed, starts
/// now, and awaits its zone; its positions are kept.
pub open spec fn begin_touch(s: SlotState, id: i32, now: u64) -> SlotState {
    SlotState {
        active: true,
        claimed: false,
        tracking_id: id,
        start_time: Some(now),
        needs_zone_check: true,
        ..s
    }
}

/// The state of the slots while a frame is applied.
pub struct TouchPass {
    pub slots: Seq<SlotState>,
    pub frame_slot: int,
    pub active_fingers: u8,
    pub releases: Seq<TouchRelease>,
}

/// Applies one event of a frame to the slots: a slot selection moves the
/// frame slot; a tracking id of -1 ends the slot's touch, reporting it if it
/// was claimed; another tracking id begins a touch; positions update the
/// slot, and the first position of a touch is its start. The count of
/// touches is kept modulo 256.
pub open spec fn touch_step(p: TouchPass, ev: RawEvent, now: u64) -> TouchPass {
    let fs = p.frame_slot;
    let s = p.slots[fs];
    if ev.event_type != EV_ABS {
        p
    } else if ev.code == ABS_MT_SLOT {
        TouchPass { frame_slot: clamp_slot(ev.value), ..p }
    } else if ev.code == ABS_MT_TRACKING_ID {
        if ev.value == -1 {
            if s.active {
                TouchPass {
                    slots: p.slots.update(fs, empty_slot()),
                    frame_slot: fs,
                    active_fingers: if p.active_fingers > 0 {
                        (p.active_fingers - 1) as u8
                    } else {
                        0
                    },
                    releases: p.releases + release_of(s, p.active_fingers, now),
                }
            } else {
                p
            }
        } else {
            TouchPass {
                slots: p.slots.update(fs, begin_touch(s, ev.value, now)),
                active_fingers: if p.active_fingers == 255 {
                    0
                } else {
                    (p.active_fingers + 1) as u8
                },
                ..p
            }
        }
    } else if ev.code == ABS_MT_POSITION_X {
        let t = SlotState {
            current_x: ev.value,
            start_x: if s.start_x is None {
                Some(ev.value)
            } else {
                s.start_x
            },
            ..s
        };
        TouchPass { slots: p.slots.update(fs, t), ..p }
    } else if ev.code == ABS_MT_POSITION_Y {
        let t = SlotState {
            current_y: ev.value,
            start_y: if s.start_y is None {
                Some(ev.value)
            } else {
                s.start_y
            },
            ..s
        };
        TouchPass { slots: p.slots.update(fs, t), ..p }
    } else {
        p
    }
}

/// Applies the events of a frame, in order, to the slots.
pub open spec fn touch_pass(p: TouchPass, evs: Seq<RawEvent>, now: u64) -> TouchPass
    decreases evs.len(),
{
    if evs.len() == 0 {
        p
    } else {
        touch_step(touch_pass(p, evs.drop_last(), now), evs.last(), now)
    }
}

/// A slot whose touch has started, has a start position, and awaits its zone.
pub open spec fn awaits_zone(s: SlotState) -> bool {
    s.active && s.needs_zone_check && s.start_x is Some && s.start_y is Some
}

/// The zone queries for the first `n` slots, in slot order.
pub open spec fn zone_queries_upto(slots: Seq<SlotState>, n: int) -> Seq<ZoneQuery>
    decreases n,
{
    if n <= 0 {
        seq![]
    } else {
        let s = slots[n - 1];
        zone_queries_upto(slots, n - 1) + if awaits_zone(s) {
            seq![ZoneQuery { slot: (n - 1) as usize, start_x: s.start_x->0, start_y: s.start_y->0 }]
        } else {
            seq![]
        }
    }
}

/// The frame pass that starts from the tracker's state.
pub open spec fn frame_pass(v: TrackerView, now: u64) -> TouchPass {
    touch_pass(
        TouchPass {
            slots: v.slots,
            frame_slot: v.current_slot,
            active_fingers: v.active_fingers,
            releases: seq![],
        },
        v.frame,
        now,
    )
}

/// The state after a frame's events were applied to the slots.
pub open spec fn after_frame_pass(v: TrackerView, now: u64) -> TrackerView {
    let p = frame_pass(v, now);
    TrackerView {
        slots: p.slots,
        frame_slot: p.frame_slot,
        active_fingers: p.active_fingers,
        frame_applied: true,
        ..v
    }
}

/// A key event for the tool key of `code`, if there is one.
pub open spec fn opt_key(code: Option<u16>, value: i32) -> Seq<RawEvent> {
    match code {
        Some(c) => seq![key_event(c, value)],
        None => seq![],
    }
}

/// After dropped events, the virtual device's touch is released if it was
/// down: its tool key goes up, then `BTN_TOUCH`, then the frame closes.
pub open spec fn resync_output(v: TrackerView) -> Seq<RawEvent> {
    if v.prev_btn_touch {
        opt_key(tool_key_for(v.prev_unclaimed), 0) + seq![key_event(BTN_TOUCH, 0), report_event()]
    } else {
        seq![]
    }
}

/// After dropped events all touches and the current frame are forgotten.
pub open spec fn after_resync(v: TrackerView) -> TrackerView {
    TrackerView {
        slots: Seq::new(SLOT_COUNT as nat, |i: int| empty_slot()),
        active_fingers: 0,
        frame: seq![],
        frame_applied: false,
        prev_btn_touch: false,
        prev_unclaimed: if v.prev_btn_touch {
            0
        } else {
            v.prev_unclaimed
        },
        ..v
    }
}

/// Whether `ev` closes a frame.
pub open spec fn is_report(ev: RawEvent) -> bool {
    ev.event_type == EV_SYN && ev.code == SYN_REPORT
}

/// Whether `ev` reports dropped events.
pub open spec fn is_dropped(ev: RawEvent) -> bool {
    ev.event_type == EV_SYN && ev.code == SYN_DROPPED
}

/// A slot awaiting its zone is claimed when it lies in a zone; either way
/// it no longer awaits one.
pub open spec fn claim_slot(s: SlotState, z: Option<Zone>) -> SlotState {
    if awaits_zone(s) {
        match z {
            Some(zone) => SlotState {
                claimed: true,
                assigned_zone: Some(zone),
                needs_zone_check: false,
                ..s
            },
            None => SlotState { needs_zone_check: false, ..s },
        }
    } else {
        s
    }
}

/// Claims the slots, each with the zone found for it.
pub open spec fn claim_zones(slots: Seq<SlotState>, zones: Seq<Option<Zone>>) -> Seq<SlotState> {
    Seq::new(slots.len(), |i: int| claim_slot(slots[i], zones[i]))
}

/// The state of the forwarding filter while it walks a frame: the slot that
/// the events refer to, a held back slot selection, and the events kept.
pub struct ForwardPass {
    pub slot: int,
    pub pending: Option<RawEvent>,
    pub out: Seq<RawEvent>,
}

/// The held back slot selection, if any.
pub open spec fn pending_events(pending: Option<RawEvent>) -> Seq<RawEvent> {
    match pending {
        Some(e) => seq![e],
        None => seq![],
    }
}

/// One step of the filter: slot selections are held back until an event of
/// an unclaimed slot follows them; single-touch emulation is dropped;
/// multitouch events of claimed slots are dropped; all else is kept.
pub open spec fn forward_step(slots: Seq<SlotState>, f: ForwardPass, ev: RawEvent) -> ForwardPass {
    if ev.event_type == EV_ABS && ev.code == ABS_MT_SLOT {
        ForwardPass { slot: clamp_slot(ev.value), pending: Some(ev), out: f.out }
    } else if is_emulation_event(ev) {
        f
    } else if ev.event_type == EV_ABS && is_mt_code(ev.code) {
        if !slots[f.slot].claimed {
            ForwardPass {
                slot: f.slot,
                pending: None,
                out: f.out + pending_events(f.pending) + seq![ev],
            }
        } else {
            f
        }
    } else {
        ForwardPass { out: f.out.push(ev), ..f }
    }
}

/// The filter over the events of a frame, from slot `entry`.
pub open spec fn forward_pass(slots: Seq<SlotState>, entry: int, evs: Seq<RawEvent>) -> ForwardPass
    decreases evs.len(),
{
    if evs.len() == 0 {
        ForwardPass { slot: entry, pending: None, out: seq![] }
    } else {
        forward_step(slots, forward_pass(slots, entry, evs.drop_last()), evs.last())
    }
}

/// A touch that is down and not claimed: the virtual device sees it.
pub open spec fn is_free(s: SlotState) -> bool {
    s.active && !s.claimed
}

/// The number of free touches.
pub open spec fn free_count(slots: Seq<SlotState>) -> nat
    decreases slots.len(),
{
    if slots.len() == 0 {
        0
    } else {
        free_count(slots.drop_last()) + if is_free(slots.last()) {
            1nat
        } else {
            0nat
        }
    }
}

/// The lowest-numbered slot with a free touch.
pub open spec fn first_free(slots: Seq<SlotState>) -> Option<int>
    decreases slots.len(),
{
    if slots.len() == 0 {
        None
    } else {
        match first_free(slots.drop_last()) {
            Some(i) => Some(i),
            None => if is_free(slots.last()) {
                Some(slots.len() - 1)
            } else {
                None
            },
        }
    }
}

/// The single-touch events that describe the free touches to the virtual
/// device: `BTN_TOUCH` when touching changes, the tool keys when the finger
/// count changes, and the position of the first free touch.
pub open spec fn synthesized(slots: Seq<SlotState>, prev_count: u8, prev_btn: bool) -> Seq<RawEvent> {
    let count = free_count(slots) as u8;
    let touching = count > 0;
    let touch = if touching != prev_btn {
        seq![key_event(BTN_TOUCH, if touching { 1 } else { 0 })]
    } else {
        seq![]
    };
    let tools = if count != prev_count {
        opt_key(tool_key_for(prev_count), 0) + opt_key(tool_key_for(count), 1)
    } else {
        seq![]
    };
    let pos = match first_free(slots) {
        Some(p) => seq![abs_event(ABS_X, slots[p].current_x), abs_event(ABS_Y, slots[p].current_y)],
        None => seq![],
    };
    touch + tools + pos
}

/// A non-empty batch of events is closed by a `SYN_REPORT`.
pub open spec fn closed_frame(body: Seq<RawEvent>) -> Seq<RawEvent> {
    if body.len() == 0 {
        body
    } else {
        body.push(report_event())
    }
}

/// The slots once the zones were applied.
pub open spec fn finished_slots(v: TrackerView, zones: Seq<Option<Zone>>) -> Seq<SlotState> {
    claim_zones(v.slots, zones)
}

/// The events for the virtual device at the end of a frame.
pub open spec fn frame_output(v: TrackerView, zones: Seq<Option<Zone>>) -> Seq<RawEvent> {
    let slots = finished_slots(v, zones);
    closed_frame(
        forward_pass(slots, v.current_slot, v.frame).out + synthesized(
            slots,
            v.prev_unclaimed,
            v.prev_btn_touch,
        ),
    )
}

/// The state at the end of a frame.
pub open spec fn after_finish(v: TrackerView, zones: Seq<Option<Zone>>) -> TrackerView {
    let slots = finished_slots(v, zones);
    TrackerView {
        slots,
        current_slot: v.frame_slot,
        prev_unclaimed: free_count(slots) as u8,
        prev_btn_touch: free_count(slots) > 0,
        frame: seq![],
        frame_applied: false,
        ..v
    }
}

/// Counts the touches that are down and not claimed.
pub fn count_unclaimed(slots: &[SlotState; SLOT_COUNT]) -> (r: u8)
    ensures
        r == free_count(slots@),
        r <= SLOT_COUNT,
{
    let mut c: u8 = 0;
    for i in 0..SLOT_COUNT
        invariant
            slots@.len() == SLOT_COUNT,
            c <= i,
            c == free_count(slots@.take(i as int)),
    {
        proof {
            assert(slots@.take(i + 1).drop_last() =~= slots@.take(i as int));
        }
        if slots[i].active && !slots[i].claimed {
            c = c + 1;
        }
    }
    proof {
        assert(slots@.take(SLOT_COUNT as int) =~= slots@);
    }
    c
}

/// The lowest-numbered slot with a touch that is down and not claimed: the
/// source of the single-touch coordinates.
pub fn find_primary_unclaimed(slots: &[SlotState; SLOT_COUNT]) -> (r: Option<usize>)
    ensures
        match r {
            Some(i) => first_free(slots@) == Some(i as int),
            None => first_free(slots@) is None,
        },
        r matches Some(i) ==> i < SLOT_COUNT && is_free(slots@[i as int]) && forall|j: int|
            0 <= j < i ==> !is_free(#[trigger] slots@[j]),
        r is None ==> forall|j: int| 0 <= j < SLOT_COUNT ==> !is_free(#[trigger] slots@[j]),
{
    let mut r: Option<usize> = None;
    for i in 0..SLOT_COUNT
        invariant
            slots@.len() == SLOT_COUNT,
            match r {
                Some(k) => first_free(slots@.take(i as int)) == Some(k as int),
                None => first_free(slots@.take(i as int)) is None,
            },
    {
        proof {
            assert(slots@.take(i + 1).drop_last() =~= slots@.take(i as int));
        }
        if r.is_none() && slots[i].active && !slots[i].claimed {
            r = Some(i);
        }
    }
    proof {
        assert(slots@.take(SLOT_COUNT as int) =~= slots@);
        lemma_first_free(slots@);
    }
    r
}

/// `first_free` picks the lowest slot with a free touch.
pub proof fn lemma_first_free(slots: Seq<SlotState>)
    ensures
        match first_free(slots) {
            Some(i) => 0 <= i < slots.len() && is_free(slots[i]) && forall|j: int|
                0 <= j < i ==> !is_free(#[trigger] slots[j]),
            None => forall|j: int| 0 <= j < slots.len() ==> !is_free(#[trigger] slots[j]),
        },
    decreases slots.len(),
{
    if slots.len() > 0 {
        let pre = slots.drop_last();
        lemma_first_free(pre);
        assert forall|j: int| 0 <= j < pre.len() implies pre[j] == slots[j] by {}
    }
}

/// `free_count` never exceeds the number of slots.
pub proof fn lemma_free_count_bound(slots: Seq<SlotState>)
    ensures
        free_count(slots) <= slots.len(),
    decreases slots.len(),
{
    if slots.len() > 0 {
        lemma_free_count_bound(slots.drop_last());
    }
}

/// Tracks the slots of a multitouch trackpad across frames.
pub struct Tracker {
    slots: [SlotState; SLOT_COUNT],
    current_slot: usize,
    frame_slot: usize,
    active_fingers: u8,
    prev_unclaimed_count: u8,
    frame_events: Vec<RawEvent>,
    applied: Ghost<bool>,
}

impl View for Tracker {
    type V = TrackerView;

    closed spec fn view(&self) -> TrackerView {
        TrackerView {
            slots: self.slots@,
            current_slot: self.current_slot as int,
            frame_slot: self.frame_slot as int,
            active_fingers: self.active_fingers,
            prev_unclaimed: self.prev_unclaimed_count,
            prev_btn_touch: self.prev_unclaimed_count > 0,
            frame: self.frame_events@,
            frame_applied: self.applied@,
        }
    }
}

/// Ten empty slots.
pub open spec fn empty_slots() -> Seq<SlotState> {
    Seq::new(SLOT_COUNT as nat, |i: int| empty_slot())
}

/// The state before any event: no touch, slot 0 selected, and the virtual
/// device untouched.
pub open spec fn initial_view() -> TrackerView {
    TrackerView {
        slots: empty_slots(),
        current_slot: 0,
        frame_slot: 0,
        active_fingers: 0,
        prev_unclaimed: 0,
        prev_btn_touch: false,
        frame: seq![],
        frame_applied: false,
    }
}

fn new_empty_slots() -> (r: [SlotState; SLOT_COUNT])
    ensures
        r@ == empty_slots(),
{
    let e = SlotState::empty();
    let r = [e, e, e, e, e, e, e, e, e, e];
    assert(r@ =~= empty_slots());
    r
}

impl Tracker {
    /// The slot pointers lie among the slots, and at most all slots were
    /// reported to the virtual device.
    #[verifier::type_invariant]
    spec fn pointers_in_range(&self) -> bool {
        &&& self.current_slot < SLOT_COUNT
        &&& self.frame_slot < SLOT_COUNT
        &&& self.prev_unclaimed_count <= SLOT_COUNT
    }

    closed spec fn pass_of(&self, releases: Seq<TouchRelease>) -> TouchPass {
        TouchPass {
            slots: self.slots@,
            frame_slot: self.frame_slot as int,
            active_fingers: self.active_fingers,
            releases,
        }
    }

    /// A tracker with no touch.
    pub fn new() -> (r: Tracker)
        ensures
            r@ == initial_view(),
            r@.wf(),
    {
        Tracker {
            slots: new_empty_slots(),
            current_slot: 0,
            frame_slot: 0,
            active_fingers: 0,
            prev_unclaimed_count: 0,
            frame_events: Vec::new(),
            applied: Ghost(false),
        }
    }

    fn apply_touch_event(&mut self, ev: RawEvent, now_ns: u64, releases: &mut Vec<TouchRelease>)
        ensures
            final(self).pass_of(final(releases)@) == touch_step(
                old(self).pass_of(old(releases)@),
                ev,
                now_ns,
            ),
            final(self).slots@.len() == SLOT_COUNT,
            final(self).frame_slot < SLOT_COUNT,
            final(self).current_slot == old(self).current_slot,
            final(self).prev_unclaimed_count == old(self).prev_unclaimed_count,
            final(self).frame_events@ == old(self).frame_events@,
            final(self).applied == old(self).applied,
    {
        proof {
            use_type_invariant(&*self);
        }
        if ev.event_type != EV_ABS {
            return;
        }
        let fs = self.frame_slot;
        let s = self.slots[fs];
        if ev.code == ABS_MT_SLOT {
            self.frame_slot = if 0 <= ev.value && (ev.value as usize) < SLOT_COUNT {
                ev.value as usize
            } else {
                SLOT_COUNT - 1
            };
        } else if ev.code == ABS_MT_TRACKING_ID {
            if ev.value == -1 {
                if s.active {
                    if s.claimed {
                        match (s.start_x, s.start_y, s.assigned_zone) {
                            (Some(sx), Some(sy), Some(zone)) => {
                                let duration_ms = match s.start_time {
                                    Some(t) => if t <= now_ns {
                                        (now_ns - t) / 1_000_000
                                    } else {
                                        0
                                    },
                                    None => 0,
                                };
                                releases.push(
                                    TouchRelease {
                                        zone,
                                        start_x: sx,
                                        start_y: sy,
                                        end_x: s.current_x,
                                        end_y: s.current_y,
                                        duration_ms,
                                        finger_count: self.active_fingers,
                                    },
                                );
                            },
                            _ => {},
                        }
                    }
                    assert(releases@ =~= old(releases)@ + release_of(s, self.active_fingers, now_ns));
                    self.slots[fs] = SlotState::empty();
                    if self.active_fingers > 0 {
                        self.active_fingers = self.active_fingers - 1;
                    }
                }
            } else {
                let t = SlotState {
                    active: true,
                    claimed: false,
                    tracking_id: ev.value,
                    start_time: Some(now_ns),
                    needs_zone_check: true,
                    ..s
                };
                self.slots[fs] = t;
                self.active_fingers = if self.active_fingers == 255 {
                    0
                } else {
                    self.active_fingers + 1
                };
            }
        } else if ev.code == ABS_MT_POSITION_X {
            let t = SlotState {
                current_x: ev.value,
                start_x: if s.start_x.is_none() {
                    Some(ev.value)
                } else {
                    s.start_x
                },
                ..s
            };
            self.slots[fs] = t;
        } else if ev.code == ABS_MT_POSITION_Y {
            let t = SlotState {
                current_y: ev.value,
                start_y: if s.start_y.is_none() {
                    Some(ev.value)
                } else {
                    s.start_y
                },
                ..s
            };
            self.slots[fs] = t;
        }
    }
    fn apply_frame(&mut self, now_ns: u64) -> (releases: Vec<TouchRelease>)
        ensures
            final(self)@ == after_frame_pass(old(self)@, now_ns),
            releases@ == frame_pass(old(self)@, now_ns).releases,
            final(self)@.wf(),
    {
        proof {
            use_type_invariant(&*self);
        }
        let mut releases: Vec<TouchRelease> = Vec::new();
        let ghost start = TouchPass {
            slots: self.slots@,
            frame_slot: self.current_slot as int,
            active_fingers: self.active_fingers,
            releases: seq![],
        };
        let ghost old_view = self@;
        self.frame_slot = self.current_slot;
        let n = self.frame_events.len();
        proof {
            assert(old_view.frame.take(0) =~= seq![]);
        }
        for i in 0..n
            invariant
                n == self.frame_events@.len(),
                self.frame_events@ == old_view.frame,
                self.slots@.len() == SLOT_COUNT,
                self.frame_slot < SLOT_COUNT,
                self.current_slot == old_view.current_slot,
                self.prev_unclaimed_count == old_view.prev_unclaimed,
                self.pass_of(releases@) == touch_pass(start, old_view.frame.take(i as int), now_ns),
        {
            let ev = self.frame_events[i];
            proof {
                let evs = old_view.frame.take(i + 1);
                assert(evs.drop_last() =~= old_view.frame.take(i as int));
                assert(evs.last() == ev);
            }
            self.apply_touch_event(ev, now_ns, &mut releases);
        }
        self.applied = Ghost(true);
        proof {
            use_type_invariant(&*self);
            assert(old_view.frame.take(n as int) =~= old_view.frame);
        }
        releases
    }

    fn zone_queries(&self) -> (r: Vec<ZoneQuery>)
        ensures
            r@ == zone_queries_upto(self.slots@, SLOT_COUNT as int),
    {
        let mut r: Vec<ZoneQuery> = Vec::new();
        for i in 0..SLOT_COUNT
            invariant
                self.slots@.len() == SLOT_COUNT,
                r@ == zone_queries_upto(self.slots@, i as int),
        {
            let s = self.slots[i];
            match (s.active && s.needs_zone_check, s.start_x, s.start_y) {
                (true, Some(sx), Some(sy)) => {
                    r.push(ZoneQuery { slot: i, start_x: sx, start_y: sy });
                },
                _ => {},
            }
            assert(r@ =~= zone_queries_upto(self.slots@, i + 1));
        }
        r
    }

    fn resync(&mut self) -> (output: Vec<RawEvent>)
        ensures
            final(self)@ == after_resync(old(self)@),
            output@ == resync_output(old(self)@),
            final(self)@.wf(),
    {
        proof {
            use_type_invariant(&*self);
        }
        self.slots = new_empty_slots();
        self.active_fingers = 0;
        self.frame_events = Vec::new();
        self.applied = Ghost(false);
        let mut output: Vec<RawEvent> = Vec::new();
        if self.prev_unclaimed_count > 0 {
            if let Some(old_code) = btn_tool_for_count(self.prev_unclaimed_count) {
                output.push(RawEvent { event_type: EV_KEY, code: old_code, value: 0 });
            }
            output.push(RawEvent { event_type: EV_KEY, code: BTN_TOUCH, value: 0 });
            output.push(RawEvent { event_type: EV_SYN, code: SYN_REPORT, value: 0 });
            self.prev_unclaimed_count = 0;
        }
        proof {
            assert(output@ =~= resync_output(old(self)@));
            assert(self@.slots =~= after_resync(old(self)@).slots);
            assert(self@.frame =~= after_resync(old(self)@).frame);
        }
        output
    }

    /// Handles one input event read from the device at time `now_ns`.
    ///
    /// A `SYN_DROPPED` forgets all touches and the current frame, and gives
    /// the events that release the virtual device's touch. A `SYN_REPORT`
    /// applies the buffered frame to the slots, and gives the claimed touches
    /// that lifted and the slots whose zone is to be found; the frame stays
    /// buffered for `finish_frame`. Any other event is buffered.
    pub fn handle_event(&mut self, ev: RawEvent, now_ns: u64) -> (r: EventOutcome)
        ensures
            final(self)@.wf(),
            is_dropped(ev) ==> {
                &&& final(self)@ == after_resync(old(self)@)
                &&& r matches EventOutcome::Resynced { output } && output@ == resync_output(old(self)@)
            },
            is_report(ev) ==> {
                &&& final(self)@ == after_frame_pass(old(self)@, now_ns)
                &&& r matches EventOutcome::FrameReady { releases, zone_queries }
                &&& releases@ == frame_pass(old(self)@, now_ns).releases
                &&& zone_queries@ == zone_queries_upto(final(self)@.slots, SLOT_COUNT as int)
            },
            !is_dropped(ev) && !is_report(ev) ==> {
                &&& final(self)@ == TrackerView {
                    frame: old(self)@.frame.push(ev),
                    frame_applied: false,
                    ..old(self)@
                }
                &&& r is Buffered
            },
    {
        proof {
            use_type_invariant(&*self);
        }
        if ev.event_type == EV_SYN && ev.code == SYN_DROPPED {
            let output = self.resync();
            return EventOutcome::Resynced { output };
        }
        if ev.event_type == EV_SYN && ev.code == SYN_REPORT {
            let releases = self.apply_frame(now_ns);
            let zone_queries = self.zone_queries();
            return EventOutcome::FrameReady { releases, zone_queries };
        }
        let mut frame: Vec<RawEvent> = Vec::new();
        std::mem::swap(&mut frame, &mut self.frame_events);
        frame.push(ev);
        std::mem::swap(&mut frame, &mut self.frame_events);
        self.applied = Ghost(false);
        EventOutcome::Buffered
    }
    fn claim_all(&mut self, zones: &Vec<Option<Zone>>)
        requires
            zones@.len() == SLOT_COUNT,
        ensures
            final(self).slots@ == claim_zones(old(self).slots@, zones@),
            final(self).current_slot == old(self).current_slot,
            final(self).frame_slot == old(self).frame_slot,
            final(self).active_fingers == old(self).active_fingers,
            final(self).prev_unclaimed_count == old(self).prev_unclaimed_count,
            final(self).frame_events@ == old(self).frame_events@,
            final(self).applied == old(self).applied,
    {
        proof {
            use_type_invariant(&*self);
        }
        let ghost before = self.slots@;
        for i in 0..SLOT_COUNT
            invariant
                zones@.len() == SLOT_COUNT,
                self.current_slot < SLOT_COUNT,
                self.frame_slot < SLOT_COUNT,
                self.prev_unclaimed_count <= SLOT_COUNT,
                self.slots@.len() == SLOT_COUNT,
                forall|j: int|
                    0 <= j < SLOT_COUNT ==> #[trigger] self.slots@[j] == if j < i {
                        claim_slot(before[j], zones@[j])
                    } else {
                        before[j]
                    },
                self.current_slot == old(self).current_slot,
                self.frame_slot == old(self).frame_slot,
                self.active_fingers == old(self).active_fingers,
                self.prev_unclaimed_count == old(self).prev_unclaimed_count,
                self.frame_events@ == old(self).frame_events@,
                self.applied == old(self).applied,
        {
            let s = self.slots[i];
            match (s.active && s.needs_zone_check, s.start_x, s.start_y) {
                (true, Some(_), Some(_)) => {
                    let t = match zones[i] {
                        Some(zone) => SlotState {
                            claimed: true,
                            assigned_zone: Some(zone),
                            needs_zone_check: false,
                            ..s
                        },
                        None => SlotState { needs_zone_check: false, ..s },
                    };
                    self.slots[i] = t;
                },
                _ => {},
            }
        }
        assert(self.slots@ =~= claim_zones(before, zones@));
    }

    fn forward_events(&self, entry: usize) -> (r: Vec<RawEvent>)
        requires
            entry < SLOT_COUNT,
        ensures
            r@ == forward_pass(self.slots@, entry as int, self.frame_events@).out,
    {
        let mut out: Vec<RawEvent> = Vec::new();
        let mut filter_slot: usize = entry;
        let mut pending: Option<RawEvent> = None;
        let n = self.frame_events.len();
        let ghost frame = self.frame_events@;
        proof {
            assert(frame.take(0) =~= seq![]);
        }
        for i in 0..n
            invariant
                n == frame.len(),
                frame == self.frame_events@,
                self.slots@.len() == SLOT_COUNT,
                filter_slot < SLOT_COUNT,
                (ForwardPass { slot: filter_slot as int, pending, out: out@ }) == forward_pass(
                    self.slots@,
                    entry as int,
                    frame.take(i as int),
                ),
        {
            let ev = self.frame_events[i];
            proof {
                assert(frame.take(i + 1).drop_last() =~= frame.take(i as int));
                assert(frame.take(i + 1).last() == ev);
            }
            let ghost prev_out = out@;
            if ev.event_type == EV_ABS && ev.code == ABS_MT_SLOT {
                filter_slot = if 0 <= ev.value && (ev.value as usize) < SLOT_COUNT {
                    ev.value as usize
                } else {
                    SLOT_COUNT - 1
                };
                pending = Some(ev);
            } else if is_single_touch_emulation(&ev) {
            } else if ev.event_type == EV_ABS && is_mt_axis(ev.code) {
                if !self.slots[filter_slot].claimed {
                    if let Some(slot_ev) = pending {
                        out.push(slot_ev);
                    }
                    pending = None;
                    out.push(ev);
                    assert(out@ =~= prev_out + pending_events(
                        forward_pass(self.slots@, entry as int, frame.take(i as int)).pending,
                    ) + seq![ev]);
                }
            } else {
                out.push(ev);
            }
        }
        proof {
            assert(frame.take(n as int) =~= frame);
        }
        out
    }

    fn synthesize(&self) -> (r: Vec<RawEvent>)
        ensures
            r@ == synthesized(self.slots@, self.prev_unclaimed_count, self.prev_unclaimed_count > 0),
    {
        let mut out: Vec<RawEvent> = Vec::new();
        let unclaimed_count = count_unclaimed(&self.slots);
        let primary = find_primary_unclaimed(&self.slots);
        let btn_touch_now = unclaimed_count > 0;
        if btn_touch_now != (self.prev_unclaimed_count > 0) {
            out.push(
                RawEvent {
                    event_type: EV_KEY,
                    code: BTN_TOUCH,
                    value: if btn_touch_now {
                        1
                    } else {
                        0
                    },
                },
            );
        }
        let ghost touch = out@;
        if unclaimed_count != self.prev_unclaimed_count {
            if let Some(old_code) = btn_tool_for_count(self.prev_unclaimed_count) {
                out.push(RawEvent { event_type: EV_KEY, code: old_code, value: 0 });
            }
            if let Some(new_code) = btn_tool_for_count(unclaimed_count) {
                out.push(RawEvent { event_type: EV_KEY, code: new_code, value: 1 });
            }
        }
        let ghost tools = out@;
        if let Some(p) = primary {
            out.push(RawEvent { event_type: EV_ABS, code: ABS_X, value: self.slots[p].current_x });
            out.push(RawEvent { event_type: EV_ABS, code: ABS_Y, value: self.slots[p].current_y });
        }
        assert(out@ =~= synthesized(
            self.slots@,
            self.prev_unclaimed_count,
            self.prev_unclaimed_count > 0,
        ));
        out
    }

    /// Ends the frame that the last `handle_event` applied (its result was
    /// `FrameReady`), once the zones of the queried slots are known: `zones[i]` is the zone in which the touch of slot `i` started,
    /// if any (the entries of slots that were not queried are not read).
    ///
    /// Touches that started in a zone are claimed. The result holds the
    /// frame's events for the virtual device: multitouch events of claimed
    /// touches and single-touch emulation are dropped, then the single-touch
    /// events of the unclaimed touches are added and the batch is closed with
    /// a `SYN_REPORT`; it is empty when there is nothing to send.
    pub fn finish_frame(&mut self, zones: &Vec<Option<Zone>>) -> (output: Vec<RawEvent>)
        requires
            old(self)@.frame_applied,
            zones@.len() == SLOT_COUNT,
        ensures
            final(self)@.wf(),
            final(self)@ == after_finish(old(self)@, zones@),
            output@ == frame_output(old(self)@, zones@),
    {
        proof {
            use_type_invariant(&*self);
        }
        let ghost v = self@;
        self.claim_all(zones);
        let entry_slot = self.current_slot;
        self.current_slot = self.frame_slot;
        let mut output = self.forward_events(entry_slot);
        let ghost forwarded = output@;
        let mut synth = self.synthesize();
        let ghost synth_view = synth@;
        output.append(&mut synth);
        let unclaimed_count = count_unclaimed(&self.slots);
        self.prev_unclaimed_count = unclaimed_count;
        if output.len() > 0 {
            output.push(RawEvent { event_type: EV_SYN, code: SYN_REPORT, value: 0 });
        }
        self.frame_events = Vec::new();
        self.applied = Ghost(false);
        proof {
            assert(forwarded + synth_view =~= forward_pass(
                finished_slots(v, zones@),
                v.current_slot,
                v.frame,
            ).out + synthesized(finished_slots(v, zones@), v.prev_unclaimed, v.prev_btn_touch));
            assert(output@ =~= frame_output(v, zones@));
            assert(self@.frame =~= after_finish(v, zones@).frame);
        }
        output
    }

    /// The state of slot `i`.
    pub fn slot(&self, i: usize) -> (r: SlotState)
        requires
            i < SLOT_COUNT,
        ensures
            r == self@.slots[i as int],
    {
        self.slots[i]
    }

    /// Touches begun minus touches ended, as the device reported them.
    pub fn active_fingers(&self) -> (r: u8)
        ensures
            r == self@.active_fingers,
    {
        self.active_fingers
    }

}


} // verus!
