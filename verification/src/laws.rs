//! Properties of the frame tracker that hold for every state and every
//! frame.

use vstd::prelude::*;

use crate::events::{
    abs_event, is_emulation_event, is_mt_code, is_tool_key, key_event, report_event, tool_key_for,
    RawEvent, ABS_MT_POSITION_X, ABS_MT_POSITION_Y, ABS_MT_SLOT, ABS_MT_TRACKING_ID, ABS_X, ABS_Y, BTN_TOUCH, EV_ABS, EV_KEY,
};
use crate::gesture::Zone;
use crate::tracker::{
    after_finish, after_frame_pass, after_resync, awaits_zone, begin_touch, clamp_slot, empty_slot, finished_slots, forward_pass, frame_output, frame_pass,
    first_free, free_count, initial_view, lemma_first_free, zone_queries_upto, is_free, lemma_free_count_bound, opt_key, synthesized, resync_output, touch_pass, touch_step, SlotState,
    TouchPass, TouchRelease, TrackerView, SLOT_COUNT,
};

verus! {

/// The frame's events without the single-touch emulation events.
pub open spec fn without_emulation(evs: Seq<RawEvent>) -> Seq<RawEvent>
    decreases evs.len(),
{
    if evs.len() == 0 {
        seq![]
    } else if is_emulation_event(evs.last()) {
        without_emulation(evs.drop_last())
    } else {
        without_emulation(evs.drop_last()).push(evs.last())
    }
}

/// Whether the event selects a multitouch slot.
pub open spec fn is_slot_selection(ev: RawEvent) -> bool {
    ev.event_type == EV_ABS && ev.code == ABS_MT_SLOT
}

/// Law: the filter invents nothing. Every event that it forwards is an
/// event of the frame, and none of them is a single-touch emulation event.
pub proof fn lemma_forwarded_events_come_from_frame(
    slots: Seq<SlotState>,
    entry: int,
    evs: Seq<RawEvent>,
)
    requires
        slots.len() == SLOT_COUNT,
        0 <= entry < SLOT_COUNT,
    ensures
        ({
            let f = forward_pass(slots, entry, evs);
            &&& 0 <= f.slot < SLOT_COUNT
            &&& forall|k: int|
                0 <= k < f.out.len() ==> evs.contains(#[trigger] f.out[k]) && !is_emulation_event(
                    f.out[k],
                )
            &&& f.pending matches Some(p) ==> evs.contains(p) && !is_emulation_event(p)
        }),
    decreases evs.len(),
{
    if evs.len() > 0 {
        let pre = evs.drop_last();
        let ev = evs.last();
        lemma_forwarded_events_come_from_frame(slots, entry, pre);
        let f0 = forward_pass(slots, entry, pre);
        let f = forward_pass(slots, entry, evs);
        assert(evs.contains(ev)) by {
            assert(evs[evs.len() - 1] == ev);
        }
        assert forall|e: RawEvent| pre.contains(e) implies evs.contains(e) by {
            let j = choose|j: int| 0 <= j < pre.len() && pre[j] == e;
            assert(evs[j] == e);
        }
        assert forall|k: int| 0 <= k < f.out.len() implies evs.contains(#[trigger] f.out[k])
            && !is_emulation_event(f.out[k]) by {
            if k < f0.out.len() {
                assert(f.out[k] == f0.out[k]);
            }
        }
    }
}


/// The slots keep their number, and the frame slot stays among them, while
/// a frame is applied.
pub proof fn lemma_touch_pass_shape(p: TouchPass, evs: Seq<RawEvent>, now: u64)
    requires
        p.slots.len() == SLOT_COUNT,
        0 <= p.frame_slot < SLOT_COUNT,
    ensures
        touch_pass(p, evs, now).slots.len() == SLOT_COUNT,
        0 <= touch_pass(p, evs, now).frame_slot < SLOT_COUNT,
    decreases evs.len(),
{
    if evs.len() > 0 {
        lemma_touch_pass_shape(p, evs.drop_last(), now);
    }
}

/// Law: touches that were never claimed give no gesture. When no slot
/// holds a claimed touch as a frame begins, applying the frame reports no
/// release and leaves every slot unclaimed.
pub proof fn lemma_unclaimed_touches_release_nothing(p: TouchPass, evs: Seq<RawEvent>, now: u64)
    requires
        p.slots.len() == SLOT_COUNT,
        0 <= p.frame_slot < SLOT_COUNT,
        forall|i: int| 0 <= i < SLOT_COUNT ==> !(#[trigger] p.slots[i]).claimed,
    ensures
        touch_pass(p, evs, now).releases == p.releases,
        forall|i: int| 0 <= i < SLOT_COUNT ==> !(#[trigger] touch_pass(p, evs, now).slots[i]).claimed,
    decreases evs.len(),
{
    if evs.len() > 0 {
        let pre = evs.drop_last();
        lemma_unclaimed_touches_release_nothing(p, pre, now);
        lemma_touch_pass_shape(p, pre, now);
        let q = touch_pass(p, pre, now);
        let r = touch_step(q, evs.last(), now);
        assert(!q.slots[q.frame_slot].claimed);
        assert(r.releases =~= p.releases);
        assert forall|i: int| 0 <= i < SLOT_COUNT implies !(#[trigger] r.slots[i]).claimed by {
            assert(!q.slots[i].claimed);
        }
    }
}

/// Law: a tracker in which no touch is claimed gives no gesture for the
/// frame it applies.
pub proof fn lemma_frame_without_claims_releases_nothing(v: TrackerView, now: u64)
    requires
        v.wf(),
        forall|i: int| 0 <= i < SLOT_COUNT ==> !(#[trigger] v.slots[i]).claimed,
    ensures
        frame_pass(v, now).releases == Seq::<TouchRelease>::empty(),
{
    lemma_unclaimed_touches_release_nothing(
        TouchPass {
            slots: v.slots,
            frame_slot: v.current_slot,
            active_fingers: v.active_fingers,
            releases: seq![],
        },
        v.frame,
        now,
    );
}

/// Law: recovering from dropped events forgets every touch, and a second
/// recovery changes nothing and sends nothing.
pub proof fn lemma_resync_settles(v: TrackerView)
    requires
        v.wf(),
    ensures
        after_resync(v).wf(),
        forall|i: int| 0 <= i < SLOT_COUNT ==> !(#[trigger] after_resync(v).slots[i]).active,
        after_resync(v).active_fingers == 0,
        !after_resync(v).prev_btn_touch,
        after_resync(after_resync(v)) == after_resync(v),
        resync_output(after_resync(v)) == Seq::<RawEvent>::empty(),
{
    assert(after_resync(after_resync(v)).slots =~= after_resync(v).slots);
}

/// Law: every batch sent to the virtual device is a whole frame: when it is
/// not empty, it ends with a `SYN_REPORT`.
pub proof fn lemma_output_is_closed_frame(v: TrackerView, zones: Seq<Option<Zone>>)
    ensures
        frame_output(v, zones).len() > 0 ==> frame_output(v, zones).last() == report_event(),
{
}

/// There is a free touch exactly when the count of free touches is positive.
pub proof fn lemma_free_count_positive(slots: Seq<SlotState>)
    ensures
        free_count(slots) > 0 <==> exists|i: int| 0 <= i < slots.len() && is_free(#[trigger] slots[i]),
    decreases slots.len(),
{
    if slots.len() > 0 {
        let pre = slots.drop_last();
        lemma_free_count_positive(pre);
        if free_count(pre) > 0 {
            let i = choose|i: int| 0 <= i < pre.len() && is_free(#[trigger] pre[i]);
            assert(slots[i] == pre[i]);
        }
        if exists|i: int| 0 <= i < slots.len() && is_free(#[trigger] slots[i]) {
            let i = choose|i: int| 0 <= i < slots.len() && is_free(#[trigger] slots[i]);
            if i < pre.len() {
                assert(pre[i] == slots[i]);
            }
        }
    }
}

/// Law: at the end of every frame the virtual device is told that a finger
/// touches exactly when some touch is down and unclaimed, and every touch
/// whose start is known has had its zone decided.
pub proof fn lemma_finish_settles_zones_and_touch(v: TrackerView, zones: Seq<Option<Zone>>)
    requires
        v.wf(),
        zones.len() == SLOT_COUNT,
    ensures
        after_finish(v, zones).wf(),
        after_finish(v, zones).prev_btn_touch <==> exists|i: int|
            0 <= i < SLOT_COUNT && is_free(#[trigger] after_finish(v, zones).slots[i]),
        forall|i: int| 0 <= i < SLOT_COUNT ==> !awaits_zone(#[trigger] after_finish(v, zones).slots[i]),
{
    let slots = finished_slots(v, zones);
    lemma_free_count_bound(slots);
    lemma_free_count_positive(slots);
}

/// Law: when no touch is claimed and the frame selects no slot, the filter
/// forwards the frame unchanged, less its single-touch emulation events.
pub proof fn lemma_unclaimed_frame_passes_through(
    slots: Seq<SlotState>,
    entry: int,
    evs: Seq<RawEvent>,
)
    requires
        slots.len() == SLOT_COUNT,
        0 <= entry < SLOT_COUNT,
        forall|i: int| 0 <= i < SLOT_COUNT ==> !(#[trigger] slots[i]).claimed,
        forall|k: int| 0 <= k < evs.len() ==> !is_slot_selection(#[trigger] evs[k]),
    ensures
        forward_pass(slots, entry, evs).out == without_emulation(evs),
        forward_pass(slots, entry, evs).pending is None,
        forward_pass(slots, entry, evs).slot == entry,
    decreases evs.len(),
{
    if evs.len() > 0 {
        let pre = evs.drop_last();
        assert forall|k: int| 0 <= k < pre.len() implies !is_slot_selection(#[trigger] pre[k]) by {
            assert(pre[k] == evs[k]);
        }
        assert(!is_slot_selection(evs[evs.len() - 1]));
        lemma_unclaimed_frame_passes_through(slots, entry, pre);
        let f = forward_pass(slots, entry, evs);
        assert(f.out =~= without_emulation(evs));
    }
}

/// Whether the event is a multitouch axis event.
pub open spec fn is_mt_event(ev: RawEvent) -> bool {
    ev.event_type == EV_ABS && is_mt_code(ev.code)
}

/// Law: a claimed touch is hidden. While the frame stays on a slot whose
/// touch is claimed (it selects no other slot), none of its multitouch
/// events reaches the virtual device.
pub proof fn lemma_claimed_slot_is_hidden(slots: Seq<SlotState>, entry: int, evs: Seq<RawEvent>)
    requires
        slots.len() == SLOT_COUNT,
        0 <= entry < SLOT_COUNT,
        slots[entry].claimed,
        forall|k: int| 0 <= k < evs.len() ==> !is_slot_selection(#[trigger] evs[k]),
    ensures
        forall|k: int|
            0 <= k < forward_pass(slots, entry, evs).out.len() ==> !is_mt_event(
                #[trigger] forward_pass(slots, entry, evs).out[k],
            ),
        forward_pass(slots, entry, evs).slot == entry,
        forward_pass(slots, entry, evs).pending is None,
    decreases evs.len(),
{
    if evs.len() > 0 {
        let pre = evs.drop_last();
        assert forall|k: int| 0 <= k < pre.len() implies !is_slot_selection(#[trigger] pre[k]) by {
            assert(pre[k] == evs[k]);
        }
        assert(!is_slot_selection(evs[evs.len() - 1]));
        lemma_claimed_slot_is_hidden(slots, entry, pre);
        let f0 = forward_pass(slots, entry, pre);
        let f = forward_pass(slots, entry, evs);
        assert forall|k: int| 0 <= k < f.out.len() implies !is_mt_event(#[trigger] f.out[k]) by {
            if k < f0.out.len() {
                assert(f.out[k] == f0.out[k]);
            }
        }
    }
}

/// The position of the last slot selection before position `k` of a frame.
pub open spec fn last_selection(evs: Seq<RawEvent>, k: int) -> Option<int>
    decreases k,
{
    if k <= 0 {
        None
    } else if is_slot_selection(evs[k - 1]) {
        Some(k - 1)
    } else {
        last_selection(evs, k - 1)
    }
}

/// The slot that the event at position `k` of a frame refers to: the one
/// its last selection chose, or the slot current when the frame began.
pub open spec fn slot_at(entry: int, evs: Seq<RawEvent>, k: int) -> int {
    match last_selection(evs, k) {
        Some(s) => clamp_slot(evs[s].value),
        None => entry,
    }
}

/// Whether the event at position `k` is forwarded for itself: it selects no
/// slot, is no single-touch emulation, and is no multitouch event of a
/// claimed slot.
pub open spec fn kept(slots: Seq<SlotState>, entry: int, evs: Seq<RawEvent>, k: int) -> bool {
    &&& !is_slot_selection(evs[k])
    &&& !is_emulation_event(evs[k])
    &&& !(is_mt_event(evs[k]) && slots[slot_at(entry, evs, k)].claimed)
}

/// Whether a forwarded multitouch event lies strictly between positions `s`
/// and `k`.
pub open spec fn kept_mt_between(
    slots: Seq<SlotState>,
    entry: int,
    evs: Seq<RawEvent>,
    s: int,
    k: int,
) -> bool {
    exists|j: int| s < j < k && #[trigger] kept(slots, entry, evs, j) && is_mt_event(evs[j])
}

/// What the filter sends for the event at position `k`: nothing for an
/// event that is not kept; a kept event itself; and, before the first kept
/// multitouch event after a slot selection, that selection.
pub open spec fn piece(slots: Seq<SlotState>, entry: int, evs: Seq<RawEvent>, k: int) -> Seq<
    RawEvent,
> {
    if kept(slots, entry, evs, k) {
        match last_selection(evs, k) {
            Some(s) => if is_mt_event(evs[k]) && !kept_mt_between(slots, entry, evs, s, k) {
                seq![evs[s], evs[k]]
            } else {
                seq![evs[k]]
            },
            None => seq![evs[k]],
        }
    } else {
        seq![]
    }
}

/// What the filter sends for the first `n` events of a frame, in order.
pub open spec fn kept_events(slots: Seq<SlotState>, entry: int, evs: Seq<RawEvent>, n: int) -> Seq<
    RawEvent,
>
    decreases n,
{
    if n <= 0 {
        seq![]
    } else {
        kept_events(slots, entry, evs, n - 1) + piece(slots, entry, evs, n - 1)
    }
}

/// The last selection before `k` lies before `k` and selects a slot.
pub proof fn lemma_last_selection(evs: Seq<RawEvent>, k: int)
    ensures
        last_selection(evs, k) matches Some(s) ==> 0 <= s < k && is_slot_selection(evs[s]),
    decreases k,
{
    if k > 0 {
        lemma_last_selection(evs, k - 1);
    }
}

proof fn lemma_forward_prefix(slots: Seq<SlotState>, entry: int, evs: Seq<RawEvent>, n: int)
    requires
        slots.len() == SLOT_COUNT,
        0 <= entry < SLOT_COUNT,
        0 <= n <= evs.len(),
    ensures
        ({
            let f = forward_pass(slots, entry, evs.take(n));
            &&& f.slot == slot_at(entry, evs, n)
            &&& 0 <= f.slot < SLOT_COUNT
            &&& f.pending == match last_selection(evs, n) {
                Some(s) => if kept_mt_between(slots, entry, evs, s, n) {
                    None
                } else {
                    Some(evs[s])
                },
                None => None,
            }
            &&& f.out == kept_events(slots, entry, evs, n)
        }),
    decreases n,
{
    if n > 0 {
        let m = n - 1;
        lemma_forward_prefix(slots, entry, evs, m);
        assert(evs.take(n).drop_last() =~= evs.take(m));
        assert(evs.take(n).last() == evs[m]);
        let f0 = forward_pass(slots, entry, evs.take(m));
        let ev = evs[m];
        lemma_last_selection(evs, m);
        match last_selection(evs, m) {
            Some(s) => {
                if !is_slot_selection(ev) {
                    assert(last_selection(evs, n) == Some(s));
                    if kept(slots, entry, evs, m) && is_mt_event(ev) {
                        assert(kept_mt_between(slots, entry, evs, s, n)) by {
                            assert(s < m < n && kept(slots, entry, evs, m) && is_mt_event(evs[m]));
                        }
                    } else {
                        assert(kept_mt_between(slots, entry, evs, s, n) == kept_mt_between(
                            slots,
                            entry,
                            evs,
                            s,
                            m,
                        )) by {
                            if kept_mt_between(slots, entry, evs, s, n) {
                                let j = choose|j: int|
                                    s < j < n && #[trigger] kept(slots, entry, evs, j)
                                        && is_mt_event(evs[j]);
                                assert(j != m);
                            }
                        }
                    }
                }
            },
            None => {},
        }
        let f = forward_pass(slots, entry, evs.take(n));
        assert(f.out =~= kept_events(slots, entry, evs, n));
    }
}

/// Law: the filter forwards, in the frame's order, exactly the events that
/// select no slot, are no single-touch emulation, and are no multitouch
/// event of a claimed slot (the slot being the one that the last selection
/// before the event chose, or the one current when the frame began); a slot
/// selection is forwarded right before the first such multitouch event that
/// follows it before the next selection, and not otherwise.
pub proof fn lemma_forwarding_filter(slots: Seq<SlotState>, entry: int, evs: Seq<RawEvent>)
    requires
        slots.len() == SLOT_COUNT,
        0 <= entry < SLOT_COUNT,
    ensures
        forward_pass(slots, entry, evs).out == kept_events(slots, entry, evs, evs.len() as int),
{
    lemma_forward_prefix(slots, entry, evs, evs.len() as int);
    assert(evs.take(evs.len() as int) =~= evs);
}

/// Whether the event writes the key `code`.
pub open spec fn is_key_of(ev: RawEvent, code: u16) -> bool {
    ev.event_type == EV_KEY && ev.code == code
}

/// The value last written for the key `code`, or 0 (released) when none
/// was written.
pub open spec fn key_value(written: Seq<RawEvent>, code: u16) -> i32
    decreases written.len(),
{
    if written.len() == 0 {
        0
    } else if is_key_of(written.last(), code) {
        written.last().value
    } else {
        key_value(written.drop_last(), code)
    }
}

/// Whether the events write the key `code` at all.
pub open spec fn mentions_key(written: Seq<RawEvent>, code: u16) -> bool {
    exists|k: int| 0 <= k < written.len() && is_key_of(#[trigger] written[k], code)
}

/// The value of a key that is down (1) or up (0).
pub open spec fn held_value(down: bool) -> i32 {
    if down {
        1
    } else {
        0
    }
}

/// The keys last written to the virtual device agree with the tracker:
/// `BTN_TOUCH` is down exactly when the tracker has reported a touch, and
/// the one tool key down is that of the reported finger count.
pub open spec fn device_agrees(v: TrackerView, written: Seq<RawEvent>) -> bool {
    &&& key_value(written, BTN_TOUCH) == held_value(v.prev_btn_touch)
    &&& forall|c: u16|
        is_tool_key(c) ==> #[trigger] key_value(written, c) == held_value(
            tool_key_for(v.prev_unclaimed) == Some(c),
        )
}

/// The last write of a key in `a + b` is its last write in `b`, if `b`
/// writes it, and otherwise its last write in `a`.
pub proof fn lemma_key_value_append(a: Seq<RawEvent>, b: Seq<RawEvent>, code: u16)
    ensures
        key_value(a + b, code) == if mentions_key(b, code) {
            key_value(b, code)
        } else {
            key_value(a, code)
        },
        mentions_key(a + b, code) == (mentions_key(a, code) || mentions_key(b, code)),
    decreases b.len(),
{
    if mentions_key(a + b, code) {
        let k = choose|k: int| 0 <= k < (a + b).len() && is_key_of(#[trigger] (a + b)[k], code);
        if k < a.len() {
            assert((a + b)[k] == a[k]);
        } else {
            assert((a + b)[k] == b[k - a.len()]);
        }
    }
    if mentions_key(a, code) {
        let k = choose|k: int| 0 <= k < a.len() && is_key_of(#[trigger] a[k], code);
        assert((a + b)[k] == a[k]);
    }
    if mentions_key(b, code) {
        let k = choose|k: int| 0 <= k < b.len() && is_key_of(#[trigger] b[k], code);
        assert((a + b)[a.len() + k] == b[k]);
    }
    if b.len() == 0 {
        assert(a + b =~= a);
    } else {
        let b0 = b.drop_last();
        lemma_key_value_append(a, b0, code);
        assert((a + b).drop_last() =~= a + b0);
        assert((a + b).last() == b.last());
        if is_key_of(b.last(), code) {
            assert(is_key_of(b[b.len() - 1], code));
        } else {
            assert(mentions_key(b, code) == mentions_key(b0, code)) by {
                if mentions_key(b, code) {
                    let k = choose|k: int| 0 <= k < b.len() && is_key_of(#[trigger] b[k], code);
                    assert(b0[k] == b[k]);
                }
                if mentions_key(b0, code) {
                    let k = choose|k: int| 0 <= k < b0.len() && is_key_of(#[trigger] b0[k], code);
                    assert(b[k] == b0[k]);
                }
            }
        }
    }
}

/// A single event.
proof fn lemma_key_value_single(e: RawEvent, code: u16)
    ensures
        mentions_key(seq![e], code) == is_key_of(e, code),
        is_key_of(e, code) ==> key_value(seq![e], code) == e.value,
{
    assert(seq![e].drop_last() =~= Seq::<RawEvent>::empty());
    if is_key_of(e, code) {
        assert(is_key_of(seq![e][0], code));
    }
}

proof fn lemma_no_key_mentioned(w: Seq<RawEvent>, code: u16)
    requires
        forall|k: int| 0 <= k < w.len() ==> !is_key_of(#[trigger] w[k], code),
    ensures
        !mentions_key(w, code),
{
}

/// A new tracker and a virtual device that nothing was written to agree.
pub proof fn lemma_device_agrees_initially()
    ensures
        device_agrees(initial_view(), Seq::<RawEvent>::empty()),
{
}

/// Law: applying a frame to the slots, or buffering an event, writes
/// nothing and keeps the reported touch, so the agreement is kept.
pub proof fn lemma_device_agrees_after_frame_pass(v: TrackerView, written: Seq<RawEvent>, now: u64, ev: RawEvent)
    requires
        device_agrees(v, written),
    ensures
        device_agrees(after_frame_pass(v, now), written),
        device_agrees(TrackerView { frame: v.frame.push(ev), frame_applied: false, ..v }, written),
{
}

/// Law: recovering from dropped events keeps the virtual device in
/// agreement: every key it holds is released.
pub proof fn lemma_device_agrees_after_resync(v: TrackerView, written: Seq<RawEvent>)
    requires
        v.wf(),
        device_agrees(v, written),
    ensures
        device_agrees(after_resync(v), written + resync_output(v)),
        key_value(written + resync_output(v), BTN_TOUCH) == 0,
        forall|c: u16| is_tool_key(c) ==> #[trigger] key_value(written + resync_output(v), c) == 0,
{
    let out = resync_output(v);
    if v.prev_btn_touch {
        let tools = opt_key(tool_key_for(v.prev_unclaimed), 0);
        let tail = seq![key_event(BTN_TOUCH, 0), report_event()];
        assert(out == tools + tail);
        assert(tail.drop_last() =~= seq![key_event(BTN_TOUCH, 0)]);
        lemma_key_value_single(key_event(BTN_TOUCH, 0), BTN_TOUCH);
        lemma_key_value_append(written + tools, tail, BTN_TOUCH);
        assert(written + out =~= (written + tools) + tail);
        assert(mentions_key(tail, BTN_TOUCH)) by {
            assert(is_key_of(tail[0], BTN_TOUCH));
        }
        assert forall|c: u16| is_tool_key(c) implies #[trigger] key_value(written + out, c) == 0 by {
            lemma_key_value_append(written + tools, tail, c);
            lemma_no_key_mentioned(tail, c);
            lemma_key_value_append(written, tools, c);
            match tool_key_for(v.prev_unclaimed) {
                Some(t) => {
                    lemma_key_value_single(key_event(t, 0), c);
                },
                None => {
                    assert(tools =~= Seq::<RawEvent>::empty());
                },
            }
        }
    } else {
        assert(written + out =~= written);
    }
}

/// Law: at the end of every frame the virtual device agrees with the
/// tracker again, and so `BTN_TOUCH` is down exactly when some touch is down
/// and unclaimed, and the tool key down is that of the number of unclaimed
/// touches; claimed touches hold no key.
pub proof fn lemma_device_agrees_after_finish(
    v: TrackerView,
    zones: Seq<Option<Zone>>,
    written: Seq<RawEvent>,
)
    requires
        v.wf(),
        zones.len() == SLOT_COUNT,
        device_agrees(v, written),
    ensures
        device_agrees(after_finish(v, zones), written + frame_output(v, zones)),
        key_value(written + frame_output(v, zones), BTN_TOUCH) == 1 <==> exists|i: int|
            0 <= i < SLOT_COUNT && is_free(#[trigger] finished_slots(v, zones)[i]),
        forall|c: u16|
            is_tool_key(c) ==> (#[trigger] key_value(written + frame_output(v, zones), c) == 1
                <==> tool_key_for(free_count(finished_slots(v, zones)) as u8) == Some(c)),
{
    let slots = finished_slots(v, zones);
    assert(slots.len() == SLOT_COUNT);
    lemma_free_count_bound(slots);
    lemma_free_count_positive(slots);
    lemma_forwarded_events_come_from_frame(slots, v.current_slot, v.frame);
    let fw = forward_pass(slots, v.current_slot, v.frame).out;
    let count = free_count(slots) as u8;
    let touching = count > 0;
    let touch = if touching != v.prev_btn_touch {
        seq![key_event(BTN_TOUCH, if touching { 1 } else { 0 })]
    } else {
        seq![]
    };
    let tools = if count != v.prev_unclaimed {
        opt_key(tool_key_for(v.prev_unclaimed), 0) + opt_key(tool_key_for(count), 1)
    } else {
        seq![]
    };
    let pos = match first_free(slots) {
        Some(p) => seq![abs_event(ABS_X, slots[p].current_x), abs_event(ABS_Y, slots[p].current_y)],
        None => seq![],
    };
    let syn = synthesized(slots, v.prev_unclaimed, v.prev_btn_touch);
    assert(syn == touch + tools + pos);
    let body = fw + syn;
    let out = frame_output(v, zones);
    let w2 = written + out;
    assert forall|c: u16| c == BTN_TOUCH || is_tool_key(c) implies #[trigger] key_value(w2, c)
        == key_value(written + body, c) by {
        if body.len() > 0 {
            assert(w2.drop_last() =~= written + body);
        } else {
            assert(out =~= body);
        }
    }
    assert forall|c: u16| c == BTN_TOUCH || is_tool_key(c) implies #[trigger] key_value(
        written + body,
        c,
    ) == if mentions_key(touch + tools, c) {
        key_value(touch + tools, c)
    } else {
        key_value(written, c)
    } by {
        assert(written + body =~= ((written + fw) + (touch + tools)) + pos);
        lemma_key_value_append((written + fw) + (touch + tools), pos, c);
        lemma_no_key_mentioned(pos, c);
        lemma_key_value_append(written + fw, touch + tools, c);
        lemma_key_value_append(written, fw, c);
        assert forall|k: int| 0 <= k < fw.len() implies !is_key_of(#[trigger] fw[k], c) by {
            assert(!is_emulation_event(fw[k]));
        }
        lemma_no_key_mentioned(fw, c);
    }
    // BTN_TOUCH: only `touch` can write it.
    lemma_tool_writes(v.prev_unclaimed, count, BTN_TOUCH, key_value(written, BTN_TOUCH));
    lemma_key_value_append(touch, tools, BTN_TOUCH);
    if touching != v.prev_btn_touch {
        lemma_key_value_single(key_event(BTN_TOUCH, if touching { 1 } else { 0 }), BTN_TOUCH);
    } else {
        assert(touch =~= Seq::<RawEvent>::empty());
    }
    assert(key_value(w2, BTN_TOUCH) == held_value(touching));
    // Tool keys: only `tools` can write them.
    assert forall|c: u16| is_tool_key(c) implies #[trigger] key_value(w2, c) == held_value(
        tool_key_for(count) == Some(c),
    ) by {
        lemma_key_value_append(touch, tools, c);
        if touching != v.prev_btn_touch {
            lemma_key_value_single(key_event(BTN_TOUCH, if touching { 1 } else { 0 }), c);
        } else {
            assert(touch =~= Seq::<RawEvent>::empty());
        }
        assert(!mentions_key(touch, c));
        lemma_tool_writes(v.prev_unclaimed, count, c, key_value(written, c));
        assert(key_value(w2, c) == key_value(written + body, c));
    }
}

/// How the tool-key writes of a frame leave a key: the tool key of the new
/// count is down and every other key is as before, except the tool key of
/// the old count, which is released.
proof fn lemma_tool_writes(prev: u8, count: u8, c: u16, before: i32)
    requires
        is_tool_key(c) ==> before == held_value(tool_key_for(prev) == Some(c)),
    ensures
        ({
            let tools = if count != prev {
                opt_key(tool_key_for(prev), 0) + opt_key(tool_key_for(count), 1)
            } else {
                seq![]
            };
            &&& !is_tool_key(c) ==> !mentions_key(tools, c)
            &&& is_tool_key(c) ==> (if mentions_key(tools, c) {
                key_value(tools, c)
            } else {
                before
            }) == held_value(tool_key_for(count) == Some(c))
        }),
{
    if count != prev {
        let a = opt_key(tool_key_for(prev), 0);
        let b = opt_key(tool_key_for(count), 1);
        lemma_key_value_append(a, b, c);
        match tool_key_for(count) {
            Some(t) => {
                lemma_key_value_single(key_event(t, 1), c);
            },
            None => {
                assert(b =~= Seq::<RawEvent>::empty());
            },
        }
        match tool_key_for(prev) {
            Some(t) => {
                lemma_key_value_single(key_event(t, 0), c);
            },
            None => {
                assert(a =~= Seq::<RawEvent>::empty());
            },
        }
        if mentions_key(a + b, c) {
            let k = choose|k: int| 0 <= k < (a + b).len() && is_key_of(#[trigger] (a + b)[k], c);
            if k < a.len() {
                assert((a + b)[k] == a[k]);
            } else {
                assert((a + b)[k] == b[k - a.len()]);
            }
        }
    } else {
        assert(!mentions_key(Seq::<RawEvent>::empty(), c));
    }
}

/// Whether the event carries a tracking id.
pub open spec fn is_tracking_event(ev: RawEvent) -> bool {
    ev.event_type == EV_ABS && ev.code == ABS_MT_TRACKING_ID
}

/// Whether the event ends a touch (tracking id -1).
pub open spec fn is_lift(ev: RawEvent) -> bool {
    is_tracking_event(ev) && ev.value == -1
}

/// While a frame is applied, the frame slot is the slot that the last
/// selection chose, or the one current when the frame began.
pub proof fn lemma_touch_pass_slot(p: TouchPass, evs: Seq<RawEvent>, now: u64, n: int)
    requires
        p.slots.len() == SLOT_COUNT,
        0 <= p.frame_slot < SLOT_COUNT,
        0 <= n <= evs.len(),
    ensures
        touch_pass(p, evs.take(n), now).frame_slot == slot_at(p.frame_slot, evs, n),
        touch_pass(p, evs.take(n), now).slots.len() == SLOT_COUNT,
        0 <= touch_pass(p, evs.take(n), now).frame_slot < SLOT_COUNT,
    decreases n,
{
    lemma_touch_pass_shape(p, evs.take(n), now);
    if n > 0 {
        lemma_touch_pass_slot(p, evs, now, n - 1);
        assert(evs.take(n).drop_last() =~= evs.take(n - 1));
        assert(evs.take(n).last() == evs[n - 1]);
    }
}

/// The parts of a slot that make up its claim.
pub open spec fn same_claim(a: SlotState, b: SlotState) -> bool {
    &&& a.active == b.active
    &&& a.claimed == b.claimed
    &&& a.assigned_zone == b.assigned_zone
    &&& a.needs_zone_check == b.needs_zone_check
}

/// A frame that carries no tracking id for slot `i` leaves the claim of
/// slot `i` as it was.
pub proof fn lemma_touch_pass_keeps_claim(p: TouchPass, evs: Seq<RawEvent>, now: u64, i: int, n: int)
    requires
        p.slots.len() == SLOT_COUNT,
        0 <= p.frame_slot < SLOT_COUNT,
        0 <= i < SLOT_COUNT,
        0 <= n <= evs.len(),
        forall|k: int|
            0 <= k < evs.len() && is_tracking_event(#[trigger] evs[k]) ==> slot_at(
                p.frame_slot,
                evs,
                k,
            ) != i,
    ensures
        same_claim(touch_pass(p, evs.take(n), now).slots[i], p.slots[i]),
    decreases n,
{
    if n > 0 {
        lemma_touch_pass_keeps_claim(p, evs, now, i, n - 1);
        lemma_touch_pass_slot(p, evs, now, n - 1);
        assert(evs.take(n).drop_last() =~= evs.take(n - 1));
        assert(evs.take(n).last() == evs[n - 1]);
    } else {
        assert(evs.take(0) =~= Seq::<RawEvent>::empty());
    }
}

/// Law: a touch's zone is decided once and kept. Once a slot's zone has
/// been decided (it no longer awaits it), the slot keeps its claim and its
/// zone through every frame that carries no tracking id for it, whatever
/// zones are found for other touches, until its next tracking id.
pub proof fn lemma_claim_is_kept(v: TrackerView, now: u64, zones: Seq<Option<Zone>>, i: int)
    requires
        v.wf(),
        zones.len() == SLOT_COUNT,
        0 <= i < SLOT_COUNT,
        !v.slots[i].needs_zone_check,
        forall|k: int|
            0 <= k < v.frame.len() && is_tracking_event(#[trigger] v.frame[k]) ==> slot_at(
                v.current_slot,
                v.frame,
                k,
            ) != i,
    ensures
        same_claim(after_frame_pass(v, now).slots[i], v.slots[i]),
        same_claim(after_finish(after_frame_pass(v, now), zones).slots[i], v.slots[i]),
{
    let p = TouchPass {
        slots: v.slots,
        frame_slot: v.current_slot,
        active_fingers: v.active_fingers,
        releases: seq![],
    };
    lemma_touch_pass_keeps_claim(p, v.frame, now, i, v.frame.len() as int);
    lemma_touch_pass_shape(p, v.frame, now);
    assert(v.frame.take(v.frame.len() as int) =~= v.frame);
}

/// The number of lifts in a sequence of events.
pub open spec fn lift_count(evs: Seq<RawEvent>) -> nat
    decreases evs.len(),
{
    if evs.len() == 0 {
        0
    } else {
        lift_count(evs.drop_last()) + if is_lift(evs.last()) {
            1nat
        } else {
            0nat
        }
    }
}

/// Law: a gesture release comes only when a touch lifts. An event that
/// does not lift an active touch reports nothing; a lift reports at most
/// one release, only for a claimed touch, and leaves the slot empty, so that
/// a second lift of it reports nothing until a new touch begins there.
pub proof fn lemma_release_only_at_lift(p: TouchPass, ev: RawEvent, now: u64)
    requires
        p.slots.len() == SLOT_COUNT,
        0 <= p.frame_slot < SLOT_COUNT,
    ensures
        ({
            let q = touch_step(p, ev, now);
            let s = p.slots[p.frame_slot];
            &&& !(is_lift(ev) && s.active) ==> q.releases == p.releases
            &&& is_lift(ev) && s.active ==> {
                &&& p.releases.len() <= q.releases.len() <= p.releases.len() + 1
                &&& q.releases.subrange(0, p.releases.len() as int) == p.releases
                &&& (q.releases.len() > p.releases.len() ==> s.claimed)
                &&& q.slots[p.frame_slot] == empty_slot()
                &&& q.frame_slot == p.frame_slot
                &&& touch_step(q, ev, now).releases == q.releases
            }
        }),
{
    let q = touch_step(p, ev, now);
    if is_lift(ev) && p.slots[p.frame_slot].active {
        assert(q.releases.subrange(0, p.releases.len() as int) =~= p.releases);
    }
}

/// Law: applying a frame reports at most one release per lift in it, and
/// none when it lifts no touch; earlier releases stay as they were.
pub proof fn lemma_releases_bounded_by_lifts(p: TouchPass, evs: Seq<RawEvent>, now: u64)
    requires
        p.slots.len() == SLOT_COUNT,
        0 <= p.frame_slot < SLOT_COUNT,
    ensures
        p.releases.len() <= touch_pass(p, evs, now).releases.len() <= p.releases.len() + lift_count(
            evs,
        ),
        touch_pass(p, evs, now).releases.subrange(0, p.releases.len() as int) == p.releases,
    decreases evs.len(),
{
    if evs.len() > 0 {
        let pre = evs.drop_last();
        lemma_releases_bounded_by_lifts(p, pre, now);
        lemma_touch_pass_shape(p, pre, now);
        let q = touch_pass(p, pre, now);
        lemma_release_only_at_lift(q, evs.last(), now);
        let r = touch_pass(p, evs, now);
        assert(r.releases.subrange(0, q.releases.len() as int) == q.releases);
        assert(r.releases.subrange(0, p.releases.len() as int) =~= q.releases.subrange(
            0,
            p.releases.len() as int,
        ));
    }
}

/// The number of slots that hold a touch.
pub open spec fn active_count(slots: Seq<SlotState>) -> nat
    decreases slots.len(),
{
    if slots.len() == 0 {
        0
    } else {
        active_count(slots.drop_last()) + if slots.last().active {
            1nat
        } else {
            0nat
        }
    }
}

/// Replacing one slot changes the count of active slots by that slot alone.
pub proof fn lemma_active_count_update(slots: Seq<SlotState>, i: int, x: SlotState)
    requires
        0 <= i < slots.len(),
    ensures
        active_count(slots.update(i, x)) + (if slots[i].active {
            1int
        } else {
            0int
        }) == active_count(slots) + (if x.active {
            1int
        } else {
            0int
        }),
        active_count(slots) <= slots.len(),
    decreases slots.len(),
{
    let u = slots.update(i, x);
    if i < slots.len() - 1 {
        lemma_active_count_update(slots.drop_last(), i, x);
        assert(u.drop_last() =~= slots.drop_last().update(i, x));
    } else {
        assert(u.drop_last() =~= slots.drop_last());
        lemma_active_count_bound(slots.drop_last());
    }
}

/// The count of active slots never exceeds the number of slots.
pub proof fn lemma_active_count_bound(slots: Seq<SlotState>)
    ensures
        active_count(slots) <= slots.len(),
    decreases slots.len(),
{
    if slots.len() > 0 {
        lemma_active_count_bound(slots.drop_last());
    }
}

/// Whether the event begins a touch in a slot that already holds one.
pub open spec fn begins_on_active(p: TouchPass, ev: RawEvent) -> bool {
    is_tracking_event(ev) && ev.value != -1 && p.slots[p.frame_slot].active
}

/// Law: when the device begins touches only in free slots, the finger
/// count is exactly the number of slots that hold a touch, so it stays
/// within 0 and the number of slots and never wraps.
pub proof fn lemma_finger_count_matches_active_slots(p: TouchPass, evs: Seq<RawEvent>, now: u64)
    requires
        p.slots.len() == SLOT_COUNT,
        0 <= p.frame_slot < SLOT_COUNT,
        p.active_fingers == active_count(p.slots),
        forall|k: int|
            0 <= k < evs.len() ==> !begins_on_active(
                touch_pass(p, evs.take(k), now),
                #[trigger] evs[k],
            ),
    ensures
        touch_pass(p, evs, now).active_fingers == active_count(touch_pass(p, evs, now).slots),
        touch_pass(p, evs, now).active_fingers <= SLOT_COUNT,
    decreases evs.len(),
{
    if evs.len() > 0 {
        let pre = evs.drop_last();
        assert forall|k: int| 0 <= k < pre.len() implies !begins_on_active(
            touch_pass(p, pre.take(k), now),
            #[trigger] pre[k],
        ) by {
            assert(pre.take(k) =~= evs.take(k));
            assert(pre[k] == evs[k]);
        }
        lemma_finger_count_matches_active_slots(p, pre, now);
        lemma_touch_pass_shape(p, pre, now);
        let q = touch_pass(p, pre, now);
        let ev = evs.last();
        assert(evs.take(evs.len() - 1) =~= pre);
        assert(!begins_on_active(q, evs[evs.len() - 1]));
        let fs = q.frame_slot;
        let s = q.slots[fs];
        lemma_active_count_update(q.slots, fs, empty_slot());
        lemma_active_count_update(q.slots, fs, begin_touch(s, ev.value, now));
        lemma_active_count_update(q.slots, fs, SlotState { current_x: ev.value, start_x: if s.start_x is None {
            Some(ev.value)
        } else {
            s.start_x
        }, ..s });
        lemma_active_count_update(q.slots, fs, SlotState { current_y: ev.value, start_y: if s.start_y is None {
            Some(ev.value)
        } else {
            s.start_y
        }, ..s });
        lemma_active_count_bound(touch_pass(p, evs, now).slots);
        lemma_touch_pass_shape(p, evs, now);
    } else {
        lemma_active_count_bound(p.slots);
    }
}

/// Law: recovery from dropped events and the end of a frame keep the finger
/// count equal to the number of slots that hold a touch.
pub proof fn lemma_finger_count_kept_by_resync_and_finish(v: TrackerView, zones: Seq<Option<Zone>>)
    requires
        v.wf(),
        zones.len() == SLOT_COUNT,
        v.active_fingers == active_count(v.slots),
    ensures
        after_resync(v).active_fingers == active_count(after_resync(v).slots),
        after_finish(v, zones).active_fingers == active_count(after_finish(v, zones).slots),
{
    lemma_active_count_same(after_resync(v).slots, Seq::new(SLOT_COUNT as nat, |i: int| empty_slot()));
    lemma_active_count_zero(after_resync(v).slots);
    lemma_active_count_same(after_finish(v, zones).slots, v.slots);
}

/// Slots that hold no touch count zero.
proof fn lemma_active_count_zero(slots: Seq<SlotState>)
    requires
        forall|i: int| 0 <= i < slots.len() ==> !(#[trigger] slots[i]).active,
    ensures
        active_count(slots) == 0,
    decreases slots.len(),
{
    if slots.len() > 0 {
        lemma_active_count_zero(slots.drop_last());
    }
}

/// Slot sequences that agree on which slots are active count the same.
proof fn lemma_active_count_same(a: Seq<SlotState>, b: Seq<SlotState>)
    requires
        a.len() == b.len(),
        forall|i: int| 0 <= i < a.len() ==> (#[trigger] a[i]).active == b[i].active,
    ensures
        active_count(a) == active_count(b),
    decreases a.len(),
{
    if a.len() > 0 {
        lemma_active_count_same(a.drop_last(), b.drop_last());
    }
}

/// Law: the next frame starts on the slot that the finished frame selected
/// last, or on the slot it began with when it selected none. A position
/// event that the next frame carries before any slot selection therefore
/// moves that slot's touch.
pub proof fn lemma_next_frame_starts_on_last_selected_slot(
    v: TrackerView,
    now: u64,
    zones: Seq<Option<Zone>>,
    x: i32,
    later: u64,
)
    requires
        v.wf(),
        zones.len() == SLOT_COUNT,
    ensures
        ({
            let last = slot_at(v.current_slot, v.frame, v.frame.len() as int);
            let w = after_finish(after_frame_pass(v, now), zones);
            let move_x = RawEvent { event_type: EV_ABS, code: ABS_MT_POSITION_X, value: x };
            let next = TrackerView { frame: seq![move_x], frame_applied: false, ..w };
            &&& 0 <= last < SLOT_COUNT
            &&& w.current_slot == last
            &&& after_frame_pass(next, later).slots[last].current_x == x
            &&& forall|j: int|
                0 <= j < SLOT_COUNT && j != last ==> #[trigger] after_frame_pass(next, later).slots[j]
                    == w.slots[j]
        }),
{
    let p = TouchPass {
        slots: v.slots,
        frame_slot: v.current_slot,
        active_fingers: v.active_fingers,
        releases: seq![],
    };
    lemma_touch_pass_slot(p, v.frame, now, v.frame.len() as int);
    assert(v.frame.take(v.frame.len() as int) =~= v.frame);
    let w = after_finish(after_frame_pass(v, now), zones);
    let move_x = RawEvent { event_type: EV_ABS, code: ABS_MT_POSITION_X, value: x };
    let q = TouchPass {
        slots: w.slots,
        frame_slot: w.current_slot,
        active_fingers: w.active_fingers,
        releases: seq![],
    };
    assert(seq![move_x].drop_last() =~= Seq::<RawEvent>::empty());
    assert(seq![move_x].last() == move_x);
    assert(touch_pass(q, seq![move_x], later) == touch_step(q, move_x, later)) by {
        reveal_with_fuel(touch_pass, 2);
    }
}

/// The event that lifts the touch of the current slot.
pub open spec fn lift_event() -> RawEvent {
    RawEvent { event_type: EV_ABS, code: ABS_MT_TRACKING_ID, value: -1i32 }
}

/// Law: a position event moves the touch of the current slot to the new
/// coordinate and fixes its start on the first position it gets.
pub proof fn lemma_position_moves_touch(p: TouchPass, x: i32, y: i32, now: u64)
    requires
        p.slots.len() == SLOT_COUNT,
        0 <= p.frame_slot < SLOT_COUNT,
    ensures
        ({
            let s = p.slots[p.frame_slot];
            let qx = touch_step(p, RawEvent { event_type: EV_ABS, code: ABS_MT_POSITION_X, value: x }, now);
            let qy = touch_step(p, RawEvent { event_type: EV_ABS, code: ABS_MT_POSITION_Y, value: y }, now);
            &&& qx.slots[p.frame_slot].current_x == x
            &&& qx.slots[p.frame_slot].current_y == s.current_y
            &&& qx.slots[p.frame_slot].start_x == (if s.start_x is Some { s.start_x } else { Some(x) })
            &&& qx.slots[p.frame_slot].start_y == s.start_y
            &&& qy.slots[p.frame_slot].current_y == y
            &&& qy.slots[p.frame_slot].current_x == s.current_x
            &&& qy.slots[p.frame_slot].start_y == (if s.start_y is Some { s.start_y } else { Some(y) })
            &&& qy.slots[p.frame_slot].start_x == s.start_x
            &&& qx.releases == p.releases && qy.releases == p.releases
        }),
{
}

/// Law: the release of a claimed touch ends where the touch last was. It
/// reports the zone the touch was claimed in, its start, its current
/// position as its end, the time since it began, and the number of touches
/// down before the lift.
pub proof fn lemma_release_ends_where_touch_was(p: TouchPass, now: u64)
    requires
        p.slots.len() == SLOT_COUNT,
        0 <= p.frame_slot < SLOT_COUNT,
        p.slots[p.frame_slot].active,
        p.slots[p.frame_slot].claimed,
        p.slots[p.frame_slot].start_x is Some,
        p.slots[p.frame_slot].start_y is Some,
        p.slots[p.frame_slot].assigned_zone is Some,
    ensures
        ({
            let s = p.slots[p.frame_slot];
            let q = touch_step(p, lift_event(), now);
            let r = q.releases.last();
            &&& q.releases.len() == p.releases.len() + 1
            &&& r.zone == s.assigned_zone->0
            &&& r.start_x == s.start_x->0 && r.start_y == s.start_y->0
            &&& r.end_x == s.current_x && r.end_y == s.current_y
            &&& r.finger_count == p.active_fingers
            &&& (s.start_time is Some && s.start_time->0 <= now ==> r.duration_ms == (now - s.start_time->0)
                / 1_000_000)
        }),
{
}

/// Law: a claimed touch that begins at `(x0, y0)`, moves to `x1` and lifts is
/// reported as going from `(x0, y0)` to `(x1, y0)`.
pub proof fn lemma_swipe_is_measured_from_start_to_last_position(
    p: TouchPass,
    x0: i32,
    y0: i32,
    x1: i32,
    now: u64,
)
    requires
        p.slots.len() == SLOT_COUNT,
        0 <= p.frame_slot < SLOT_COUNT,
        ({
            let s = p.slots[p.frame_slot];
            &&& s.active && s.claimed && s.assigned_zone is Some
            &&& s.start_x == Some(x0) && s.start_y == Some(y0)
            &&& s.current_x == x0 && s.current_y == y0
        }),
    ensures
        ({
            let q = touch_step(p, RawEvent { event_type: EV_ABS, code: ABS_MT_POSITION_X, value: x1 }, now);
            let r = touch_step(q, lift_event(), now).releases.last();
            &&& touch_step(q, lift_event(), now).releases.len() == p.releases.len() + 1
            &&& r.start_x == x0 && r.start_y == y0
            &&& r.end_x == x1 && r.end_y == y0
        }),
{
    lemma_position_moves_touch(p, x1, y0, now);
    let q = touch_step(p, RawEvent { event_type: EV_ABS, code: ABS_MT_POSITION_X, value: x1 }, now);
    lemma_release_ends_where_touch_was(q, now);
}

/// Whether the event sets the absolute axis `code`.
pub open spec fn is_abs_of(ev: RawEvent, code: u16) -> bool {
    ev.event_type == EV_ABS && ev.code == code
}

/// Law: the single-touch position that the virtual device gets at the end
/// of a frame is that of the lowest-numbered touch that is down and
/// unclaimed, and nothing else: the frame's batch carries `ABS_X` and
/// `ABS_Y` with that touch's coordinates, and no other `ABS_X` or `ABS_Y`;
/// when no such touch exists, it carries neither.
pub proof fn lemma_position_follows_first_free_touch(v: TrackerView, zones: Seq<Option<Zone>>)
    requires
        v.wf(),
        zones.len() == SLOT_COUNT,
    ensures
        ({
            let slots = finished_slots(v, zones);
            let out = frame_output(v, zones);
            &&& (forall|i: int| 0 <= i < SLOT_COUNT ==> !is_free(#[trigger] slots[i])) ==> forall|k: int|
                0 <= k < out.len() ==> !is_abs_of(#[trigger] out[k], ABS_X) && !is_abs_of(out[k], ABS_Y)
            &&& forall|p: int|
                0 <= p < SLOT_COUNT && is_free(#[trigger] slots[p]) && (forall|j: int|
                    0 <= j < p ==> !is_free(#[trigger] slots[j])) ==> {
                    &&& out.contains(abs_event(ABS_X, slots[p].current_x))
                    &&& out.contains(abs_event(ABS_Y, slots[p].current_y))
                    &&& forall|k: int|
                        0 <= k < out.len() && is_abs_of(#[trigger] out[k], ABS_X) ==> out[k].value
                            == slots[p].current_x
                    &&& forall|k: int|
                        0 <= k < out.len() && is_abs_of(#[trigger] out[k], ABS_Y) ==> out[k].value
                            == slots[p].current_y
                }
        }),
{
    let slots = finished_slots(v, zones);
    assert(slots.len() == SLOT_COUNT);
    lemma_first_free(slots);
    lemma_forwarded_events_come_from_frame(slots, v.current_slot, v.frame);
    let fw = forward_pass(slots, v.current_slot, v.frame).out;
    let count = free_count(slots) as u8;
    let touching = count > 0;
    let touch = if touching != v.prev_btn_touch {
        seq![key_event(BTN_TOUCH, if touching { 1 } else { 0 })]
    } else {
        seq![]
    };
    let tools = if count != v.prev_unclaimed {
        opt_key(tool_key_for(v.prev_unclaimed), 0) + opt_key(tool_key_for(count), 1)
    } else {
        seq![]
    };
    let pos = match first_free(slots) {
        Some(p) => seq![abs_event(ABS_X, slots[p].current_x), abs_event(ABS_Y, slots[p].current_y)],
        None => seq![],
    };
    let keys = touch + tools;
    assert forall|k: int| 0 <= k < keys.len() implies (#[trigger] keys[k]).event_type == EV_KEY by {
        if k >= touch.len() {
            let a = opt_key(tool_key_for(v.prev_unclaimed), 0);
            if count != v.prev_unclaimed {
                assert(tools[k - touch.len()] == (a + opt_key(tool_key_for(count), 1))[k
                    - touch.len()]);
            }
        }
    }
    let body = (fw + keys) + pos;
    assert(synthesized(slots, v.prev_unclaimed, v.prev_btn_touch) == keys + pos);
    assert(fw + synthesized(slots, v.prev_unclaimed, v.prev_btn_touch) =~= body);
    let out = frame_output(v, zones);
    assert forall|k: int| 0 <= k < out.len() && (is_abs_of(#[trigger] out[k], ABS_X) || is_abs_of(
        out[k],
        ABS_Y,
    )) implies k >= fw.len() + keys.len() && k < body.len() && out[k] == pos[k - fw.len()
        - keys.len()] by {
        if k < fw.len() {
            assert(out[k] == fw[k]);
            assert(!is_emulation_event(fw[k]));
        } else if k < fw.len() + keys.len() {
            assert(out[k] == keys[k - fw.len()]);
        } else if k < body.len() {
            assert(out[k] == body[k]);
        } else {
            assert(out[k] == report_event());
        }
    }
    match first_free(slots) {
        Some(p) => {
            let base: int = (fw.len() + keys.len()) as int;
            assert(out[base] == abs_event(ABS_X, slots[p].current_x));
            assert(out[base + 1] == abs_event(ABS_Y, slots[p].current_y));
            assert forall|q: int|
                0 <= q < SLOT_COUNT && is_free(#[trigger] slots[q]) && (forall|j: int|
                    0 <= j < q ==> !is_free(#[trigger] slots[j])) implies q == p by {
                if q < p {
                } else if p < q {
                    assert(!is_free(slots[p]));
                }
            }
        },
        None => {},
    }
}

/// Law: the zone queries of a frame are exactly the slots that await their
/// zone, each once, in slot order, with the touch's start position.
pub proof fn lemma_zone_queries_are_awaiting_slots(slots: Seq<SlotState>, n: int)
    requires
        slots.len() == SLOT_COUNT,
        0 <= n <= slots.len(),
    ensures
        ({
            let q = zone_queries_upto(slots, n);
            &&& forall|k: int|
                0 <= k < q.len() ==> {
                    &&& 0 <= (#[trigger] q[k]).slot < n
                    &&& awaits_zone(slots[q[k].slot as int])
                    &&& slots[q[k].slot as int].start_x == Some(q[k].start_x)
                    &&& slots[q[k].slot as int].start_y == Some(q[k].start_y)
                }
            &&& forall|i: int|
                0 <= i < n && awaits_zone(#[trigger] slots[i]) ==> exists|k: int|
                    0 <= k < q.len() && q[k].slot == i
            &&& forall|k1: int, k2: int| 0 <= k1 < k2 < q.len() ==> q[k1].slot < q[k2].slot
        }),
    decreases n,
{
    if n > 0 {
        lemma_zone_queries_are_awaiting_slots(slots, n - 1);
        let q0 = zone_queries_upto(slots, n - 1);
        let q = zone_queries_upto(slots, n);
        assert forall|k: int| 0 <= k < q0.len() implies q[k] == q0[k] by {}
        assert forall|i: int| 0 <= i < n && awaits_zone(#[trigger] slots[i]) implies exists|k: int|
            0 <= k < q.len() && q[k].slot == i by {
            if i < n - 1 {
                let k = choose|k: int| 0 <= k < q0.len() && q0[k].slot == i;
                assert(q[k] == q0[k]);
            } else {
                assert(q[q0.len() as int].slot == i);
            }
        }
    }
}

/// Law: the zone answers decide the claims at the end of a frame. A slot
/// that awaits its zone is claimed with the zone found for it, if any, and
/// stops awaiting; any other slot is left as it was; no touch is moved.
pub proof fn lemma_zone_answers_decide_claims(v: TrackerView, zones: Seq<Option<Zone>>, i: int)
    requires
        v.wf(),
        zones.len() == SLOT_COUNT,
        0 <= i < SLOT_COUNT,
    ensures
        ({
            let s = v.slots[i];
            let t = after_finish(v, zones).slots[i];
            &&& !awaits_zone(s) ==> t == s
            &&& awaits_zone(s) ==> {
                &&& !t.needs_zone_check
                &&& (zones[i] matches Some(z) ==> t.claimed && t.assigned_zone == Some(z))
                &&& (zones[i] is None ==> t.claimed == s.claimed && t.assigned_zone == s.assigned_zone)
                &&& t.active == s.active && t.tracking_id == s.tracking_id
                &&& t.start_x == s.start_x && t.start_y == s.start_y
                &&& t.current_x == s.current_x && t.current_y == s.current_y
                &&& t.start_time == s.start_time
            }
        }),
{
}

/// Law: a new tracking id begins a touch in the current slot: the slot holds
/// an active, unclaimed touch with that id, begun now and awaiting its zone;
/// the finger count goes up by one (modulo 256); nothing is released and no
/// other slot changes.
pub proof fn lemma_tracking_id_begins_touch(p: TouchPass, id: i32, now: u64)
    requires
        p.slots.len() == SLOT_COUNT,
        0 <= p.frame_slot < SLOT_COUNT,
        id != -1,
    ensures
        ({
            let q = touch_step(p, RawEvent { event_type: EV_ABS, code: ABS_MT_TRACKING_ID, value: id }, now);
            let t = q.slots[p.frame_slot];
            &&& t.active && !t.claimed && t.needs_zone_check
            &&& t.tracking_id == id
            &&& t.start_time == Some(now)
            &&& q.active_fingers as int == (p.active_fingers + 1) % 256
            &&& q.releases == p.releases
            &&& q.frame_slot == p.frame_slot
            &&& forall|j: int| 0 <= j < SLOT_COUNT && j != p.frame_slot ==> #[trigger] q.slots[j] == p.slots[j]
        }),
{
}

} // verus!
