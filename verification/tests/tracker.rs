use bezel::events::RawEvent;
use bezel::gesture::Zone;
use bezel::tracker::{
    count_unclaimed, find_primary_unclaimed, EventOutcome, SlotState, TouchRelease, Tracker,
    ZoneQuery, SLOT_COUNT,
};

const MS: u64 = 1_000_000;

fn abs(code: u16, value: i32) -> RawEvent {
    RawEvent { event_type: 3, code, value }
}
fn key(code: u16, value: i32) -> RawEvent {
    RawEvent { event_type: 1, code, value }
}
fn syn() -> RawEvent {
    RawEvent { event_type: 0, code: 0, value: 0 }
}
fn dropped() -> RawEvent {
    RawEvent { event_type: 0, code: 3, value: 0 }
}

/// Feeds the events of one frame and its SYN_REPORT; returns the releases
/// and the zone queries.
fn frame(t: &mut Tracker, evs: &[RawEvent], now: u64) -> (Vec<TouchRelease>, Vec<ZoneQuery>) {
    for e in evs {
        assert!(matches!(t.handle_event(*e, now), EventOutcome::Buffered));
    }
    match t.handle_event(syn(), now) {
        EventOutcome::FrameReady { releases, zone_queries } => (releases, zone_queries),
        _ => panic!("expected a frame"),
    }
}

fn zones(assign: &[(usize, Zone)]) -> Vec<Option<Zone>> {
    let mut z = vec![None; SLOT_COUNT];
    for (i, zone) in assign {
        z[*i] = Some(*zone);
    }
    z
}

fn touch_down(slot: i32, id: i32, x: i32, y: i32) -> Vec<RawEvent> {
    vec![
        abs(0x2f, slot),
        abs(0x39, id),
        abs(0x35, x),
        abs(0x36, y),
        key(0x14a, 1),
        key(0x145, 1),
        abs(0x00, x),
        abs(0x01, y),
    ]
}

#[test]
fn new_tracker_is_empty() {
    let t = Tracker::new();
    for i in 0..SLOT_COUNT {
        assert_eq!(t.slot(i), SlotState::empty());
    }
    assert_eq!(SlotState::default(), SlotState::empty());
    assert_eq!(t.active_fingers(), 0);
}

#[test]
fn edge_swipe_is_hidden_and_released_as_gesture() {
    let mut t = Tracker::new();
    let (rel, q) = frame(&mut t, &touch_down(0, 7, 10, 500), 1_000 * MS);
    assert!(rel.is_empty());
    assert_eq!(q, vec![ZoneQuery { slot: 0, start_x: 10, start_y: 500 }]);
    let out = t.finish_frame(&zones(&[(0, Zone::Left)]));
    // The claimed touch is hidden entirely and nothing is synthesized.
    assert!(out.is_empty());
    let s = t.slot(0);
    assert!(s.active && s.claimed);
    assert_eq!(s.assigned_zone, Some(Zone::Left));
    assert!(!s.needs_zone_check);
    assert_eq!(t.active_fingers(), 1);

    // The finger moves up; still hidden, no further zone query.
    let (rel, q) = frame(&mut t, &[abs(0x36, 200), abs(0x01, 200)], 1_050 * MS);
    assert!(rel.is_empty() && q.is_empty());
    assert!(t.finish_frame(&zones(&[])).is_empty());

    // The finger lifts 120 ms after it touched.
    let (rel, q) = frame(&mut t, &[abs(0x39, -1), key(0x14a, 0), key(0x145, 0)], 1_120 * MS + 5);
    assert!(q.is_empty());
    assert_eq!(
        rel,
        vec![TouchRelease {
            zone: Zone::Left,
            start_x: 10,
            start_y: 500,
            end_x: 10,
            end_y: 200,
            duration_ms: 120,
            finger_count: 1,
        }]
    );
    let out = t.finish_frame(&zones(&[]));
    // The slot was reset before filtering, so its lift is forwarded.
    assert_eq!(out, vec![abs(0x39, -1), syn()]);
    assert_eq!(t.slot(0), SlotState::empty());
    assert_eq!(t.active_fingers(), 0);
}

#[test]
fn touch_outside_zones_passes_through() {
    let mut t = Tracker::new();
    let (rel, q) = frame(&mut t, &touch_down(0, 3, 400, 400), 0);
    assert!(rel.is_empty());
    assert_eq!(q.len(), 1);
    let out = t.finish_frame(&zones(&[]));
    assert_eq!(
        out,
        vec![
            abs(0x2f, 0),
            abs(0x39, 3),
            abs(0x35, 400),
            abs(0x36, 400),
            key(0x14a, 1),
            key(0x145, 1),
            abs(0x00, 400),
            abs(0x01, 400),
            syn(),
        ]
    );
    assert!(!t.slot(0).claimed);
    assert!(!t.slot(0).needs_zone_check);

    // Movement: the MT event passes, and the position is synthesized again.
    let (_, q) = frame(&mut t, &[abs(0x35, 410), abs(0x00, 410)], 10 * MS);
    assert!(q.is_empty());
    let out = t.finish_frame(&zones(&[]));
    assert_eq!(out, vec![abs(0x35, 410), abs(0x00, 410), abs(0x01, 400), syn()]);

    // Lifting an unclaimed touch gives no gesture.
    let (rel, _) = frame(&mut t, &[abs(0x39, -1)], 20 * MS);
    assert!(rel.is_empty());
    let out = t.finish_frame(&zones(&[]));
    assert_eq!(out, vec![abs(0x39, -1), key(0x14a, 0), key(0x145, 0), syn()]);
}

#[test]
fn claimed_and_free_touches_together() {
    let mut t = Tracker::new();
    let mut evs = touch_down(0, 1, 5, 300);
    evs.extend([abs(0x2f, 1), abs(0x39, 2), abs(0x35, 500), abs(0x36, 300)]);
    let (_, q) = frame(&mut t, &evs, 0);
    assert_eq!(q.len(), 2);
    let out = t.finish_frame(&zones(&[(0, Zone::Left)]));
    // Slot 0's events are dropped; slot 1's come with its slot selection;
    // the single-touch events follow slot 1, the only free touch.
    assert_eq!(
        out,
        vec![
            abs(0x2f, 1),
            abs(0x39, 2),
            abs(0x35, 500),
            abs(0x36, 300),
            key(0x14a, 1),
            key(0x145, 1),
            abs(0x00, 500),
            abs(0x01, 300),
            syn(),
        ]
    );
    assert_eq!(t.active_fingers(), 2);
}

#[test]
fn out_of_range_slot_selects_last_slot() {
    let mut t = Tracker::new();
    let (_, q) = frame(&mut t, &[abs(0x2f, 42), abs(0x39, 9), abs(0x35, 1), abs(0x36, 2)], 0);
    assert_eq!(q, vec![ZoneQuery { slot: 9, start_x: 1, start_y: 2 }]);
    let mut t = Tracker::new();
    let (_, q) = frame(&mut t, &[abs(0x2f, -1), abs(0x39, 9), abs(0x35, 1), abs(0x36, 2)], 0);
    assert_eq!(q, vec![ZoneQuery { slot: 9, start_x: 1, start_y: 2 }]);
}

#[test]
fn dropped_events_release_virtual_touch_once() {
    let mut t = Tracker::new();
    frame(&mut t, &touch_down(0, 3, 400, 400), 0);
    t.finish_frame(&zones(&[]));
    match t.handle_event(dropped(), 5 * MS) {
        EventOutcome::Resynced { output } => {
            assert_eq!(output, vec![key(0x145, 0), key(0x14a, 0), syn()])
        }
        _ => panic!("expected a resync"),
    }
    assert_eq!(t.slot(0), SlotState::empty());
    assert_eq!(t.active_fingers(), 0);
    match t.handle_event(dropped(), 6 * MS) {
        EventOutcome::Resynced { output } => assert!(output.is_empty()),
        _ => panic!("expected a resync"),
    }
}

#[test]
fn dropped_events_discard_the_open_frame() {
    let mut t = Tracker::new();
    for e in touch_down(0, 3, 400, 400) {
        t.handle_event(e, 0);
    }
    match t.handle_event(dropped(), 0) {
        EventOutcome::Resynced { output } => assert!(output.is_empty()),
        _ => panic!("expected a resync"),
    }
    let (rel, q) = frame(&mut t, &[], 0);
    assert!(rel.is_empty() && q.is_empty());
    assert!(t.finish_frame(&zones(&[])).is_empty());
}

#[test]
fn finger_count_changes_swap_tool_keys() {
    let mut t = Tracker::new();
    frame(&mut t, &touch_down(0, 1, 400, 400), 0);
    t.finish_frame(&zones(&[]));
    frame(&mut t, &[abs(0x2f, 1), abs(0x39, 2), abs(0x35, 600), abs(0x36, 600)], MS);
    let out = t.finish_frame(&zones(&[]));
    assert_eq!(
        out,
        vec![
            abs(0x2f, 1),
            abs(0x39, 2),
            abs(0x35, 600),
            abs(0x36, 600),
            key(0x145, 0),
            key(0x14d, 1),
            abs(0x00, 400),
            abs(0x01, 400),
            syn(),
        ]
    );
}

#[test]
fn new_tracking_id_keeps_positions_and_unclaims() {
    let mut t = Tracker::new();
    frame(&mut t, &touch_down(0, 1, 5, 5), 0);
    t.finish_frame(&zones(&[(0, Zone::Top)]));
    assert!(t.slot(0).claimed);
    let (_, q) = frame(&mut t, &[abs(0x39, 2)], 7 * MS);
    let s = t.slot(0);
    assert!(s.active && !s.claimed && s.needs_zone_check);
    assert_eq!(s.tracking_id, 2);
    assert_eq!(s.start_time, Some(7 * MS));
    assert_eq!((s.start_x, s.start_y), (Some(5), Some(5)));
    assert_eq!(q, vec![ZoneQuery { slot: 0, start_x: 5, start_y: 5 }]);
    assert_eq!(t.active_fingers(), 2);
}

#[test]
fn counting_and_primary_slot() {
    let mut slots = [SlotState::empty(); SLOT_COUNT];
    assert_eq!(count_unclaimed(&slots), 0);
    assert_eq!(find_primary_unclaimed(&slots), None);
    slots[3].active = true;
    slots[3].claimed = true;
    slots[5].active = true;
    slots[8].active = true;
    slots[1].claimed = true;
    assert_eq!(count_unclaimed(&slots), 2);
    assert_eq!(find_primary_unclaimed(&slots), Some(5));
}

#[test]
fn finger_count_wraps_modulo_256() {
    let mut t = Tracker::new();
    let evs: Vec<RawEvent> = (0..256).map(|i| abs(0x39, i)).collect();
    frame(&mut t, &evs, 0);
    assert_eq!(t.active_fingers(), 0);
    frame(&mut t, &[abs(0x39, 1000)], 0);
    assert_eq!(t.active_fingers(), 1);
}

#[test]
fn lift_of_inactive_slot_changes_nothing() {
    let mut t = Tracker::new();
    let (rel, q) = frame(&mut t, &[abs(0x2f, 4), abs(0x39, -1)], 0);
    assert!(rel.is_empty() && q.is_empty());
    assert_eq!(t.slot(4), SlotState::empty());
    assert_eq!(t.active_fingers(), 0);
    // The lift is forwarded with its slot selection.
    assert_eq!(t.finish_frame(&zones(&[])), vec![abs(0x2f, 4), abs(0x39, -1), syn()]);
}

#[test]
fn slot_selection_without_following_mt_event_is_dropped() {
    let mut t = Tracker::new();
    frame(&mut t, &touch_down(0, 1, 400, 400), 0);
    t.finish_frame(&zones(&[]));
    // Select slot 3 (empty), then a key event, then reselect slot 0 and move.
    frame(&mut t, &[abs(0x2f, 3), key(0x110, 1), abs(0x2f, 0), abs(0x35, 401)], MS);
    let out = t.finish_frame(&zones(&[]));
    assert_eq!(out, vec![key(0x110, 1), abs(0x2f, 0), abs(0x35, 401), abs(0x00, 401), abs(0x01, 400), syn()]);
}

#[test]
fn zone_is_decided_once() {
    let mut t = Tracker::new();
    frame(&mut t, &touch_down(2, 1, 5, 5), 0);
    t.finish_frame(&zones(&[(2, Zone::Left)]));
    // A later frame moves the touch; the zone answer for slot 2 is ignored.
    let (_, q) = frame(&mut t, &[abs(0x2f, 2), abs(0x35, 900)], MS);
    assert!(q.is_empty());
    t.finish_frame(&zones(&[(2, Zone::Right)]));
    assert_eq!(t.slot(2).assigned_zone, Some(Zone::Left));
    assert!(t.slot(2).claimed);
}

#[test]
fn second_lift_gives_no_second_release() {
    let mut t = Tracker::new();
    frame(&mut t, &touch_down(0, 1, 5, 5), 0);
    t.finish_frame(&zones(&[(0, Zone::Top)]));
    let (rel, _) = frame(&mut t, &[abs(0x39, -1), abs(0x39, -1)], 50 * MS);
    assert_eq!(rel.len(), 1);
    t.finish_frame(&zones(&[]));
    let (rel, _) = frame(&mut t, &[abs(0x39, -1)], 60 * MS);
    assert!(rel.is_empty());
}

#[test]
fn virtual_keys_follow_unclaimed_touches_over_a_session() {
    let mut t = Tracker::new();
    let mut written: Vec<RawEvent> = Vec::new();
    let last_key = |w: &Vec<RawEvent>, code: u16| -> i32 {
        w.iter().rev().find(|e| e.event_type == 1 && e.code == code).map(|e| e.value).unwrap_or(0)
    };
    frame(&mut t, &touch_down(0, 1, 400, 400), 0);
    written.extend(t.finish_frame(&zones(&[])));
    frame(&mut t, &[abs(0x2f, 1), abs(0x39, 2), abs(0x35, 5), abs(0x36, 5)], MS);
    written.extend(t.finish_frame(&zones(&[(1, Zone::Left)])));
    // One unclaimed touch: BTN_TOUCH down, one-finger tool down.
    assert_eq!(last_key(&written, 0x14a), 1);
    assert_eq!(last_key(&written, 0x145), 1);
    assert_eq!(last_key(&written, 0x14d), 0);
    frame(&mut t, &[abs(0x2f, 0), abs(0x39, -1)], 2 * MS);
    written.extend(t.finish_frame(&zones(&[])));
    // Only the claimed touch is left: no key is held.
    assert_eq!(last_key(&written, 0x14a), 0);
    assert_eq!(last_key(&written, 0x145), 0);
    assert_eq!(t.active_fingers(), 1);
}
