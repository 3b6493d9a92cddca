use touchpad_core::emitter::{
    Driver, InputEvent, TouchPoint, TouchStatus, ABS_MT_POSITION_X, ABS_MT_SLOT,
    ABS_MT_TRACKING_ID, BTN_TOOL_DOUBLETAP, BTN_TOOL_FINGER, BTN_TOOL_QUINTTAP, BTN_TOUCH,
    EV_ABS, EV_KEY, EV_SYN,
};

fn pt(slot: i32, id: i32, x: i32, y: i32, status: TouchStatus) -> TouchPoint {
    TouchPoint { slot, tracking_id: id, x, y, status }
}

fn key_events(events: &[InputEvent]) -> Vec<(u16, i32)> {
    events.iter().filter(|e| e.event_type == EV_KEY).map(|e| (e.code, e.value)).collect()
}

fn values_of(events: &[InputEvent], code: u16) -> Vec<i32> {
    events.iter().filter(|e| e.event_type == EV_ABS && e.code == code).map(|e| e.value).collect()
}

#[test]
fn single_finger_drag_with_sensitivity_two() {
    let mut d = Driver::new(1920, 1080);
    d.set_sensitivity(2000);
    let events = d.emit_multitouch(&[
        pt(0, 0, 10, 10, TouchStatus::Down),
        pt(0, 0, 20, 10, TouchStatus::Move),
        pt(0, 0, 30, 10, TouchStatus::Move),
    ]);
    assert_eq!(values_of(&events, ABS_MT_POSITION_X), vec![10, 30, 50]);
    assert_eq!(d.last_output(0), Some((50, 10)));
    assert_eq!(key_events(&events), vec![(BTN_TOUCH, 1), (BTN_TOOL_FINGER, 1)]);
    assert_eq!(events.last().unwrap().event_type, EV_SYN);
    // one finger: the slot is not named again on a move
    assert_eq!(values_of(&events, ABS_MT_SLOT), vec![0]);
}

#[test]
fn two_finger_tap_in_one_batch() {
    let mut d = Driver::new(1920, 1080);
    let events = d.emit_multitouch(&[
        pt(0, 0, 100, 100, TouchStatus::Down),
        pt(1, 1, 200, 200, TouchStatus::Down),
        pt(0, -1, 0, 0, TouchStatus::Up),
        pt(1, -1, 0, 0, TouchStatus::Up),
    ]);
    assert!(key_events(&events).is_empty());
    assert_eq!(values_of(&events, ABS_MT_TRACKING_ID), vec![0, 1, -1, -1]);
    assert_eq!(d.touched_count(), 0);
}

#[test]
fn up_writes_release_id_whatever_the_input() {
    let mut d = Driver::new(100, 100);
    d.emit_multitouch(&[pt(3, 9, 1, 1, TouchStatus::Down)]);
    let events = d.emit_point_up(&pt(3, 9, 1, 1, TouchStatus::Up));
    assert_eq!(events.len(), 2);
    assert_eq!(events[0].code, ABS_MT_SLOT);
    assert_eq!(events[0].value, 3);
    assert_eq!(events[1].code, ABS_MT_TRACKING_ID);
    assert_eq!(events[1].value, -1);
    assert!(!d.is_touched(3));
    assert_eq!(d.last_output(3), None);
}

#[test]
fn slot_bookkeeping_follows_down_and_up() {
    let mut d = Driver::new(100, 100);
    d.emit_multitouch(&[pt(2, 2, 5, 6, TouchStatus::Down), pt(4, 4, 7, 8, TouchStatus::Down)]);
    assert!(d.is_touched(2) && d.is_touched(4));
    assert_eq!(d.last_output(2), Some((5, 6)));
    d.emit_multitouch(&[pt(2, -1, 0, 0, TouchStatus::Up)]);
    assert!(!d.is_touched(2));
    assert_eq!(d.last_output(2), None);
    assert_eq!(d.last_output(4), Some((7, 8)));
    assert_eq!(d.touched_count(), 1);
}

#[test]
fn move_on_untouched_slot_is_ignored() {
    let mut d = Driver::new(100, 100);
    let events = d.emit_multitouch(&[pt(5, 5, 10, 10, TouchStatus::Move)]);
    assert!(events.is_empty());
    assert!(!d.is_touched(5));
    assert_eq!(d.last_output(5), None);
}

#[test]
fn inversion_negates_x_delta_from_next_move() {
    let mut d = Driver::new(1000, 1000);
    d.emit_multitouch(&[pt(0, 0, 100, 100, TouchStatus::Down)]);
    d.emit_multitouch(&[pt(0, 0, 110, 105, TouchStatus::Move)]);
    assert_eq!(d.last_output(0), Some((110, 105)));
    d.set_invert_x(true);
    // setting does not move the slot
    assert_eq!(d.last_output(0), Some((110, 105)));
    d.emit_multitouch(&[pt(0, 0, 120, 110, TouchStatus::Move)]);
    assert_eq!(d.last_output(0), Some((100, 110)));
}

#[test]
fn inversion_of_y() {
    let mut d = Driver::new(1000, 1000);
    d.set_invert_y(true);
    d.emit_multitouch(&[pt(0, 0, 50, 50, TouchStatus::Down), pt(0, 0, 53, 58, TouchStatus::Move)]);
    assert_eq!(d.last_output(0), Some((53, 42)));
}

#[test]
fn fractional_sensitivity_rounds_half_away_from_zero() {
    let mut d = Driver::new(1000, 1000);
    d.set_sensitivity(1500);
    d.emit_multitouch(&[pt(0, 0, 10, 10, TouchStatus::Down), pt(0, 0, 11, 9, TouchStatus::Move)]);
    // 10 + 1.5 = 11.5 -> 12; 10 - 1.5 = 8.5 -> 9
    assert_eq!(d.last_output(0), Some((12, 9)));
}

#[test]
fn sensitivity_law_error_stays_within_a_half_per_move() {
    let mut d = Driver::new(1000, 1000);
    d.set_sensitivity(1300);
    let mut points = vec![pt(0, 0, 0, 0, TouchStatus::Down)];
    for x in 1..=10 {
        points.push(pt(0, 0, x, 2 * x, TouchStatus::Move));
    }
    d.emit_multitouch(&points);
    let (ox, oy) = d.last_output(0).unwrap();
    // ideal 13.0 and 26.0
    assert!((ox * 1000 - 13_000).abs() <= 500 * 10);
    assert!((oy * 1000 - 26_000).abs() <= 500 * 10);
}

#[test]
fn multi_touch_move_names_slot_and_id() {
    let mut d = Driver::new(1000, 1000);
    d.emit_multitouch(&[pt(0, 0, 1, 1, TouchStatus::Down), pt(1, 1, 2, 2, TouchStatus::Down)]);
    let events = d.emit_point_move(&pt(1, 1, 4, 4, TouchStatus::Move));
    assert_eq!(events.len(), 6);
    assert_eq!(events[0].code, ABS_MT_SLOT);
    assert_eq!(events[0].value, 1);
    assert_eq!(events[1].code, ABS_MT_TRACKING_ID);
}

#[test]
fn tool_count_transitions() {
    let d = Driver::new(10, 10);
    assert!(d.get_slot_changed_events(2, 2).is_empty());
    assert_eq!(key_events(&d.get_slot_changed_events(0, 1)), vec![(BTN_TOUCH, 1), (BTN_TOOL_FINGER, 1)]);
    assert_eq!(key_events(&d.get_slot_changed_events(1, 0)), vec![(BTN_TOOL_FINGER, 0), (BTN_TOUCH, 0)]);
    assert_eq!(
        key_events(&d.get_slot_changed_events(1, 2)),
        vec![(BTN_TOOL_FINGER, 0), (BTN_TOOL_DOUBLETAP, 1)]
    );
    assert_eq!(key_events(&d.get_slot_changed_events(5, 6)), vec![(BTN_TOOL_QUINTTAP, 0)]);
    assert!(d.get_slot_changed_events(6, 7).is_empty());
}

#[test]
fn empty_batch_emits_nothing() {
    let mut d = Driver::new(10, 10);
    assert!(d.emit_multitouch(&[]).is_empty());
}

#[test]
fn settings_and_size() {
    let mut d = Driver::new(10, 20);
    assert_eq!(d.size(), (10, 20));
    d.set_size(30, 40);
    assert_eq!(d.size(), (30, 40));
    assert_eq!(d.sensitivity_milli(), 1000);
    d.set_sensitivity(750);
    assert_eq!(d.sensitivity_milli(), 750);
}
