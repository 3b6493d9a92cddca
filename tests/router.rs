use touchpad_core::emitter::{Driver, TouchPoint, TouchStatus, ABS_MT_POSITION_X, EV_ABS};
use touchpad_core::latency::RealtimeLatencyTracker;
use touchpad_core::message::{
    Exit, Payload, Pointer, RegisterDevice, TouchPacket, TuneSetting, EVENT_CANCEL, EVENT_DOWN,
    EVENT_MOVE, EVENT_UNSPECIFIED, EVENT_UP,
};
use touchpad_core::registry::{DeviceRegistry, IpAddress};
use touchpad_core::router::{
    close_signals, consume_batch, handle_frame, pointer_to_touch_point, should_stop,
    shutdown_step, touch_events_of, ConnectionState, ShutdownSignal, ShutdownStep, TouchEvent,
    Worker,
};

const PEER: IpAddress = IpAddress::V4(0x0a00_0007);

#[test]
fn pointer_mapping() {
    let p = |event_type| Pointer { id: 3, event_type, abs_x: 10, abs_y: 20 };
    assert_eq!(
        pointer_to_touch_point(&p(EVENT_DOWN)),
        Some(TouchPoint { slot: 3, tracking_id: 3, x: 10, y: 20, status: TouchStatus::Down })
    );
    assert_eq!(pointer_to_touch_point(&p(EVENT_MOVE)).unwrap().status, TouchStatus::Move);
    let up = pointer_to_touch_point(&p(EVENT_UP)).unwrap();
    assert_eq!((up.status, up.tracking_id), (TouchStatus::Up, -1));
    let cancel = pointer_to_touch_point(&p(EVENT_CANCEL)).unwrap();
    assert_eq!((cancel.status, cancel.tracking_id), (TouchStatus::Up, -1));
    assert_eq!(pointer_to_touch_point(&p(EVENT_UNSPECIFIED)), None);
    assert_eq!(pointer_to_touch_point(&p(17)), None);
    let big = Pointer { id: 0, event_type: EVENT_DOWN, abs_x: u32::MAX, abs_y: 0 };
    assert_eq!(pointer_to_touch_point(&big).unwrap().x, -1);
}

#[test]
fn packet_skips_unspecified_pointers() {
    let ps = vec![
        Pointer { id: 0, event_type: EVENT_UNSPECIFIED, abs_x: 1, abs_y: 1 },
        Pointer { id: 1, event_type: EVENT_DOWN, abs_x: 2, abs_y: 2 },
    ];
    let evs = touch_events_of(&ps);
    assert_eq!(evs.len(), 1);
    assert!(matches!(evs[0], TouchEvent::Touch(TouchPoint { slot: 1, .. })));
}

#[test]
fn register_sets_offset_once() {
    let mut conn = ConnectionState::new();
    let mut devices = DeviceRegistry::new();
    let mut tracker = RealtimeLatencyTracker::new(10);
    let reg = |ts| Payload::RegisterDevice(RegisterDevice {
        device_name: b"phone".to_vec(),
        ip: b"10.0.0.7".to_vec(),
        width: 1,
        height: 2,
        send_ts: ts,
    });
    let out = handle_frame(&mut conn, &mut devices, &mut tracker, reg(1100), PEER, 1000, 0);
    assert!(out.touch_events.is_empty() && out.latency.is_none() && !out.close);
    assert!(conn.clock_synced);
    assert!(devices.contains(PEER));
    // a second registration keeps the first offset
    handle_frame(&mut conn, &mut devices, &mut tracker, reg(5000), PEER, 1000, 0);
    assert_eq!(devices.len(), 1);
    // offset +100 ms: ts 1000 received at 1.2 s is 300 ms late
    let packet = Payload::TouchPacket(TouchPacket { seq: 1, ts_ms: 1000, pointers: vec![] });
    let out = handle_frame(&mut conn, &mut devices, &mut tracker, packet, PEER, 0, 1_200_000);
    assert_eq!(out.latency.unwrap().current_latency_us, 300_000);
}

#[test]
fn touch_setting_and_exit_frames() {
    let mut conn = ConnectionState::new();
    let mut devices = DeviceRegistry::new();
    let mut tracker = RealtimeLatencyTracker::new(10);
    let packet = Payload::TouchPacket(TouchPacket {
        seq: 1,
        ts_ms: 0,
        pointers: vec![Pointer { id: 0, event_type: EVENT_DOWN, abs_x: 5, abs_y: 6 }],
    });
    let out = handle_frame(&mut conn, &mut devices, &mut tracker, packet, PEER, 0, 10);
    assert_eq!(out.touch_events.len(), 1);
    assert_eq!(out.latency.unwrap().current_latency_us, 10);
    let tune = TuneSetting { sensitivity_milli: 2000, invert_x: false, invert_y: true };
    let out = handle_frame(&mut conn, &mut devices, &mut tracker, Payload::SettingRequest(tune), PEER, 0, 0);
    assert_eq!(out.touch_events, vec![TouchEvent::Tune(tune)]);
    let out = handle_frame(&mut conn, &mut devices, &mut tracker, Payload::HeartBeat, PEER, 0, 0);
    assert!(out.touch_events.is_empty() && !out.close);
    let out = handle_frame(&mut conn, &mut devices, &mut tracker, Payload::Exit(Exit { ts_ms: 0 }), PEER, 0, 0);
    assert!(out.close);
}

#[test]
fn tune_in_batch_affects_only_later_moves() {
    let mut d = Driver::new(1000, 1000);
    let down = TouchPoint { slot: 0, tracking_id: 0, x: 10, y: 10, status: TouchStatus::Down };
    let mv = |x| TouchPoint { slot: 0, tracking_id: 0, x, y: 10, status: TouchStatus::Move };
    let tune = TuneSetting { sensitivity_milli: 3000, invert_x: false, invert_y: false };
    let events = consume_batch(
        &mut d,
        &[TouchEvent::Touch(down), TouchEvent::Touch(mv(20)), TouchEvent::Tune(tune), TouchEvent::Touch(mv(30))],
    );
    let xs: Vec<i32> = events
        .iter()
        .filter(|e| e.event_type == EV_ABS && e.code == ABS_MT_POSITION_X)
        .map(|e| e.value)
        .collect();
    assert_eq!(xs, vec![10, 20, 50]);
    assert_eq!(d.sensitivity_milli(), 3000);
}

#[test]
fn shutdown_tags() {
    assert!(should_stop(ShutdownSignal::TouchConsumer, Worker::TouchConsumer));
    assert!(!should_stop(ShutdownSignal::TouchConsumer, Worker::LatencyBroadcaster));
    assert!(should_stop(ShutdownSignal::ConnectionClose(4), Worker::Connection(4)));
    assert!(!should_stop(ShutdownSignal::ConnectionClose(4), Worker::Connection(5)));
    assert!(should_stop(ShutdownSignal::ConnectionAcceptor, Worker::Connection(9)));
    let all = close_signals();
    for w in [Worker::ConnectionAcceptor, Worker::TouchConsumer, Worker::LatencyBroadcaster, Worker::Connection(1)] {
        assert!(all.iter().any(|s| should_stop(*s, w)));
    }
}

#[test]
fn mdns_shutdown_retries() {
    assert_eq!(shutdown_step(0, true, false), ShutdownStep::Done);
    assert_eq!(shutdown_step(0, false, true), ShutdownStep::RetryAfterMs(100));
    assert_eq!(shutdown_step(4, false, true), ShutdownStep::RetryAfterMs(100));
    assert_eq!(shutdown_step(5, false, true), ShutdownStep::GiveUp);
    assert_eq!(shutdown_step(0, false, false), ShutdownStep::GiveUp);
}
