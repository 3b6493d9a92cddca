//! Decisions of the touch transport: what each frame of a connection does,
//! how pointers become touch samples, how the consumer feeds the emitter,
//! and which worker a shutdown signal stops.

use vstd::prelude::*;
use crate::emitter::{
    Driver, DriverModel, InputEvent, TouchPoint, TouchStatus, apply_points, batch_events,
};
use crate::latency::{RealtimeLatencyData, RealtimeLatencyTracker, LatencyModel, record_spec};
use crate::message::{
    Payload, PayloadModel, Pointer, TuneSetting, EVENT_CANCEL, EVENT_DOWN, EVENT_MOVE, EVENT_UP,
};
use crate::registry::{Device, DeviceRegistry, IpAddress, upserted};

verus! {

/// Most events that the consumer drains into one batch.
pub const MAX_BATCH: usize = 64;

/// An event for the emitter's consumer.
#[derive(Debug, Clone, Copy, PartialEq, Eq, Structural)]
pub enum TouchEvent {
    Touch(TouchPoint),
    Tune(TuneSetting),
}

/// The 32 bits of `v` read as a signed integer.
pub open spec fn to_signed(v: u32) -> i32 {
    if v <= i32::MAX {
        v as i32
    } else {
        (v - 0x1_0000_0000) as i32
    }
}

fn as_signed(v: u32) -> (r: i32)
    ensures
        r == to_signed(v),
{
    if v <= i32::MAX as u32 {
        v as i32
    } else {
        (v as i64 - 0x1_0000_0000) as i32
    }
}

/// The touch sample of a pointer: Down and Move keep the pointer's id as
/// tracking id, Up and Cancel release the slot; any other event type gives
/// none. The slot is the pointer's id.
pub open spec fn pointer_touch(p: Pointer) -> Option<TouchPoint> {
    let slot = to_signed(p.id);
    let x = to_signed(p.abs_x);
    let y = to_signed(p.abs_y);
    if p.event_type == EVENT_DOWN {
        Some(TouchPoint { slot, tracking_id: slot, x, y, status: TouchStatus::Down })
    } else if p.event_type == EVENT_MOVE {
        Some(TouchPoint { slot, tracking_id: slot, x, y, status: TouchStatus::Move })
    } else if p.event_type == EVENT_UP || p.event_type == EVENT_CANCEL {
        Some(TouchPoint { slot, tracking_id: -1i32, x, y, status: TouchStatus::Up })
    } else {
        None
    }
}

/// The events of a packet's pointers, in order, without the skipped ones.
pub open spec fn packet_events(ps: Seq<Pointer>) -> Seq<TouchEvent>
    decreases ps.len(),
{
    if ps.len() == 0 {
        seq![]
    } else {
        packet_events(ps.drop_last()) + match pointer_touch(ps.last()) {
            Some(t) => seq![TouchEvent::Touch(t)],
            None => seq![],
        }
    }
}

/// Maps one pointer to its touch sample.
pub fn pointer_to_touch_point(p: &Pointer) -> (r: Option<TouchPoint>)
    ensures
        r == pointer_touch(*p),
{
    let slot = as_signed(p.id);
    let x = as_signed(p.abs_x);
    let y = as_signed(p.abs_y);
    if p.event_type == EVENT_DOWN {
        Some(TouchPoint { slot, tracking_id: slot, x, y, status: TouchStatus::Down })
    } else if p.event_type == EVENT_MOVE {
        Some(TouchPoint { slot, tracking_id: slot, x, y, status: TouchStatus::Move })
    } else if p.event_type == EVENT_UP || p.event_type == EVENT_CANCEL {
        Some(TouchPoint { slot, tracking_id: -1, x, y, status: TouchStatus::Up })
    } else {
        None
    }
}

/// The touch events of a packet's pointers.
pub fn touch_events_of(pointers: &Vec<Pointer>) -> (r: Vec<TouchEvent>)
    ensures
        r@ == packet_events(pointers@),
{
    let mut out: Vec<TouchEvent> = Vec::new();
    let mut i: usize = 0;
    assert(pointers@.subrange(0, 0) =~= Seq::<Pointer>::empty());
    while i < pointers.len()
        invariant
            i <= pointers@.len(),
            out@ == packet_events(pointers@.subrange(0, i as int)),
        decreases pointers@.len() - i,
    {
        let ghost prefix = pointers@.subrange(0, i as int);
        let ghost before = out@;
        match pointer_to_touch_point(&pointers[i]) {
            Some(t) => out.push(TouchEvent::Touch(t)),
            None => {},
        }
        i = i + 1;
        proof {
            let next = pointers@.subrange(0, i as int);
            assert(next.drop_last() =~= prefix);
            assert(out@ =~= packet_events(next));
        }
    }
    assert(pointers@.subrange(0, i as int) =~= pointers@);
    out
}

/// What one connection remembers between frames.
#[derive(Debug, Clone, Copy, PartialEq, Eq, Structural)]
pub struct ConnectionState {
    /// Whether the clock offset was already set by this connection.
    pub clock_synced: bool,
}

impl ConnectionState {
    pub fn new() -> (r: ConnectionState)
        ensures
            !r.clock_synced,
    {
        ConnectionState { clock_synced: false }
    }
}

/// What a frame asks of the connection's worker.
pub struct FrameOutcome {
    /// Events for the emitter's consumer, in order.
    pub touch_events: Vec<TouchEvent>,
    /// A latency sample for the broadcaster.
    pub latency: Option<RealtimeLatencyData>,
    /// Whether the connection is to be closed.
    pub close: bool,
}

pub open spec fn clamp_i64(v: int) -> i64 {
    if v > i64::MAX {
        i64::MAX
    } else if v < i64::MIN {
        i64::MIN
    } else {
        v as i64
    }
}

/// The rules for one frame `m` from `peer`, received at `now_ms` (and
/// `now_us`) on the server's clock.
pub open spec fn frame_rules(
    m: PayloadModel,
    peer: IpAddress,
    now_ms: u64,
    now_us: u64,
    conn: ConnectionState,
    conn2: ConnectionState,
    devices: Seq<Device>,
    devices2: Seq<Device>,
    tracker: LatencyModel,
    tracker2: LatencyModel,
    o: FrameOutcome,
) -> bool {
    match m {
        PayloadModel::RegisterDevice { device_name, width, height, send_ts, .. } => {
            &&& upserted(devices, devices2, device_name, peer, width, height)
            &&& conn2.clock_synced
            &&& if conn.clock_synced {
                tracker2 == tracker
            } else {
                tracker2 == LatencyModel {
                    clock_offset_ms: clamp_i64(send_ts - now_ms),
                    ..tracker
                }
            }
            &&& o.touch_events@ == Seq::<TouchEvent>::empty()
            &&& o.latency is None
            &&& !o.close
        },
        PayloadModel::TouchPacket { seq, client_ts_ms, pointers } => {
            &&& (tracker2, o.latency) == record_spec(tracker, seq, client_ts_ms, now_us)
            &&& o.touch_events@ == packet_events(pointers)
            &&& !o.close
            &&& devices2 == devices
            &&& conn2 == conn
        },
        PayloadModel::SettingRequest { value } => {
            &&& o.touch_events@ == seq![TouchEvent::Tune(value)]
            &&& o.latency is None
            &&& !o.close
            &&& devices2 == devices
            &&& tracker2 == tracker
            &&& conn2 == conn
        },
        PayloadModel::Exit { .. } => {
            &&& o.touch_events@ == Seq::<TouchEvent>::empty()
            &&& o.latency is None
            &&& o.close
            &&& devices2 == devices
            &&& tracker2 == tracker
            &&& conn2 == conn
        },
        _ => {
            &&& o.touch_events@ == Seq::<TouchEvent>::empty()
            &&& o.latency is None
            &&& !o.close
            &&& devices2 == devices
            &&& tracker2 == tracker
            &&& conn2 == conn
        },
    }
}

/// Handles one frame of a connection from `peer`, received at `now_ms`
/// (and `now_us`) on the server's clock.
pub fn handle_frame(
    conn: &mut ConnectionState,
    devices: &mut DeviceRegistry,
    tracker: &mut RealtimeLatencyTracker,
    msg: Payload,
    peer: IpAddress,
    now_ms: u64,
    now_us: u64,
) -> (r: FrameOutcome)
    requires
        old(devices).wf(),
        old(tracker).wf(),
    ensures
        final(devices).wf(),
        final(tracker).wf(),
        frame_rules(
            msg@,
            peer,
            now_ms,
            now_us,
            *old(conn),
            *final(conn),
            old(devices)@,
            final(devices)@,
            old(tracker)@,
            final(tracker)@,
            r,
        ),
{
    match msg {
        Payload::RegisterDevice(d) => {
            devices.upsert(Device { name: d.device_name, ip: peer, width: d.width, height: d.height });
            if !conn.clock_synced {
                let offset: i128 = d.send_ts as i128 - now_ms as i128;
                let offset_ms: i64 = if offset > i64::MAX as i128 {
                    i64::MAX
                } else if offset < i64::MIN as i128 {
                    i64::MIN
                } else {
                    offset as i64
                };
                tracker.set_clock_offset(offset_ms);
                conn.clock_synced = true;
            }
            FrameOutcome { touch_events: Vec::new(), latency: None, close: false }
        },
        Payload::TouchPacket(t) => {
            let latency = tracker.record_packet(t.seq, t.ts_ms, now_us);
            let events = touch_events_of(&t.pointers);
            FrameOutcome { touch_events: events, latency, close: false }
        },
        Payload::SettingRequest(s) => {
            let events = vec![TouchEvent::Tune(s)];
            assert(events@ =~= seq![TouchEvent::Tune(s)]);
            FrameOutcome { touch_events: events, latency: None, close: false }
        },
        Payload::Exit(_) => FrameOutcome { touch_events: Vec::new(), latency: None, close: true },
        _ => FrameOutcome { touch_events: Vec::new(), latency: None, close: false },
    }
}

/// The emitter's state after a tune setting.
pub open spec fn tuned(m: DriverModel, t: TuneSetting) -> DriverModel {
    DriverModel {
        sensitivity_milli: t.sensitivity_milli,
        invert_x: t.invert_x,
        invert_y: t.invert_y,
        ..m
    }
}

/// The consumer's state after the events `evs`: the emitter's state, the
/// touch samples not yet emitted, and the device events emitted so far.
/// Samples are held until a tune setting or the end of the batch; a tune
/// setting first emits the samples before it, so that it affects only the
/// samples after it.
pub open spec fn consume_state(m: DriverModel, evs: Seq<TouchEvent>) -> (
    DriverModel,
    Seq<TouchPoint>,
    Seq<InputEvent>,
)
    decreases evs.len(),
{
    if evs.len() == 0 {
        (m, seq![], seq![])
    } else {
        let (m1, run, out) = consume_state(m, evs.drop_last());
        match evs.last() {
            TouchEvent::Touch(p) => (m1, run.push(p), out),
            TouchEvent::Tune(t) => (
                tuned(apply_points(m1, run).0, t),
                seq![],
                out + batch_events(m1, run),
            ),
        }
    }
}

/// The emitter's state and the device events after a drained batch `evs`.
pub open spec fn consume_spec(m: DriverModel, evs: Seq<TouchEvent>) -> (DriverModel, Seq<InputEvent>) {
    let (m1, run, out) = consume_state(m, evs);
    (apply_points(m1, run).0, out + batch_events(m1, run))
}

fn apply_tune(driver: &mut Driver, t: &TuneSetting)
    ensures
        final(driver)@ == tuned(old(driver)@, *t),
        final(driver).wf() == old(driver).wf(),
{
    driver.set_sensitivity(t.sensitivity_milli);
    driver.set_invert_x(t.invert_x);
    driver.set_invert_y(t.invert_y);
}

/// Feeds a drained batch of events to the emitter and returns the device
/// events to write.
pub fn consume_batch(driver: &mut Driver, events: &[TouchEvent]) -> (r: Vec<InputEvent>)
    requires
        old(driver).wf(),
    ensures
        final(driver).wf(),
        (final(driver)@, r@) == consume_spec(old(driver)@, events@),
{
    let ghost m0 = driver@;
    let mut run: Vec<TouchPoint> = Vec::new();
    let mut out: Vec<InputEvent> = Vec::new();
    let mut i: usize = 0;
    assert(events@.subrange(0, 0) =~= Seq::<TouchEvent>::empty());
    while i < events.len()
        invariant
            driver.wf(),
            i <= events@.len(),
            (driver@, run@, out@) == consume_state(m0, events@.subrange(0, i as int)),
        decreases events@.len() - i,
    {
        let ghost prefix = events@.subrange(0, i as int);
        match events[i] {
            TouchEvent::Touch(p) => {
                run.push(p);
            },
            TouchEvent::Tune(t) => {
                let mut emitted = driver.emit_multitouch(run.as_slice());
                out.append(&mut emitted);
                run = Vec::new();
                apply_tune(driver, &t);
            },
        }
        i = i + 1;
        proof {
            let next = events@.subrange(0, i as int);
            assert(next.drop_last() =~= prefix);
            assert(run@ =~= consume_state(m0, next).1);
        }
    }
    assert(events@.subrange(0, i as int) =~= events@);
    let mut emitted = driver.emit_multitouch(run.as_slice());
    out.append(&mut emitted);
    out
}

/// The long-lived workers of the touch server.
#[derive(Debug, Clone, Copy, PartialEq, Eq, Structural)]
pub enum Worker {
    ConnectionAcceptor,
    TouchConsumer,
    LatencyBroadcaster,
    /// The worker of the connection with this id.
    Connection(u64),
}

/// A shutdown signal: the worker class it stops.
#[derive(Debug, Clone, Copy, PartialEq, Eq, Structural)]
pub enum ShutdownSignal {
    ConnectionAcceptor,
    TouchConsumer,
    LatencyBroadcaster,
    /// Closes the connection with this id.
    ConnectionClose(u64),
}

/// Whether `signal` stops `worker`: each worker stops on its own tag; the
/// acceptor's stop also ends every connection, since the acceptor closes
/// them all before it exits.
pub open spec fn stops(signal: ShutdownSignal, worker: Worker) -> bool {
    match (signal, worker) {
        (ShutdownSignal::ConnectionAcceptor, Worker::ConnectionAcceptor) => true,
        (ShutdownSignal::ConnectionAcceptor, Worker::Connection(_)) => true,
        (ShutdownSignal::TouchConsumer, Worker::TouchConsumer) => true,
        (ShutdownSignal::LatencyBroadcaster, Worker::LatencyBroadcaster) => true,
        (ShutdownSignal::ConnectionClose(a), Worker::Connection(b)) => a == b,
        _ => false,
    }
}

/// Whether `worker` is to stop on `signal`.
pub fn should_stop(signal: ShutdownSignal, worker: Worker) -> (r: bool)
    ensures
        r == stops(signal, worker),
{
    match (signal, worker) {
        (ShutdownSignal::ConnectionAcceptor, Worker::ConnectionAcceptor) => true,
        (ShutdownSignal::ConnectionAcceptor, Worker::Connection(_)) => true,
        (ShutdownSignal::TouchConsumer, Worker::TouchConsumer) => true,
        (ShutdownSignal::LatencyBroadcaster, Worker::LatencyBroadcaster) => true,
        (ShutdownSignal::ConnectionClose(a), Worker::Connection(b)) => a == b,
        _ => false,
    }
}

/// The signals that stop every worker on close: the acceptor (and with it
/// every connection), the consumer and the broadcaster.
pub fn close_signals() -> (r: Vec<ShutdownSignal>)
    ensures
        r@ == seq![
            ShutdownSignal::ConnectionAcceptor,
            ShutdownSignal::TouchConsumer,
            ShutdownSignal::LatencyBroadcaster,
        ],
        forall|w: Worker| #[trigger] stops(r@[0], w) || stops(r@[1], w) || stops(r@[2], w),
{
    let r = vec![
        ShutdownSignal::ConnectionAcceptor,
        ShutdownSignal::TouchConsumer,
        ShutdownSignal::LatencyBroadcaster,
    ];
    r
}

/// How many times a busy mDNS daemon is asked again to shut down.
pub const SHUTDOWN_RETRIES: u32 = 5;

/// Pause before asking a busy daemon again, in milliseconds.
pub const SHUTDOWN_RETRY_DELAY_MS: u64 = 100;

/// What to do after asking the mDNS daemon to shut down.
#[derive(Debug, Clone, Copy, PartialEq, Eq, Structural)]
pub enum ShutdownStep {
    /// The daemon stopped.
    Done,
    /// The daemon was busy: wait this many milliseconds and ask again.
    RetryAfterMs(u64),
    /// The daemon failed, or stayed busy too long.
    GiveUp,
}

/// The decision after the shutdown request numbered `retries` (from zero)
/// answered `ok`, or failed as busy (`busy`) or otherwise.
pub fn shutdown_step(retries: u32, ok: bool, busy: bool) -> (r: ShutdownStep)
    ensures
        ok ==> r == ShutdownStep::Done,
        !ok && busy && retries < SHUTDOWN_RETRIES ==> r == ShutdownStep::RetryAfterMs(
            SHUTDOWN_RETRY_DELAY_MS,
        ),
        !ok && !(busy && retries < SHUTDOWN_RETRIES) ==> r == ShutdownStep::GiveUp,
{
    if ok {
        ShutdownStep::Done
    } else if busy && retries < SHUTDOWN_RETRIES {
        ShutdownStep::RetryAfterMs(SHUTDOWN_RETRY_DELAY_MS)
    } else {
        ShutdownStep::GiveUp
    }
}

} // verus!
