//! The touch emission engine: turns remote touch samples into the event
//! sequence of a multitouch input device, keeping per-slot positions and
//! applying sensitivity and inversion to relative motion.

use vstd::prelude::*;
use std::collections::HashMap;
use std::collections::HashSet;

verus! {

broadcast use vstd::std_specs::hash::group_hash_axioms;

/// Event types of the Linux input subsystem.
pub const EV_SYN: u16 = 0x00;
pub const EV_KEY: u16 = 0x01;
pub const EV_ABS: u16 = 0x03;

/// Synchronization code that closes a batch.
pub const SYN_REPORT: u16 = 0x00;

/// Absolute axes.
pub const ABS_X: u16 = 0x00;
pub const ABS_Y: u16 = 0x01;
pub const ABS_MT_SLOT: u16 = 0x2f;
pub const ABS_MT_POSITION_X: u16 = 0x35;
pub const ABS_MT_POSITION_Y: u16 = 0x36;
pub const ABS_MT_TRACKING_ID: u16 = 0x39;

/// Touch and tool-count keys.
pub const BTN_TOOL_FINGER: u16 = 0x145;
pub const BTN_TOOL_QUINTTAP: u16 = 0x148;
pub const BTN_TOUCH: u16 = 0x14a;
pub const BTN_TOOL_DOUBLETAP: u16 = 0x14d;
pub const BTN_TOOL_TRIPLETAP: u16 = 0x14e;
pub const BTN_TOOL_QUADTAP: u16 = 0x14f;

/// Sensitivity of 1.0, in thousandths.
pub const UNIT_SENSITIVITY: u32 = 1000;

/// Tracking id written when a slot is released.
pub const RELEASED_TRACKING_ID: i32 = -1;

#[derive(Debug, Clone, Copy, PartialEq, Eq, Structural)]
pub enum TouchStatus {
    Down,
    Up,
    Move,
}

/// One remote touch sample.
#[derive(Debug, Clone, Copy, PartialEq, Eq, Structural)]
pub struct TouchPoint {
    pub slot: i32,
    /// `-1` releases the slot.
    pub tracking_id: i32,
    pub x: i32,
    pub y: i32,
    pub status: TouchStatus,
}

/// One event for the input device.
#[derive(Debug, Clone, Copy, PartialEq, Eq, Structural)]
pub struct InputEvent {
    pub event_type: u16,
    pub code: u16,
    pub value: i32,
}

/// The state of the emitter.
pub struct DriverModel {
    pub width: u32,
    pub height: u32,
    pub touched: Set<i32>,
    pub last_input: Map<i32, (i32, i32)>,
    pub last_output: Map<i32, (i32, i32)>,
    pub sensitivity_milli: u32,
    pub invert_x: bool,
    pub invert_y: bool,
}

/// Emitter of multitouch events for a virtual touchpad.
///
/// Not safe for concurrent use: one consumer owns it.
pub struct Driver {
    width: u32,
    height: u32,
    touched_slots: HashSet<i32>,
    /// Last raw position of each touched slot, from which deltas are taken.
    last_input_position: HashMap<i32, (i32, i32)>,
    /// Last emitted position of each touched slot, after scaling.
    last_output_position: HashMap<i32, (i32, i32)>,
    sensitivity_milli: u32,
    invert_x: bool,
    invert_y: bool,
}

impl View for Driver {
    type V = DriverModel;

    closed spec fn view(&self) -> DriverModel {
        DriverModel {
            width: self.width,
            height: self.height,
            touched: self.touched_slots@,
            last_input: self.last_input_position@,
            last_output: self.last_output_position@,
            sensitivity_milli: self.sensitivity_milli,
            invert_x: self.invert_x,
            invert_y: self.invert_y,
        }
    }
}

/// A slot is touched exactly when it has a last input and a last output
/// position.
pub open spec fn slots_consistent(m: DriverModel) -> bool {
    &&& m.touched.finite()
    &&& m.last_input.dom() == m.touched
    &&& m.last_output.dom() == m.touched
}

pub open spec fn abs_event(code: u16, value: i32) -> InputEvent {
    InputEvent { event_type: EV_ABS, code, value }
}

pub open spec fn key_event(code: u16, value: i32) -> InputEvent {
    InputEvent { event_type: EV_KEY, code, value }
}

pub open spec fn syn_report() -> InputEvent {
    InputEvent { event_type: EV_SYN, code: SYN_REPORT, value: 1 }
}

/// `n / 1000` rounded to the nearest integer, halves away from zero.
pub open spec fn round_milli(n: int) -> int {
    if n >= 0 {
        (n + 500) / 1000
    } else {
        -((-n + 500) / 1000)
    }
}

pub open spec fn clamp_i32(v: int) -> i32 {
    if v > i32::MAX {
        i32::MAX
    } else if v < i32::MIN {
        i32::MIN
    } else {
        v as i32
    }
}

/// The new output coordinate of one axis: the last output plus the input
/// delta scaled by the sensitivity (in thousandths) and negated when the axis
/// is inverted, rounded, and held to the range of the device's values.
pub open spec fn scale_axis(last_output: int, delta: int, sensitivity_milli: nat, invert: bool) -> i32 {
    let d = if invert {
        -delta
    } else {
        delta
    };
    clamp_i32(round_milli(last_output * 1000 + d * sensitivity_milli))
}

pub open spec fn down_events(p: TouchPoint) -> Seq<InputEvent> {
    seq![
        abs_event(ABS_MT_SLOT, p.slot),
        abs_event(ABS_MT_TRACKING_ID, p.tracking_id),
        abs_event(ABS_MT_POSITION_X, p.x),
        abs_event(ABS_MT_POSITION_Y, p.y),
        abs_event(ABS_X, p.x),
        abs_event(ABS_Y, p.y),
    ]
}

pub open spec fn up_events(slot: i32) -> Seq<InputEvent> {
    seq![abs_event(ABS_MT_SLOT, slot), abs_event(ABS_MT_TRACKING_ID, RELEASED_TRACKING_ID)]
}

pub open spec fn move_events(slot: i32, tracking_id: i32, x: i32, y: i32, multi: bool) -> Seq<
    InputEvent,
> {
    let head = if multi {
        seq![abs_event(ABS_MT_SLOT, slot), abs_event(ABS_MT_TRACKING_ID, tracking_id)]
    } else {
        seq![]
    };
    head + seq![
        abs_event(ABS_MT_POSITION_X, x),
        abs_event(ABS_MT_POSITION_Y, y),
        abs_event(ABS_X, x),
        abs_event(ABS_Y, y),
    ]
}

/// A Down: the slot becomes touched and both of its positions start at the
/// sample.
pub open spec fn down_step(m: DriverModel, p: TouchPoint) -> (DriverModel, Seq<InputEvent>) {
    (
        DriverModel {
            touched: m.touched.insert(p.slot),
            last_input: m.last_input.insert(p.slot, (p.x, p.y)),
            last_output: m.last_output.insert(p.slot, (p.x, p.y)),
            ..m
        },
        down_events(p),
    )
}

/// An Up: the slot and its positions are forgotten and the slot released.
pub open spec fn up_step(m: DriverModel, p: TouchPoint) -> (DriverModel, Seq<InputEvent>) {
    (
        DriverModel {
            touched: m.touched.remove(p.slot),
            last_input: m.last_input.remove(p.slot),
            last_output: m.last_output.remove(p.slot),
            ..m
        },
        up_events(p.slot),
    )
}

/// The output position that a Move on a touched slot leads to.
pub open spec fn moved_output(m: DriverModel, p: TouchPoint) -> (i32, i32) {
    let (ix, iy) = m.last_input[p.slot];
    let (ox, oy) = m.last_output[p.slot];
    (
        scale_axis(ox as int, p.x - ix, m.sensitivity_milli as nat, m.invert_x),
        scale_axis(oy as int, p.y - iy, m.sensitivity_milli as nat, m.invert_y),
    )
}

/// A Move: on a touched slot, the output advances by the scaled delta of the
/// input; the slot and its tracking id are named only while more than one
/// slot is touched. A Move on a slot that is not touched is ignored.
pub open spec fn move_step(m: DriverModel, p: TouchPoint) -> (DriverModel, Seq<InputEvent>) {
    if m.touched.contains(p.slot) {
        let (ox, oy) = moved_output(m, p);
        (
            DriverModel {
                last_input: m.last_input.insert(p.slot, (p.x, p.y)),
                last_output: m.last_output.insert(p.slot, (ox, oy)),
                ..m
            },
            move_events(p.slot, p.tracking_id, ox, oy, m.touched.len() > 1),
        )
    } else {
        (m, seq![])
    }
}

pub open spec fn step(m: DriverModel, p: TouchPoint) -> (DriverModel, Seq<InputEvent>) {
    match p.status {
        TouchStatus::Down => down_step(m, p),
        TouchStatus::Up => up_step(m, p),
        TouchStatus::Move => move_step(m, p),
    }
}

/// The state after the samples `ps`, in order, and the events that they
/// produce.
pub open spec fn apply_points(m: DriverModel, ps: Seq<TouchPoint>) -> (DriverModel, Seq<InputEvent>)
    decreases ps.len(),
{
    if ps.len() == 0 {
        (m, seq![])
    } else {
        let (m1, e1) = apply_points(m, ps.drop_last());
        let (m2, e2) = step(m1, ps.last());
        (m2, e1 + e2)
    }
}

/// The key of a tool count from one to five.
pub open spec fn tool_key(count: nat) -> u16 {
    if count == 1 {
        BTN_TOOL_FINGER
    } else if count == 2 {
        BTN_TOOL_DOUBLETAP
    } else if count == 3 {
        BTN_TOOL_TRIPLETAP
    } else if count == 4 {
        BTN_TOOL_QUADTAP
    } else {
        BTN_TOOL_QUINTTAP
    }
}

/// Leaving a count: the touch key rises when leaving zero; a tool key falls.
pub open spec fn leave_events(count: nat) -> Seq<InputEvent> {
    if count == 0 {
        seq![key_event(BTN_TOUCH, 1)]
    } else if count <= 5 {
        seq![key_event(tool_key(count), 0)]
    } else {
        seq![]
    }
}

/// Entering a count: the touch key falls when entering zero; a tool key rises.
pub open spec fn enter_events(count: nat) -> Seq<InputEvent> {
    if count == 0 {
        seq![key_event(BTN_TOUCH, 0)]
    } else if count <= 5 {
        seq![key_event(tool_key(count), 1)]
    } else {
        seq![]
    }
}

/// The key events for a move of the touched count from `before` to `after`.
pub open spec fn tool_count_events(before: nat, after: nat) -> Seq<InputEvent> {
    if before == after {
        seq![]
    } else {
        leave_events(before) + enter_events(after)
    }
}

/// Everything that a batch emits: the events of each sample, the tool-count
/// transition from the count before the batch to the count after it, and one
/// report closing the batch; nothing at all when there was nothing to report.
pub open spec fn batch_events(m: DriverModel, ps: Seq<TouchPoint>) -> Seq<InputEvent> {
    let (m2, e) = apply_points(m, ps);
    let all = e + tool_count_events(m.touched.len(), m2.touched.len());
    if all.len() == 0 {
        seq![]
    } else {
        all + seq![syn_report()]
    }
}

fn abs(code: u16, value: i32) -> (r: InputEvent)
    ensures
        r == abs_event(code, value),
{
    InputEvent { event_type: EV_ABS, code, value }
}

fn key(code: u16, value: i32) -> (r: InputEvent)
    ensures
        r == key_event(code, value),
{
    InputEvent { event_type: EV_KEY, code, value }
}

/// Computes `scale_axis`.
fn scale(last_output: i32, delta: i64, sensitivity_milli: u32, invert: bool) -> (r: i32)
    ensures
        r == scale_axis(last_output as int, delta as int, sensitivity_milli as nat, invert),
{
    let d: i128 = if invert {
        -(delta as i128)
    } else {
        delta as i128
    };
    let k = sensitivity_milli as i128;
    assert(-0x1_0000_0000_0000_0000_0000_0000 <= d * k <= 0x1_0000_0000_0000_0000_0000_0000) by (nonlinear_arith)
        requires
            -0x8000_0000_0000_0000 <= d <= 0x8000_0000_0000_0000,
            0 <= k <= 0xffff_ffff,
    ;
    let n: i128 = (last_output as i128) * 1000 + d * k;
    let rounded: i128 = if n >= 0 {
        (n + 500) / 1000
    } else {
        -((-n + 500) / 1000)
    };
    if rounded > i32::MAX as i128 {
        i32::MAX
    } else if rounded < i32::MIN as i128 {
        i32::MIN
    } else {
        rounded as i32
    }
}

impl Driver {
    /// The emitter's state is consistent.
    pub open spec fn wf(&self) -> bool {
        slots_consistent(self@)
    }

    /// A touchpad of `width` by `height` pixels, with nothing touched,
    /// sensitivity 1.0 and no inversion.
    pub fn new(width: u32, height: u32) -> (r: Driver)
        ensures
            r.wf(),
            r@.width == width,
            r@.height == height,
            r@.touched == Set::<i32>::empty(),
            r@.sensitivity_milli == UNIT_SENSITIVITY,
            !r@.invert_x,
            !r@.invert_y,
    {
        let r = Driver {
            width,
            height,
            touched_slots: HashSet::new(),
            last_input_position: HashMap::new(),
            last_output_position: HashMap::new(),
            sensitivity_milli: UNIT_SENSITIVITY,
            invert_x: false,
            invert_y: false,
        };
        assert(r@.last_input.dom() =~= r@.touched);
        assert(r@.last_output.dom() =~= r@.touched);
        r
    }

    /// Key events for a move of the touched count from `old_count` to
    /// `new_count`.
    pub fn get_slot_changed_events(&self, old_count: usize, new_count: usize) -> (r: Vec<InputEvent>)
        ensures
            r@ == tool_count_events(old_count as nat, new_count as nat),
    {
        let mut events: Vec<InputEvent> = Vec::new();
        if old_count == new_count {
            return events;
        }
        if old_count == 0 {
            events.push(key(BTN_TOUCH, 1));
        } else if old_count <= 5 {
            events.push(key(tool_code(old_count), 0));
        }
        if new_count == 0 {
            events.push(key(BTN_TOUCH, 0));
        } else if new_count <= 5 {
            events.push(key(tool_code(new_count), 1));
        }
        assert(events@ =~= tool_count_events(old_count as nat, new_count as nat));
        events
    }

    /// A slot goes down at the sample's position.
    pub fn emit_point_down(&mut self, point: &TouchPoint) -> (r: Vec<InputEvent>)
        requires
            old(self).wf(),
        ensures
            final(self).wf(),
            (final(self)@, r@) == down_step(old(self)@, *point),
    {
        let slot = point.slot;
        self.touched_slots.insert(slot);
        self.last_input_position.insert(slot, (point.x, point.y));
        self.last_output_position.insert(slot, (point.x, point.y));
        let events = vec![
            abs(ABS_MT_SLOT, slot),
            abs(ABS_MT_TRACKING_ID, point.tracking_id),
            abs(ABS_MT_POSITION_X, point.x),
            abs(ABS_MT_POSITION_Y, point.y),
            abs(ABS_X, point.x),
            abs(ABS_Y, point.y),
        ];
        assert(events@ =~= down_events(*point));
        assert(self@.last_input.dom() =~= self@.touched);
        assert(self@.last_output.dom() =~= self@.touched);
        events
    }

    /// A slot is released, whatever tracking id the sample carries.
    pub fn emit_point_up(&mut self, point: &TouchPoint) -> (r: Vec<InputEvent>)
        requires
            old(self).wf(),
        ensures
            final(self).wf(),
            (final(self)@, r@) == up_step(old(self)@, *point),
    {
        let slot = point.slot;
        self.touched_slots.remove(&slot);
        self.last_input_position.remove(&slot);
        self.last_output_position.remove(&slot);
        let events = vec![abs(ABS_MT_SLOT, slot), abs(ABS_MT_TRACKING_ID, RELEASED_TRACKING_ID)];
        assert(events@ =~= up_events(slot));
        assert(self@.last_input.dom() =~= self@.touched);
        assert(self@.last_output.dom() =~= self@.touched);
        events
    }

    /// A touched slot moves by the scaled delta of its input.
    pub fn emit_point_move(&mut self, point: &TouchPoint) -> (r: Vec<InputEvent>)
        requires
            old(self).wf(),
        ensures
            final(self).wf(),
            (final(self)@, r@) == move_step(old(self)@, *point),
    {
        let slot = point.slot;
        if !self.touched_slots.contains(&slot) {
            return Vec::new();
        }
        let (last_input_x, last_input_y) = *self.last_input_position.get(&slot).unwrap();
        let (last_output_x, last_output_y) = *self.last_output_position.get(&slot).unwrap();
        let delta_x = point.x as i64 - last_input_x as i64;
        let delta_y = point.y as i64 - last_input_y as i64;
        let point_x = scale(last_output_x, delta_x, self.sensitivity_milli, self.invert_x);
        let point_y = scale(last_output_y, delta_y, self.sensitivity_milli, self.invert_y);
        let multi = self.touched_slots.len() > 1;
        self.last_input_position.insert(slot, (point.x, point.y));
        self.last_output_position.insert(slot, (point_x, point_y));
        let mut events: Vec<InputEvent> = if multi {
            vec![abs(ABS_MT_SLOT, slot), abs(ABS_MT_TRACKING_ID, point.tracking_id)]
        } else {
            Vec::new()
        };
        events.push(abs(ABS_MT_POSITION_X, point_x));
        events.push(abs(ABS_MT_POSITION_Y, point_y));
        events.push(abs(ABS_X, point_x));
        events.push(abs(ABS_Y, point_y));
        assert(events@ =~= move_events(slot, point.tracking_id, point_x, point_y, multi));
        assert(self@.last_input.dom() =~= self@.touched);
        assert(self@.last_output.dom() =~= self@.touched);
        events
    }

    /// Processes one batch of samples in order and returns the events to
    /// emit: those of each sample, then the tool-count transition from the
    /// touched count before the batch to the count after it, then one report.
    pub fn emit_multitouch(&mut self, touch_points: &[TouchPoint]) -> (r: Vec<InputEvent>)
        requires
            old(self).wf(),
        ensures
            final(self).wf(),
            final(self)@ == apply_points(old(self)@, touch_points@).0,
            r@ == batch_events(old(self)@, touch_points@),
    {
        let ghost m0 = self@;
        let old_count = self.touched_slots.len();
        let mut events: Vec<InputEvent> = Vec::new();
        let mut i: usize = 0;
        assert(touch_points@.subrange(0, 0) =~= Seq::<TouchPoint>::empty());
        while i < touch_points.len()
            invariant
                self.wf(),
                i <= touch_points@.len(),
                (self@, events@) == apply_points(m0, touch_points@.subrange(0, i as int)),
            decreases touch_points@.len() - i,
        {
            let point = touch_points[i];
            let ghost prefix = touch_points@.subrange(0, i as int);
            let mut evs = match point.status {
                TouchStatus::Down => self.emit_point_down(&point),
                TouchStatus::Up => self.emit_point_up(&point),
                TouchStatus::Move => self.emit_point_move(&point),
            };
            events.append(&mut evs);
            i = i + 1;
            proof {
                let next = touch_points@.subrange(0, i as int);
                assert(next.drop_last() =~= prefix);
                assert(next.last() == point);
            }
        }
        assert(touch_points@.subrange(0, i as int) =~= touch_points@);
        let new_count = self.touched_slots.len();
        let mut tail = self.get_slot_changed_events(old_count, new_count);
        events.append(&mut tail);
        if events.len() > 0 {
            events.push(InputEvent { event_type: EV_SYN, code: SYN_REPORT, value: 1 });
        }
        events
    }

    /// Sets the sensitivity, in thousandths; positions already reached stay.
    pub fn set_sensitivity(&mut self, sensitivity_milli: u32)
        ensures
            final(self)@ == (DriverModel { sensitivity_milli, ..old(self)@ }),
    {
        self.sensitivity_milli = sensitivity_milli;
    }

    /// Sets the size of the touchpad; positions already reached stay.
    pub fn set_size(&mut self, width: u32, height: u32)
        ensures
            final(self)@ == (DriverModel { width, height, ..old(self)@ }),
    {
        self.width = width;
        self.height = height;
    }

    /// Sets whether horizontal motion is inverted, from the next Move on.
    pub fn set_invert_x(&mut self, invert_x: bool)
        ensures
            final(self)@ == (DriverModel { invert_x, ..old(self)@ }),
    {
        self.invert_x = invert_x;
    }

    /// Sets whether vertical motion is inverted, from the next Move on.
    pub fn set_invert_y(&mut self, invert_y: bool)
        ensures
            final(self)@ == (DriverModel { invert_y, ..old(self)@ }),
    {
        self.invert_y = invert_y;
    }

    /// The size of the touchpad.
    pub fn size(&self) -> (r: (u32, u32))
        ensures
            r == (self@.width, self@.height),
    {
        (self.width, self.height)
    }

    pub fn sensitivity_milli(&self) -> (r: u32)
        ensures
            r == self@.sensitivity_milli,
    {
        self.sensitivity_milli
    }

    /// Whether `slot` is touched.
    pub fn is_touched(&self, slot: i32) -> (r: bool)
        ensures
            r == self@.touched.contains(slot),
    {
        self.touched_slots.contains(&slot)
    }

    /// The number of touched slots.
    pub fn touched_count(&self) -> (r: usize)
        requires
            self.wf(),
        ensures
            r == self@.touched.len(),
    {
        self.touched_slots.len()
    }

    /// The last emitted position of `slot`, if it is touched.
    pub fn last_output(&self, slot: i32) -> (r: Option<(i32, i32)>)
        ensures
            match r {
                Some(p) => self@.last_output.contains_key(slot) && p == self@.last_output[slot],
                None => !self@.last_output.contains_key(slot),
            },
    {
        match self.last_output_position.get(&slot) {
            Some(p) => Some(*p),
            None => None,
        }
    }
}

fn tool_code(count: usize) -> (r: u16)
    requires
        1 <= count <= 5,
    ensures
        r == tool_key(count as nat),
{
    if count == 1 {
        BTN_TOOL_FINGER
    } else if count == 2 {
        BTN_TOOL_DOUBLETAP
    } else if count == 3 {
        BTN_TOOL_TRIPLETAP
    } else if count == 4 {
        BTN_TOOL_QUADTAP
    } else {
        BTN_TOOL_QUINTTAP
    }
}


// ---------------------------------------------------------------------------
// Laws

/// After any sequence of samples, a slot is touched exactly when it has a
/// last input and a last output position.
pub proof fn lemma_batch_keeps_slots(m: DriverModel, ps: Seq<TouchPoint>)
    requires
        slots_consistent(m),
    ensures
        slots_consistent(apply_points(m, ps).0),
    decreases ps.len(),
{
    if ps.len() > 0 {
        lemma_batch_keeps_slots(m, ps.drop_last());
        let m1 = apply_points(m, ps.drop_last()).0;
        let m2 = step(m1, ps.last()).0;
        assert(m2.last_input.dom() =~= m2.touched);
        assert(m2.last_output.dom() =~= m2.touched);
    }
}

/// An Up writes the slot and the release id, whatever id the sample carries,
/// and leaves the slot untouched.
pub proof fn lemma_up_releases(m: DriverModel, p: TouchPoint)
    requires
        p.status == TouchStatus::Up,
    ensures
        step(m, p).1 == seq![abs_event(ABS_MT_SLOT, p.slot), abs_event(ABS_MT_TRACKING_ID, -1i32)],
        !step(m, p).0.touched.contains(p.slot),
{
}

/// With the horizontal axis inverted, a Move advances the horizontal output
/// by the negated delta; the vertical output does not depend on it.
pub proof fn lemma_invert_x_negates(m: DriverModel, p: TouchPoint)
    requires
        m.invert_x,
        m.touched.contains(p.slot),
    ensures
        moved_output(m, p).0 == scale_axis(
            m.last_output[p.slot].0 as int,
            -(p.x - m.last_input[p.slot].0),
            m.sensitivity_milli as nat,
            false,
        ),
        moved_output(m, p).1 == moved_output(DriverModel { invert_x: false, ..m }, p).1,
{
}

/// The tool-count keys of one batch: nothing when the count is unchanged;
/// otherwise at most the key of the count left and the key of the count
/// entered, in that order, each once.
pub proof fn lemma_tool_count_transitions(before: nat, after: nat)
    ensures
        before == after ==> tool_count_events(before, after).len() == 0,
        before != after ==> tool_count_events(before, after) == leave_events(before)
            + enter_events(after),
        before != after && before <= 5 && after <= 5 ==> tool_count_events(before, after).len()
            == 2 && tool_count_events(before, after)[0].code != tool_count_events(
            before,
            after,
        )[1].code,
        before > 5 && after > 5 ==> tool_count_events(before, after).len() == 0,
{
}

/// A Down at the first position of `xs`, `ys`, then a Move to each of the
/// following ones, all on one slot.
pub open spec fn drag_points(slot: i32, tracking_id: i32, xs: Seq<i32>, ys: Seq<i32>) -> Seq<
    TouchPoint,
>
    decreases xs.len(),
{
    if xs.len() == 0 {
        seq![]
    } else if xs.len() == 1 {
        seq![TouchPoint { slot, tracking_id, x: xs[0], y: ys[0], status: TouchStatus::Down }]
    } else {
        drag_points(slot, tracking_id, xs.drop_last(), ys.drop_last()).push(
            TouchPoint {
                slot,
                tracking_id,
                x: xs.last(),
                y: ys.last(),
                status: TouchStatus::Move,
            },
        )
    }
}

/// The output coordinate of one axis along a drag through `xs`, without
/// inversion.
pub open spec fn axis_output(xs: Seq<i32>, sensitivity_milli: nat) -> int
    decreases xs.len(),
{
    if xs.len() <= 1 {
        xs[0] as int
    } else {
        scale_axis(
            axis_output(xs.drop_last(), sensitivity_milli),
            xs.last() - xs[xs.len() - 2],
            sensitivity_milli,
            false,
        ) as int
    }
}

/// The exact scaled position after the `i`-th sample of a drag, in
/// thousandths: the start plus the sensitivity times the distance covered.
pub open spec fn ideal_milli(xs: Seq<i32>, sensitivity_milli: nat, i: int) -> int {
    xs[0] * 1000 + sensitivity_milli * (xs[i] - xs[0])
}

/// Along the drag, the exact position stays far enough inside the range of
/// device values that rounding never pushes the output out of it.
pub open spec fn drag_in_range(xs: Seq<i32>, sensitivity_milli: nat) -> bool {
    forall|i: int|
        1 <= i < xs.len() ==> i32::MIN * 1000 + 500 * i <= #[trigger] ideal_milli(
            xs,
            sensitivity_milli,
            i,
        ) <= i32::MAX * 1000 - 500 * i
}

proof fn lemma_round_milli(z: int)
    ensures
        z - 500 <= round_milli(z) * 1000 <= z + 500,
{
}

proof fn lemma_axis_error(xs: Seq<i32>, k: nat)
    requires
        xs.len() >= 1,
        drag_in_range(xs, k),
    ensures
        ideal_milli(xs, k, xs.len() - 1) - 500 * (xs.len() - 1) <= axis_output(xs, k) * 1000
            <= ideal_milli(xs, k, xs.len() - 1) + 500 * (xs.len() - 1),
    decreases xs.len(),
{
    if xs.len() > 1 {
        let n = xs.len() - 1;
        let ys = xs.drop_last();
        assert forall|i: int| 1 <= i < ys.len() implies i32::MIN * 1000 + 500 * i
            <= #[trigger] ideal_milli(ys, k, i) <= i32::MAX * 1000 - 500 * i by {
            assert(ideal_milli(ys, k, i) == ideal_milli(xs, k, i));
        }
        lemma_axis_error(ys, k);
        let prev = axis_output(ys, k);
        assert(ideal_milli(ys, k, n - 1) == ideal_milli(xs, k, n - 1));
        let z = prev * 1000 + (xs.last() - xs[n - 1]) * k;
        assert(ideal_milli(xs, k, n) - ideal_milli(xs, k, n - 1) == k * (xs[n] - xs[n - 1]))
            by (nonlinear_arith);
        assert(z - ideal_milli(xs, k, n) == prev * 1000 - ideal_milli(xs, k, n - 1))
            by (nonlinear_arith)
            requires
                z == prev * 1000 + (xs[n] - xs[n - 1]) * k,
                ideal_milli(xs, k, n) - ideal_milli(xs, k, n - 1) == k * (xs[n] - xs[n - 1]),
        ;
        lemma_round_milli(z);
        assert(ideal_milli(xs, k, n) <= i32::MAX * 1000 - 500 * n);
    }
}

/// The driver follows `axis_output` on both axes along a drag.
proof fn lemma_drag_tracks(m: DriverModel, slot: i32, tracking_id: i32, xs: Seq<i32>, ys: Seq<i32>)
    requires
        slots_consistent(m),
        !m.invert_x,
        !m.invert_y,
        xs.len() == ys.len(),
        xs.len() >= 1,
    ensures
        ({
            let m2 = apply_points(m, drag_points(slot, tracking_id, xs, ys)).0;
            &&& slots_consistent(m2)
            &&& m2.touched.contains(slot)
            &&& m2.last_input[slot] == (xs.last(), ys.last())
            &&& m2.last_output[slot].0 == axis_output(xs, m.sensitivity_milli as nat)
            &&& m2.last_output[slot].1 == axis_output(ys, m.sensitivity_milli as nat)
            &&& m2.sensitivity_milli == m.sensitivity_milli
            &&& !m2.invert_x
            &&& !m2.invert_y
        }),
    decreases xs.len(),
{
    let ps = drag_points(slot, tracking_id, xs, ys);
    lemma_batch_keeps_slots(m, ps);
    if xs.len() == 1 {
        let d = TouchPoint { slot, tracking_id, x: xs[0], y: ys[0], status: TouchStatus::Down };
        assert(ps == seq![d]);
        assert(ps.drop_last() =~= Seq::<TouchPoint>::empty());
    } else {
        let prev = drag_points(slot, tracking_id, xs.drop_last(), ys.drop_last());
        lemma_drag_tracks(m, slot, tracking_id, xs.drop_last(), ys.drop_last());
        assert(ps.drop_last() =~= prev);
        assert(xs.drop_last().last() == xs[xs.len() - 2]);
        assert(ys.drop_last().last() == ys[ys.len() - 2]);
    }
}

/// Sensitivity law: with sensitivity `k` (in thousandths) and no inversion, a
/// Down at the first position followed by Moves through the others leaves the
/// slot's output at the start plus `k` times the distance covered, within
/// half a unit per Move on each axis, as long as that path stays inside the
/// range of device values.
pub proof fn lemma_sensitivity_law(
    m: DriverModel,
    slot: i32,
    tracking_id: i32,
    xs: Seq<i32>,
    ys: Seq<i32>,
)
    requires
        slots_consistent(m),
        !m.invert_x,
        !m.invert_y,
        xs.len() == ys.len(),
        xs.len() >= 1,
        drag_in_range(xs, m.sensitivity_milli as nat),
        drag_in_range(ys, m.sensitivity_milli as nat),
    ensures
        ({
            let out = apply_points(m, drag_points(slot, tracking_id, xs, ys)).0.last_output[slot];
            let k = m.sensitivity_milli as nat;
            let n = xs.len() - 1;
            &&& ideal_milli(xs, k, n) - 500 * n <= out.0 * 1000 <= ideal_milli(xs, k, n) + 500 * n
            &&& ideal_milli(ys, k, n) - 500 * n <= out.1 * 1000 <= ideal_milli(ys, k, n) + 500 * n
        }),
{
    lemma_drag_tracks(m, slot, tracking_id, xs, ys);
    lemma_axis_error(xs, m.sensitivity_milli as nat);
    lemma_axis_error(ys, m.sensitivity_milli as nat);
}

} // verus!
