//! The message envelope: a tagged union of every message that crosses the
//! wire, each written as a sequence of keyed fields.
//!
//! A field starts with one key byte, `number * 8 + wire_type`. Integers use
//! wire type 0 and a base-128 value; byte strings and nested messages use
//! wire type 2, a base-128 length and the bytes. Signed integers travel as
//! their two's complement in 64 bits. The envelope is one length-delimited
//! field whose number names the variant. Fields are written in the order of
//! their number, each one always. The decoder takes them in that order and
//! reads a field that is left out as zero, false or empty, as encoders that
//! omit default values write them.

use vstd::prelude::*;
use vstd::slice::slice_subrange;
use vstd::slice::slice_to_vec;
use crate::varint::{
    FrameError, varint_bytes, parse_varint, pow128, suffix, lemma_varint_len,
    lemma_varint_round_trip, lemma_parse_varint_bound, read_varint_at, push_varint, push_bytes, read_frame_spec, frame_bytes,
    read_message_with_length_prefix_sync, encode_with_length_prefix, lemma_frame_round_trip,
    MAX_MESSAGE_LENGTH,
};

verus! {

/// Envelope keys, one per variant.
pub const KEY_WELCOME: u8 = 0x0a;
pub const KEY_REJECT: u8 = 0x12;
pub const KEY_HEART_BEAT: u8 = 0x1a;
pub const KEY_DISCOVER_VALIDATION: u8 = 0x22;
pub const KEY_REGISTER_DEVICE: u8 = 0x2a;
pub const KEY_TOUCH_PACKET: u8 = 0x32;
pub const KEY_SETTING_REQUEST: u8 = 0x3a;
pub const KEY_EXIT: u8 = 0x42;

/// Keys of fields inside a message: field one to six, as an integer or as a
/// length-delimited value.
pub const F1_INT: u8 = 0x08;
pub const F2_INT: u8 = 0x10;
pub const F3_INT: u8 = 0x18;
pub const F4_INT: u8 = 0x20;
pub const F5_INT: u8 = 0x28;
pub const F6_INT: u8 = 0x30;
pub const F1_LEN: u8 = 0x0a;
pub const F2_LEN: u8 = 0x12;
pub const F3_LEN: u8 = 0x1a;
pub const F4_LEN: u8 = 0x22;

/// Values of a pointer's `event_type`.
pub const EVENT_UNSPECIFIED: i32 = 0;
pub const EVENT_DOWN: i32 = 1;
pub const EVENT_UP: i32 = 2;
pub const EVENT_MOVE: i32 = 3;
pub const EVENT_CANCEL: i32 = 4;

/// Reasons carried by `Reject`.
pub const REJECT_PROTOCOL_VIOLATION: i32 = 1;
pub const REJECT_HELLO_CHECKSUM_MISMATCH: i32 = 2;
pub const REJECT_REPEATEDLY_ADDING_DEVICES: i32 = 3;

/// One pointer sample of a touch packet.
#[derive(Debug, Clone, Copy, PartialEq, Eq, Structural)]
pub struct Pointer {
    pub id: u32,
    pub event_type: i32,
    pub abs_x: u32,
    pub abs_y: u32,
}

/// Tuning of the emitter; the sensitivity is in thousandths (1000 is 1.0).
#[derive(Debug, Clone, Copy, PartialEq, Eq, Structural)]
pub struct TuneSetting {
    pub sensitivity_milli: u32,
    pub invert_x: bool,
    pub invert_y: bool,
}

#[derive(Debug, Clone)]
pub struct Welcome {
    pub cert_der: Vec<u8>,
    pub ts_ms: u64,
}

#[derive(Debug, Clone, Copy, PartialEq, Eq, Structural)]
pub struct Reject {
    pub reason: i32,
}

#[derive(Debug, Clone)]
pub struct DiscoverValidation {
    pub checksum: u64,
    pub send_ts: u64,
    pub device_name: Vec<u8>,
    pub random_key: Vec<u8>,
    pub width: u32,
    pub height: u32,
}

#[derive(Debug, Clone)]
pub struct RegisterDevice {
    pub device_name: Vec<u8>,
    pub ip: Vec<u8>,
    pub width: u32,
    pub height: u32,
    pub send_ts: u64,
}

#[derive(Debug, Clone)]
pub struct TouchPacket {
    pub seq: u32,
    pub ts_ms: i64,
    pub pointers: Vec<Pointer>,
}

#[derive(Debug, Clone, Copy, PartialEq, Eq, Structural)]
pub struct Exit {
    pub ts_ms: u64,
}

/// Every message that the envelope carries.
#[derive(Debug, Clone)]
pub enum Payload {
    Welcome(Welcome),
    Reject(Reject),
    HeartBeat,
    DiscoverValidation(DiscoverValidation),
    RegisterDevice(RegisterDevice),
    TouchPacket(TouchPacket),
    SettingRequest(TuneSetting),
    Exit(Exit),
}

/// The mathematical value of a `Payload`.
pub enum PayloadModel {
    Welcome { cert_der: Seq<u8>, ts_ms: u64 },
    Reject { reason: i32 },
    HeartBeat,
    DiscoverValidation {
        checksum: u64,
        send_ts: u64,
        device_name: Seq<u8>,
        random_key: Seq<u8>,
        width: u32,
        height: u32,
    },
    RegisterDevice { device_name: Seq<u8>, ip: Seq<u8>, width: u32, height: u32, send_ts: u64 },
    TouchPacket { seq: u32, client_ts_ms: i64, pointers: Seq<Pointer> },
    SettingRequest { value: TuneSetting },
    Exit { ts_ms: u64 },
}

impl View for Payload {
    type V = PayloadModel;

    open spec fn view(&self) -> PayloadModel {
        match self {
            Payload::Welcome(w) => PayloadModel::Welcome { cert_der: w.cert_der@, ts_ms: w.ts_ms },
            Payload::Reject(r) => PayloadModel::Reject { reason: r.reason },
            Payload::HeartBeat => PayloadModel::HeartBeat,
            Payload::DiscoverValidation(d) => PayloadModel::DiscoverValidation {
                checksum: d.checksum,
                send_ts: d.send_ts,
                device_name: d.device_name@,
                random_key: d.random_key@,
                width: d.width,
                height: d.height,
            },
            Payload::RegisterDevice(d) => PayloadModel::RegisterDevice {
                device_name: d.device_name@,
                ip: d.ip@,
                width: d.width,
                height: d.height,
                send_ts: d.send_ts,
            },
            Payload::TouchPacket(t) => PayloadModel::TouchPacket {
                seq: t.seq,
                client_ts_ms: t.ts_ms,
                pointers: t.pointers@,
            },
            Payload::SettingRequest(s) => PayloadModel::SettingRequest { value: *s },
            Payload::Exit(e) => PayloadModel::Exit { ts_ms: e.ts_ms },
        }
    }
}

// ---------------------------------------------------------------------------
// Fields

/// An integer field.
pub open spec fn uint_field(key: u8, v: nat) -> Seq<u8> {
    seq![key] + varint_bytes(v)
}

/// A length-delimited field.
pub open spec fn bytes_field(key: u8, data: Seq<u8>) -> Seq<u8> {
    seq![key] + varint_bytes(data.len()) + data
}

/// Reads an integer field with key `key` and a value of at most `bound`:
/// the value and the bytes that the field took. A field that does not start
/// here is left out: zero, taking no byte.
pub open spec fn parse_uint_field(s: Seq<u8>, key: u8, bound: nat) -> Option<(nat, nat)> {
    if s.len() > 0 && s[0] == key {
        match parse_varint(s.drop_first(), 10) {
            Ok((v, n)) => if v <= bound {
                Some((v, n + 1))
            } else {
                None
            },
            Err(_) => None,
        }
    } else {
        Some((0, 0))
    }
}

/// Reads a length-delimited field with key `key`: the bytes it carries and
/// the bytes that the field took. A field that does not start here is left
/// out: empty, taking no byte.
pub open spec fn parse_bytes_field(s: Seq<u8>, key: u8) -> Option<(Seq<u8>, nat)> {
    if s.len() > 0 && s[0] == key {
        match parse_varint(s.drop_first(), 10) {
            Ok((len, n)) => if 1 + n + len <= s.len() {
                Some((s.subrange(1 + n as int, 1 + n + len as int), (1 + n + len) as nat))
            } else {
                None
            },
            Err(_) => None,
        }
    } else {
        Some((Seq::empty(), 0))
    }
}

pub open spec fn u64_max() -> nat {
    u64::MAX as nat
}

pub open spec fn u32_max() -> nat {
    u32::MAX as nat
}

pub open spec fn two64() -> int {
    0x1_0000_0000_0000_0000
}

/// The 64-bit two's complement of a signed value.
pub open spec fn signed_wire(v: int) -> nat {
    if v < 0 {
        (v + two64()) as nat
    } else {
        v as nat
    }
}

/// The `i32` whose 64-bit two's complement is `w`, if there is one.
pub open spec fn wire_i32(w: nat) -> Option<i32> {
    if w <= i32::MAX {
        Some(w as i32)
    } else if two64() + i32::MIN <= w < two64() {
        Some((w - two64()) as i32)
    } else {
        None
    }
}

/// The `i64` whose 64-bit two's complement is `w`, if there is one.
pub open spec fn wire_i64(w: nat) -> Option<i64> {
    if w <= i64::MAX {
        Some(w as i64)
    } else if two64() + i64::MIN <= w < two64() {
        Some((w - two64()) as i64)
    } else {
        None
    }
}

pub open spec fn bool_wire(b: bool) -> nat {
    if b {
        1
    } else {
        0
    }
}

proof fn lemma_u64_fits_varint(v: nat)
    requires
        v <= u64::MAX,
    ensures
        1 <= varint_bytes(v).len() <= 10,
{
    reveal_with_fuel(pow128, 11);
    lemma_varint_len(v, 10);
}

/// An integer field reads back whatever follows it.
pub proof fn lemma_uint_field(key: u8, v: nat, bound: nat, rest: Seq<u8>)
    requires
        v <= bound,
        v <= u64::MAX,
    ensures
        parse_uint_field(uint_field(key, v) + rest, key, bound) == Some((v, uint_field(key, v).len())),
{
    lemma_u64_fits_varint(v);
    let s = uint_field(key, v) + rest;
    assert(s.drop_first() =~= varint_bytes(v) + rest);
    lemma_varint_round_trip(v, rest, 10);
}

/// A length-delimited field reads back whatever follows it.
pub proof fn lemma_bytes_field(key: u8, data: Seq<u8>, rest: Seq<u8>)
    requires
        data.len() <= u64::MAX,
    ensures
        parse_bytes_field(bytes_field(key, data) + rest, key) == Some(
            (data, bytes_field(key, data).len()),
        ),
{
    lemma_u64_fits_varint(data.len());
    let s = bytes_field(key, data) + rest;
    let vb = varint_bytes(data.len());
    assert(s.drop_first() =~= vb + (data + rest));
    lemma_varint_round_trip(data.len(), data + rest, 10);
    assert(s.subrange(1 + vb.len() as int, 1 + vb.len() + data.len() as int) =~= data);
}

/// Reads an integer field of `buf` at `pos`.
fn read_uint_field(buf: &[u8], pos: usize, key: u8, bound: u64) -> (r: Option<(u64, usize)>)
    requires
        pos <= buf@.len(),
    ensures
        match parse_uint_field(suffix(buf@, pos as int), key, bound as nat) {
            Some((v, n)) => r matches Some((x, e)) && x == v && e == pos + n && pos + n
                <= buf@.len(),
            None => r is None,
        },
        r matches Some((_, e)) ==> pos <= e <= buf@.len(),
{
    if pos >= buf.len() || buf[pos] != key {
        return Some((0, pos));
    }
    proof {
        assert(suffix(buf@, pos + 1) =~= suffix(buf@, pos as int).drop_first());
        lemma_parse_varint_bound(suffix(buf@, pos + 1), 10);
    }
    match read_varint_at(buf, pos + 1, 10) {
        Ok((v, end)) => if v <= bound {
            Some((v, end))
        } else {
            None
        },
        Err(_) => None,
    }
}

/// Reads a length-delimited field of `buf` at `pos`.
fn read_bytes_field(buf: &[u8], pos: usize, key: u8) -> (r: Option<(Vec<u8>, usize)>)
    requires
        pos <= buf@.len(),
    ensures
        match parse_bytes_field(suffix(buf@, pos as int), key) {
            Some((d, n)) => r matches Some((v, e)) && v@ == d && e == pos + n && pos + n
                <= buf@.len(),
            None => r is None,
        },
        r matches Some((_, e)) ==> pos <= e <= buf@.len(),
{
    if pos >= buf.len() || buf[pos] != key {
        let empty: Vec<u8> = Vec::new();
        assert(empty@ =~= Seq::<u8>::empty());
        return Some((empty, pos));
    }
    let ghost s = suffix(buf@, pos as int);
    proof {
        assert(suffix(buf@, pos + 1) =~= s.drop_first());
        lemma_parse_varint_bound(s.drop_first(), 10);
    }
    match read_varint_at(buf, pos + 1, 10) {
        Ok((len, p)) => {
            if len > (buf.len() - p) as u64 {
                None
            } else {
                assert(len <= buf.len() - p);
                let end = p + (len as usize);
                let data = slice_to_vec(slice_subrange(buf, p, end));
                proof {
                    assert(data@ =~= s.subrange(p - pos, end - pos));
                }
                Some((data, end))
            }
        },
        Err(_) => None,
    }
}

fn push_uint_field(out: &mut Vec<u8>, key: u8, v: u64)
    ensures
        final(out)@ == old(out)@ + uint_field(key, v as nat),
{
    let ghost before = out@;
    out.push(key);
    push_varint(out, v);
    assert(out@ =~= before + uint_field(key, v as nat));
}

fn push_bytes_field(out: &mut Vec<u8>, key: u8, data: &[u8])
    ensures
        final(out)@ == old(out)@ + bytes_field(key, data@),
{
    let ghost before = out@;
    out.push(key);
    push_varint(out, data.len() as u64);
    push_bytes(out, data);
    assert(out@ =~= before + bytes_field(key, data@));
}

fn i32_to_wire(v: i32) -> (r: u64)
    ensures
        r as nat == signed_wire(v as int),
{
    if v < 0 {
        (u64::MAX - ((-(v as i64) - 1) as u64))
    } else {
        v as u64
    }
}

fn i64_to_wire(v: i64) -> (r: u64)
    ensures
        r as nat == signed_wire(v as int),
{
    if v < 0 {
        (u64::MAX - ((-(v as i128) - 1) as u64))
    } else {
        v as u64
    }
}

fn wire_to_i32(w: u64) -> (r: Option<i32>)
    ensures
        r == wire_i32(w as nat),
{
    if w <= i32::MAX as u64 {
        Some(w as i32)
    } else if w >= u64::MAX - (i32::MAX as u64) {
        Some((-((u64::MAX - w) as i64) - 1) as i32)
    } else {
        None
    }
}

fn wire_to_i64(w: u64) -> (r: Option<i64>)
    ensures
        r == wire_i64(w as nat),
{
    if w <= i64::MAX as u64 {
        Some(w as i64)
    } else {
        Some((-((u64::MAX - w) as i128) - 1) as i64)
    }
}


// ---------------------------------------------------------------------------
// Message bodies

pub open spec fn pointer_body(p: Pointer) -> Seq<u8> {
    uint_field(F1_INT, p.id as nat) + uint_field(F2_INT, signed_wire(p.event_type as int))
        + uint_field(F3_INT, p.abs_x as nat) + uint_field(F4_INT, p.abs_y as nat)
}

pub open spec fn pointers_bytes(ps: Seq<Pointer>) -> Seq<u8>
    decreases ps.len(),
{
    if ps.len() == 0 {
        seq![]
    } else {
        bytes_field(F3_LEN, pointer_body(ps[0])) + pointers_bytes(ps.drop_first())
    }
}

pub open spec fn tune_body(t: TuneSetting) -> Seq<u8> {
    uint_field(F1_INT, t.sensitivity_milli as nat) + uint_field(F2_INT, bool_wire(t.invert_x))
        + uint_field(F3_INT, bool_wire(t.invert_y))
}

/// The fields of a message, without its envelope.
pub open spec fn body_bytes(m: PayloadModel) -> Seq<u8> {
    match m {
        PayloadModel::Welcome { cert_der, ts_ms } => bytes_field(F1_LEN, cert_der) + uint_field(
            F2_INT,
            ts_ms as nat,
        ),
        PayloadModel::Reject { reason } => uint_field(F1_INT, signed_wire(reason as int)),
        PayloadModel::HeartBeat => seq![],
        PayloadModel::DiscoverValidation {
            checksum,
            send_ts,
            device_name,
            random_key,
            width,
            height,
        } => uint_field(F1_INT, checksum as nat) + uint_field(F2_INT, send_ts as nat) + bytes_field(
            F3_LEN,
            device_name,
        ) + bytes_field(F4_LEN, random_key) + uint_field(F5_INT, width as nat) + uint_field(
            F6_INT,
            height as nat,
        ),
        PayloadModel::RegisterDevice { device_name, ip, width, height, send_ts } => bytes_field(
            F1_LEN,
            device_name,
        ) + bytes_field(F2_LEN, ip) + uint_field(F3_INT, width as nat) + uint_field(
            F4_INT,
            height as nat,
        ) + uint_field(F5_INT, send_ts as nat),
        PayloadModel::TouchPacket { seq, client_ts_ms, pointers } => uint_field(F1_INT, seq as nat)
            + uint_field(F2_INT, signed_wire(client_ts_ms as int)) + pointers_bytes(pointers),
        PayloadModel::SettingRequest { value } => bytes_field(F1_LEN, tune_body(value)),
        PayloadModel::Exit { ts_ms } => uint_field(F1_INT, ts_ms as nat),
    }
}

/// The envelope key that names the variant of `m`.
pub open spec fn envelope_key(m: PayloadModel) -> u8 {
    match m {
        PayloadModel::Welcome { .. } => KEY_WELCOME,
        PayloadModel::Reject { .. } => KEY_REJECT,
        PayloadModel::HeartBeat => KEY_HEART_BEAT,
        PayloadModel::DiscoverValidation { .. } => KEY_DISCOVER_VALIDATION,
        PayloadModel::RegisterDevice { .. } => KEY_REGISTER_DEVICE,
        PayloadModel::TouchPacket { .. } => KEY_TOUCH_PACKET,
        PayloadModel::SettingRequest { .. } => KEY_SETTING_REQUEST,
        PayloadModel::Exit { .. } => KEY_EXIT,
    }
}

/// The bytes of the envelope that carries `m`.
pub open spec fn encode_payload(m: PayloadModel) -> Seq<u8> {
    bytes_field(envelope_key(m), body_bytes(m))
}

/// A message whose encoding can be held in memory.
pub open spec fn encodable(m: PayloadModel) -> bool {
    encode_payload(m).len() <= u64::MAX
}

#[verifier::opaque]
pub open spec fn parse_pointer(s: Seq<u8>) -> Option<Pointer> {
    match parse_uint_field(s, F1_INT, u32_max()) {
        None => None,
        Some((id, n1)) => match parse_uint_field(suffix(s, n1 as int), F2_INT, u64_max()) {
            None => None,
            Some((et, n2)) => match parse_uint_field(suffix(s, (n1 + n2) as int), F3_INT, u32_max()) {
                None => None,
                Some((x, n3)) => match parse_uint_field(suffix(s, (n1 + n2 + n3) as int), F4_INT, u32_max()) {
                    None => None,
                    Some((y, n4)) => if n1 + n2 + n3 + n4 == s.len() {
                        match wire_i32(et) {
                            Some(e) => Some(
                                Pointer { id: id as u32, event_type: e, abs_x: x as u32, abs_y: y as u32 },
                            ),
                            None => None,
                        }
                    } else {
                        None
                    },
                },
            },
        },
    }
}

/// The pointers written from `pos` to the end of `s`.
pub open spec fn parse_pointers(s: Seq<u8>, pos: int) -> Option<Seq<Pointer>>
    decreases s.len() - pos,
{
    if pos >= s.len() {
        Some(Seq::empty())
    } else {
        match parse_bytes_field(suffix(s, pos), F3_LEN) {
            None => None,
            Some((body, n)) => if 0 < n && pos + n <= s.len() {
                match parse_pointer(body) {
                    None => None,
                    Some(p) => match parse_pointers(s, pos + n) {
                        None => None,
                        Some(ps) => Some(seq![p] + ps),
                    },
                }
            } else {
                None
            },
        }
    }
}

pub open spec fn parse_tune(s: Seq<u8>) -> Option<TuneSetting> {
    match parse_uint_field(s, F1_INT, u32_max()) {
        None => None,
        Some((k, n1)) => match parse_uint_field(suffix(s, n1 as int), F2_INT, 1) {
            None => None,
            Some((ix, n2)) => match parse_uint_field(suffix(s, (n1 + n2) as int), F3_INT, 1) {
                None => None,
                Some((iy, n3)) => if n1 + n2 + n3 == s.len() {
                    Some(TuneSetting { sensitivity_milli: k as u32, invert_x: ix == 1, invert_y: iy == 1 })
                } else {
                    None
                },
            },
        },
    }
}

pub open spec fn parse_welcome(s: Seq<u8>) -> Option<PayloadModel> {
    match parse_bytes_field(s, F1_LEN) {
        None => None,
        Some((cert, n1)) => match parse_uint_field(suffix(s, n1 as int), F2_INT, u64_max()) {
            None => None,
            Some((ts, n2)) => if n1 + n2 == s.len() {
                Some(PayloadModel::Welcome { cert_der: cert, ts_ms: ts as u64 })
            } else {
                None
            },
        },
    }
}

pub open spec fn parse_reject(s: Seq<u8>) -> Option<PayloadModel> {
    match parse_uint_field(s, F1_INT, u64_max()) {
        None => None,
        Some((w, n1)) => if n1 == s.len() {
            match wire_i32(w) {
                Some(reason) => Some(PayloadModel::Reject { reason }),
                None => None,
            }
        } else {
            None
        },
    }
}

pub open spec fn parse_discover_validation(s: Seq<u8>) -> Option<PayloadModel> {
    match parse_uint_field(s, F1_INT, u64_max()) {
        None => None,
        Some((checksum, n1)) => match parse_uint_field(suffix(s, n1 as int), F2_INT, u64_max()) {
            None => None,
            Some((send_ts, n2)) => match parse_bytes_field(suffix(s, (n1 + n2) as int), F3_LEN) {
                None => None,
                Some((name, n3)) => match parse_bytes_field(suffix(s, (n1 + n2 + n3) as int), F4_LEN) {
                    None => None,
                    Some((key, n4)) => match parse_uint_field(
                        suffix(s, (n1 + n2 + n3 + n4) as int),
                        F5_INT,
                        u32_max(),
                    ) {
                        None => None,
                        Some((w, n5)) => match parse_uint_field(
                            suffix(s, (n1 + n2 + n3 + n4 + n5) as int),
                            F6_INT,
                            u32_max(),
                        ) {
                            None => None,
                            Some((h, n6)) => if n1 + n2 + n3 + n4 + n5 + n6 == s.len() {
                                Some(
                                    PayloadModel::DiscoverValidation {
                                        checksum: checksum as u64,
                                        send_ts: send_ts as u64,
                                        device_name: name,
                                        random_key: key,
                                        width: w as u32,
                                        height: h as u32,
                                    },
                                )
                            } else {
                                None
                            },
                        },
                    },
                },
            },
        },
    }
}

pub open spec fn parse_register_device(s: Seq<u8>) -> Option<PayloadModel> {
    match parse_bytes_field(s, F1_LEN) {
        None => None,
        Some((name, n1)) => match parse_bytes_field(suffix(s, n1 as int), F2_LEN) {
            None => None,
            Some((ip, n2)) => match parse_uint_field(suffix(s, (n1 + n2) as int), F3_INT, u32_max()) {
                None => None,
                Some((w, n3)) => match parse_uint_field(suffix(s, (n1 + n2 + n3) as int), F4_INT, u32_max()) {
                    None => None,
                    Some((h, n4)) => match parse_uint_field(
                        suffix(s, (n1 + n2 + n3 + n4) as int),
                        F5_INT,
                        u64_max(),
                    ) {
                        None => None,
                        Some((ts, n5)) => if n1 + n2 + n3 + n4 + n5 == s.len() {
                            Some(
                                PayloadModel::RegisterDevice {
                                    device_name: name,
                                    ip,
                                    width: w as u32,
                                    height: h as u32,
                                    send_ts: ts as u64,
                                },
                            )
                        } else {
                            None
                        },
                    },
                },
            },
        },
    }
}

pub open spec fn parse_touch_packet(s: Seq<u8>) -> Option<PayloadModel> {
    match parse_uint_field(s, F1_INT, u32_max()) {
        None => None,
        Some((seq, n1)) => match parse_uint_field(suffix(s, n1 as int), F2_INT, u64_max()) {
            None => None,
            Some((ts, n2)) => match wire_i64(ts) {
                None => None,
                Some(t) => match parse_pointers(s, (n1 + n2) as int) {
                    None => None,
                    Some(ps) => Some(
                        PayloadModel::TouchPacket { seq: seq as u32, client_ts_ms: t, pointers: ps },
                    ),
                },
            },
        },
    }
}

pub open spec fn parse_setting_request(s: Seq<u8>) -> Option<PayloadModel> {
    match parse_bytes_field(s, F1_LEN) {
        None => None,
        Some((body, n1)) => if n1 == s.len() {
            match parse_tune(body) {
                Some(value) => Some(PayloadModel::SettingRequest { value }),
                None => None,
            }
        } else {
            None
        },
    }
}

pub open spec fn parse_exit(s: Seq<u8>) -> Option<PayloadModel> {
    match parse_uint_field(s, F1_INT, u64_max()) {
        None => None,
        Some((ts, n1)) => if n1 == s.len() {
            Some(PayloadModel::Exit { ts_ms: ts as u64 })
        } else {
            None
        },
    }
}

/// The message of the variant named by `key` whose fields are `body`.
pub open spec fn parse_body(key: u8, body: Seq<u8>) -> Option<PayloadModel> {
    if key == KEY_WELCOME {
        parse_welcome(body)
    } else if key == KEY_REJECT {
        parse_reject(body)
    } else if key == KEY_HEART_BEAT {
        if body.len() == 0 {
            Some(PayloadModel::HeartBeat)
        } else {
            None
        }
    } else if key == KEY_DISCOVER_VALIDATION {
        parse_discover_validation(body)
    } else if key == KEY_REGISTER_DEVICE {
        parse_register_device(body)
    } else if key == KEY_TOUCH_PACKET {
        parse_touch_packet(body)
    } else if key == KEY_SETTING_REQUEST {
        parse_setting_request(body)
    } else if key == KEY_EXIT {
        parse_exit(body)
    } else {
        None
    }
}

/// The message that the envelope `s` carries; `None` where `s` is truncated,
/// malformed or names no known variant.
pub open spec fn decode_payload(s: Seq<u8>) -> Option<PayloadModel> {
    if s.len() == 0 {
        None
    } else {
        match parse_bytes_field(s, s[0]) {
            None => None,
            Some((body, n)) => if n == s.len() {
                parse_body(s[0], body)
            } else {
                None
            },
        }
    }
}


// ---------------------------------------------------------------------------
// Encoding

fn encode_pointer(p: &Pointer) -> (r: Vec<u8>)
    ensures
        r@ == pointer_body(*p),
{
    let mut out: Vec<u8> = Vec::new();
    push_uint_field(&mut out, F1_INT, p.id as u64);
    push_uint_field(&mut out, F2_INT, i32_to_wire(p.event_type));
    push_uint_field(&mut out, F3_INT, p.abs_x as u64);
    push_uint_field(&mut out, F4_INT, p.abs_y as u64);
    assert(out@ =~= pointer_body(*p));
    out
}

fn push_pointers(out: &mut Vec<u8>, ps: &Vec<Pointer>)
    ensures
        final(out)@ == old(out)@ + pointers_bytes(ps@),
{
    let mut i: usize = 0;
    assert(ps@.subrange(0, ps@.len() as int) =~= ps@);
    while i < ps.len()
        invariant
            i <= ps@.len(),
            out@ + pointers_bytes(ps@.subrange(i as int, ps@.len() as int)) == old(out)@
                + pointers_bytes(ps@),
        decreases ps@.len() - i,
    {
        let body = encode_pointer(&ps[i]);
        let ghost before = out@;
        push_bytes_field(out, F3_LEN, body.as_slice());
        proof {
            let tail = ps@.subrange(i as int, ps@.len() as int);
            let next = ps@.subrange(i + 1, ps@.len() as int);
            assert(tail.drop_first() =~= next);
            assert(tail[0] == ps@[i as int]);
            assert(pointers_bytes(tail) == bytes_field(F3_LEN, pointer_body(ps@[i as int]))
                + pointers_bytes(next));
            assert(out@ + pointers_bytes(next) =~= before + pointers_bytes(tail));
        }
        i += 1;
    }
    assert(ps@.subrange(i as int, ps@.len() as int) =~= Seq::<Pointer>::empty());
    assert(out@ + pointers_bytes(Seq::<Pointer>::empty()) =~= out@);
}

fn encode_tune(t: &TuneSetting) -> (r: Vec<u8>)
    ensures
        r@ == tune_body(*t),
{
    let mut out: Vec<u8> = Vec::new();
    push_uint_field(&mut out, F1_INT, t.sensitivity_milli as u64);
    push_uint_field(&mut out, F2_INT, if t.invert_x { 1 } else { 0 });
    push_uint_field(&mut out, F3_INT, if t.invert_y { 1 } else { 0 });
    assert(out@ =~= tune_body(*t));
    out
}

/// The fields of `p`, without the envelope.
fn encode_body(p: &Payload) -> (r: Vec<u8>)
    ensures
        r@ == body_bytes(p@),
{
    let mut body: Vec<u8> = Vec::new();
    match p {
        Payload::Welcome(w) => {
            push_bytes_field(&mut body, F1_LEN, w.cert_der.as_slice());
            push_uint_field(&mut body, F2_INT, w.ts_ms);
        },
        Payload::Reject(r) => {
            push_uint_field(&mut body, F1_INT, i32_to_wire(r.reason));
        },
        Payload::HeartBeat => {},
        Payload::DiscoverValidation(d) => {
            push_uint_field(&mut body, F1_INT, d.checksum);
            push_uint_field(&mut body, F2_INT, d.send_ts);
            push_bytes_field(&mut body, F3_LEN, d.device_name.as_slice());
            push_bytes_field(&mut body, F4_LEN, d.random_key.as_slice());
            push_uint_field(&mut body, F5_INT, d.width as u64);
            push_uint_field(&mut body, F6_INT, d.height as u64);
        },
        Payload::RegisterDevice(d) => {
            push_bytes_field(&mut body, F1_LEN, d.device_name.as_slice());
            push_bytes_field(&mut body, F2_LEN, d.ip.as_slice());
            push_uint_field(&mut body, F3_INT, d.width as u64);
            push_uint_field(&mut body, F4_INT, d.height as u64);
            push_uint_field(&mut body, F5_INT, d.send_ts);
        },
        Payload::TouchPacket(t) => {
            push_uint_field(&mut body, F1_INT, t.seq as u64);
            push_uint_field(&mut body, F2_INT, i64_to_wire(t.ts_ms));
            push_pointers(&mut body, &t.pointers);
        },
        Payload::SettingRequest(t) => {
            let tb = encode_tune(t);
            push_bytes_field(&mut body, F1_LEN, tb.as_slice());
        },
        Payload::Exit(e) => {
            push_uint_field(&mut body, F1_INT, e.ts_ms);
        },
    }
    assert(body@ =~= body_bytes(p@));
    body
}

fn payload_key(p: &Payload) -> (r: u8)
    ensures
        r == envelope_key(p@),
{
    match p {
        Payload::Welcome(_) => KEY_WELCOME,
        Payload::Reject(_) => KEY_REJECT,
        Payload::HeartBeat => KEY_HEART_BEAT,
        Payload::DiscoverValidation(_) => KEY_DISCOVER_VALIDATION,
        Payload::RegisterDevice(_) => KEY_REGISTER_DEVICE,
        Payload::TouchPacket(_) => KEY_TOUCH_PACKET,
        Payload::SettingRequest(_) => KEY_SETTING_REQUEST,
        Payload::Exit(_) => KEY_EXIT,
    }
}

/// Encodes `p` in its envelope.
pub fn wrap(p: &Payload) -> (r: Vec<u8>)
    ensures
        r@ == encode_payload(p@),
{
    let body = encode_body(p);
    let mut out: Vec<u8> = Vec::new();
    push_bytes_field(&mut out, payload_key(p), body.as_slice());
    assert(out@ =~= encode_payload(p@));
    out
}

/// Encodes `p` in its envelope, prefixed with the envelope's length.
pub fn wrap_with_prefix(p: &Payload) -> (r: Vec<u8>)
    ensures
        r@ == frame_bytes(encode_payload(p@)),
{
    let data = wrap(p);
    encode_with_length_prefix(data.as_slice())
}

// ---------------------------------------------------------------------------
// Decoding

/// `r` is what `m` describes: the payload that it holds, or none.
pub open spec fn decoded_as(r: Option<Payload>, m: Option<PayloadModel>) -> bool {
    match m {
        Some(m) => r matches Some(p) && p@ == m,
        None => r is None,
    }
}

fn decode_pointer(b: &[u8]) -> (r: Option<Pointer>)
    ensures
        r == parse_pointer(b@),
{
    proof {
        reveal(parse_pointer);
        assert(suffix(b@, 0) =~= b@);
    }
    let (id, end1) = match read_uint_field(b, 0, F1_INT, u32::MAX as u64) {
        Some(x) => x,
        None => return None,
    };
    let (et, end2) = match read_uint_field(b, end1, F2_INT, u64::MAX) {
        Some(x) => x,
        None => return None,
    };
    let (x, end3) = match read_uint_field(b, end2, F3_INT, u32::MAX as u64) {
        Some(x) => x,
        None => return None,
    };
    let (y, end4) = match read_uint_field(b, end3, F4_INT, u32::MAX as u64) {
        Some(x) => x,
        None => return None,
    };
    if end4 != b.len() {
        return None;
    }
    match wire_to_i32(et) {
        Some(e) => Some(Pointer { id: id as u32, event_type: e, abs_x: x as u32, abs_y: y as u32 }),
        None => None,
    }
}

fn decode_pointers(b: &[u8], pos: usize) -> (r: Option<Vec<Pointer>>)
    requires
        pos <= b@.len(),
    ensures
        match parse_pointers(b@, pos as int) {
            Some(ps) => r matches Some(v) && v@ == ps,
            None => r is None,
        },
    decreases b@.len() - pos,
{
    if pos >= b.len() {
        return Some(Vec::new());
    }
    let (body, end) = match read_bytes_field(b, pos, F3_LEN) {
        Some(x) => x,
        None => return None,
    };
    if end == pos {
        return None;
    }
    let p = match decode_pointer(body.as_slice()) {
        Some(p) => p,
        None => return None,
    };
    let mut rest = match decode_pointers(b, end) {
        Some(v) => v,
        None => return None,
    };
    let ghost tail = rest@;
    rest.insert(0, p);
    assert(rest@ =~= seq![p] + tail);
    Some(rest)
}

fn decode_tune(b: &[u8]) -> (r: Option<TuneSetting>)
    ensures
        r == parse_tune(b@),
{
    proof {
        assert(suffix(b@, 0) =~= b@);
    }
    let (k, end1) = match read_uint_field(b, 0, F1_INT, u32::MAX as u64) {
        Some(x) => x,
        None => return None,
    };
    let (ix, end2) = match read_uint_field(b, end1, F2_INT, 1) {
        Some(x) => x,
        None => return None,
    };
    let (iy, end3) = match read_uint_field(b, end2, F3_INT, 1) {
        Some(x) => x,
        None => return None,
    };
    if end3 != b.len() {
        return None;
    }
    Some(TuneSetting { sensitivity_milli: k as u32, invert_x: ix == 1, invert_y: iy == 1 })
}

fn decode_welcome(b: &[u8]) -> (r: Option<Payload>)
    ensures
        decoded_as(r, parse_welcome(b@)),
{
    proof {
        assert(suffix(b@, 0) =~= b@);
    }
    let (cert, end1) = match read_bytes_field(b, 0, F1_LEN) {
        Some(x) => x,
        None => return None,
    };
    let (ts, end2) = match read_uint_field(b, end1, F2_INT, u64::MAX) {
        Some(x) => x,
        None => return None,
    };
    if end2 != b.len() {
        return None;
    }
    Some(Payload::Welcome(Welcome { cert_der: cert, ts_ms: ts }))
}

fn decode_reject(b: &[u8]) -> (r: Option<Payload>)
    ensures
        decoded_as(r, parse_reject(b@)),
{
    proof {
        assert(suffix(b@, 0) =~= b@);
    }
    let (w, end1) = match read_uint_field(b, 0, F1_INT, u64::MAX) {
        Some(x) => x,
        None => return None,
    };
    if end1 != b.len() {
        return None;
    }
    match wire_to_i32(w) {
        Some(reason) => Some(Payload::Reject(Reject { reason })),
        None => None,
    }
}

fn decode_discover_validation(b: &[u8]) -> (r: Option<Payload>)
    ensures
        decoded_as(r, parse_discover_validation(b@)),
{
    proof {
        assert(suffix(b@, 0) =~= b@);
    }
    let (checksum, end1) = match read_uint_field(b, 0, F1_INT, u64::MAX) {
        Some(x) => x,
        None => return None,
    };
    let (send_ts, end2) = match read_uint_field(b, end1, F2_INT, u64::MAX) {
        Some(x) => x,
        None => return None,
    };
    let (device_name, end3) = match read_bytes_field(b, end2, F3_LEN) {
        Some(x) => x,
        None => return None,
    };
    let (random_key, end4) = match read_bytes_field(b, end3, F4_LEN) {
        Some(x) => x,
        None => return None,
    };
    let (width, end5) = match read_uint_field(b, end4, F5_INT, u32::MAX as u64) {
        Some(x) => x,
        None => return None,
    };
    let (height, end6) = match read_uint_field(b, end5, F6_INT, u32::MAX as u64) {
        Some(x) => x,
        None => return None,
    };
    if end6 != b.len() {
        return None;
    }
    Some(
        Payload::DiscoverValidation(
            DiscoverValidation {
                checksum,
                send_ts,
                device_name,
                random_key,
                width: width as u32,
                height: height as u32,
            },
        ),
    )
}

fn decode_register_device(b: &[u8]) -> (r: Option<Payload>)
    ensures
        decoded_as(r, parse_register_device(b@)),
{
    proof {
        assert(suffix(b@, 0) =~= b@);
    }
    let (device_name, end1) = match read_bytes_field(b, 0, F1_LEN) {
        Some(x) => x,
        None => return None,
    };
    let (ip, end2) = match read_bytes_field(b, end1, F2_LEN) {
        Some(x) => x,
        None => return None,
    };
    let (width, end3) = match read_uint_field(b, end2, F3_INT, u32::MAX as u64) {
        Some(x) => x,
        None => return None,
    };
    let (height, end4) = match read_uint_field(b, end3, F4_INT, u32::MAX as u64) {
        Some(x) => x,
        None => return None,
    };
    let (send_ts, end5) = match read_uint_field(b, end4, F5_INT, u64::MAX) {
        Some(x) => x,
        None => return None,
    };
    if end5 != b.len() {
        return None;
    }
    Some(
        Payload::RegisterDevice(
            RegisterDevice {
                device_name,
                ip,
                width: width as u32,
                height: height as u32,
                send_ts,
            },
        ),
    )
}

fn decode_touch_packet(b: &[u8]) -> (r: Option<Payload>)
    ensures
        decoded_as(r, parse_touch_packet(b@)),
{
    proof {
        assert(suffix(b@, 0) =~= b@);
    }
    let (seq, end1) = match read_uint_field(b, 0, F1_INT, u32::MAX as u64) {
        Some(x) => x,
        None => return None,
    };
    let (ts, end2) = match read_uint_field(b, end1, F2_INT, u64::MAX) {
        Some(x) => x,
        None => return None,
    };
    let ts_ms = match wire_to_i64(ts) {
        Some(t) => t,
        None => return None,
    };
    let pointers = match decode_pointers(b, end2) {
        Some(v) => v,
        None => return None,
    };
    Some(Payload::TouchPacket(TouchPacket { seq: seq as u32, ts_ms, pointers }))
}

fn decode_setting_request(b: &[u8]) -> (r: Option<Payload>)
    ensures
        decoded_as(r, parse_setting_request(b@)),
{
    proof {
        assert(suffix(b@, 0) =~= b@);
    }
    let (body, end1) = match read_bytes_field(b, 0, F1_LEN) {
        Some(x) => x,
        None => return None,
    };
    if end1 != b.len() {
        return None;
    }
    match decode_tune(body.as_slice()) {
        Some(value) => Some(Payload::SettingRequest(value)),
        None => None,
    }
}

fn decode_exit(b: &[u8]) -> (r: Option<Payload>)
    ensures
        decoded_as(r, parse_exit(b@)),
{
    proof {
        assert(suffix(b@, 0) =~= b@);
    }
    let (ts, end1) = match read_uint_field(b, 0, F1_INT, u64::MAX) {
        Some(x) => x,
        None => return None,
    };
    if end1 != b.len() {
        return None;
    }
    Some(Payload::Exit(Exit { ts_ms: ts }))
}

/// Decodes an envelope. Fails with `Decode` on a truncated or malformed
/// envelope and on an unknown variant.
pub fn dewrap(buf: &[u8]) -> (r: Result<Payload, FrameError>)
    ensures
        match decode_payload(buf@) {
            Some(m) => r matches Ok(p) && p@ == m,
            None => r == Err::<Payload, FrameError>(FrameError::Decode),
        },
{
    if buf.len() == 0 {
        return Err(FrameError::Decode);
    }
    let key = buf[0];
    proof {
        assert(suffix(buf@, 0) =~= buf@);
    }
    let (body, n) = match read_bytes_field(buf, 0, key) {
        Some(x) => x,
        None => return Err(FrameError::Decode),
    };
    if n != buf.len() {
        return Err(FrameError::Decode);
    }
    let b = body.as_slice();
    let r = if key == KEY_WELCOME {
        decode_welcome(b)
    } else if key == KEY_REJECT {
        decode_reject(b)
    } else if key == KEY_HEART_BEAT {
        if b.len() == 0 {
            Some(Payload::HeartBeat)
        } else {
            None
        }
    } else if key == KEY_DISCOVER_VALIDATION {
        decode_discover_validation(b)
    } else if key == KEY_REGISTER_DEVICE {
        decode_register_device(b)
    } else if key == KEY_TOUCH_PACKET {
        decode_touch_packet(b)
    } else if key == KEY_SETTING_REQUEST {
        decode_setting_request(b)
    } else if key == KEY_EXIT {
        decode_exit(b)
    } else {
        None
    };
    match r {
        Some(p) => Ok(p),
        None => Err(FrameError::Decode),
    }
}

/// Reads one frame from the front of `s` and decodes its envelope: the
/// message and the bytes that the frame took.
pub open spec fn read_payload_spec(s: Seq<u8>) -> Result<(PayloadModel, nat), FrameError> {
    match read_frame_spec(s) {
        Err(e) => Err(e),
        Ok((body, n)) => match decode_payload(body) {
            Some(m) => Ok((m, n)),
            None => Err(FrameError::Decode),
        },
    }
}

/// Reads one frame from the front of `buf` and decodes it: `Truncated` where
/// the input ends inside the frame, `OverLength` where the prefix announces
/// more than the body limit, `Decode` where the body is no envelope.
pub fn read_frame(buf: &[u8]) -> (r: Result<(Payload, usize), FrameError>)
    ensures
        match read_payload_spec(buf@) {
            Ok((m, n)) => r matches Ok((p, e)) && p@ == m && e == n,
            Err(err) => r matches Err(x) && x == err,
        },
{
    let (body, n) = match read_message_with_length_prefix_sync(buf) {
        Ok(x) => x,
        Err(e) => return Err(e),
    };
    match dewrap(body.as_slice()) {
        Ok(p) => Ok((p, n)),
        Err(e) => Err(e),
    }
}


// ---------------------------------------------------------------------------
// Round trip

proof fn lemma_i32_wire(v: i32)
    ensures
        signed_wire(v as int) <= u64::MAX,
        wire_i32(signed_wire(v as int)) == Some(v),
{
}

proof fn lemma_i64_wire(v: i64)
    ensures
        signed_wire(v as int) <= u64::MAX,
        wire_i64(signed_wire(v as int)) == Some(v),
{
}

proof fn lemma_pointer_round_trip(p: Pointer)
    ensures
        parse_pointer(pointer_body(p)) == Some(p),
        pointer_body(p).len() <= 44,
{
    reveal(parse_pointer);
    let w = signed_wire(p.event_type as int);
    lemma_i32_wire(p.event_type);
    let a = uint_field(F1_INT, p.id as nat);
    let b = uint_field(F2_INT, w);
    let c = uint_field(F3_INT, p.abs_x as nat);
    let d = uint_field(F4_INT, p.abs_y as nat);
    lemma_u64_fits_varint(p.id as nat);
    lemma_u64_fits_varint(w);
    lemma_u64_fits_varint(p.abs_x as nat);
    lemma_u64_fits_varint(p.abs_y as nat);
    let s = pointer_body(p);
    assert(s =~= a + (b + c + d));
    lemma_uint_field(F1_INT, p.id as nat, u32_max(), b + c + d);
    assert(suffix(s, a.len() as int) =~= b + (c + d));
    lemma_uint_field(F2_INT, w, u64_max(), c + d);
    assert(suffix(s, (a.len() + b.len()) as int) =~= c + d);
    lemma_uint_field(F3_INT, p.abs_x as nat, u32_max(), d);
    assert(suffix(s, (a.len() + b.len() + c.len()) as int) =~= d + Seq::<u8>::empty());
    lemma_uint_field(F4_INT, p.abs_y as nat, u32_max(), Seq::<u8>::empty());
}

#[verifier::spinoff_prover]
#[verifier::rlimit(40)]
proof fn lemma_pointers_round_trip(pre: Seq<u8>, ps: Seq<Pointer>)
    ensures
        parse_pointers(pre + pointers_bytes(ps), pre.len() as int) == Some(ps),
    decreases ps.len(),
{
    let s = pre + pointers_bytes(ps);
    if ps.len() == 0 {
        assert(s.len() == pre.len());
        assert(ps =~= Seq::<Pointer>::empty());
    } else {
        let body = pointer_body(ps[0]);
        let f = bytes_field(F3_LEN, body);
        let tail = pointers_bytes(ps.drop_first());
        let pos = pre.len() as int;
        lemma_pointer_round_trip(ps[0]);
        assert(suffix(s, pos) =~= f + tail);
        lemma_bytes_field(F3_LEN, body, tail);
        assert(parse_bytes_field(suffix(s, pos), F3_LEN) == Some((body, f.len())));
        assert(s =~= (pre + f) + tail);
        lemma_pointers_round_trip(pre + f, ps.drop_first());
        assert(parse_pointers(s, pos + f.len()) == Some(ps.drop_first()));
        assert(seq![ps[0]] + ps.drop_first() =~= ps);
    }
}

proof fn lemma_tune_round_trip(t: TuneSetting)
    ensures
        parse_tune(tune_body(t)) == Some(t),
        tune_body(t).len() <= 33,
{
    let a = uint_field(F1_INT, t.sensitivity_milli as nat);
    let b = uint_field(F2_INT, bool_wire(t.invert_x));
    let c = uint_field(F3_INT, bool_wire(t.invert_y));
    lemma_u64_fits_varint(t.sensitivity_milli as nat);
    lemma_u64_fits_varint(bool_wire(t.invert_x));
    lemma_u64_fits_varint(bool_wire(t.invert_y));
    let s = tune_body(t);
    assert(s =~= a + (b + c));
    lemma_uint_field(F1_INT, t.sensitivity_milli as nat, u32_max(), b + c);
    assert(suffix(s, a.len() as int) =~= b + c);
    lemma_uint_field(F2_INT, bool_wire(t.invert_x), 1, c);
    assert(suffix(s, (a.len() + b.len()) as int) =~= c + Seq::<u8>::empty());
    lemma_uint_field(F3_INT, bool_wire(t.invert_y), 1, Seq::<u8>::empty());
}

#[verifier::spinoff_prover]
proof fn lemma_discover_validation_round_trip(m: PayloadModel)
    requires
        m is DiscoverValidation,
        body_bytes(m).len() <= u64::MAX,
    ensures
        parse_discover_validation(body_bytes(m)) == Some(m),
{
    let s = body_bytes(m);
    let e = Seq::<u8>::empty();
    if let PayloadModel::DiscoverValidation { checksum, send_ts, device_name, random_key, width, height } = m {
        let f1 = uint_field(F1_INT, checksum as nat);
        let f2 = uint_field(F2_INT, send_ts as nat);
        let f3 = bytes_field(F3_LEN, device_name);
        let f4 = bytes_field(F4_LEN, random_key);
        let f5 = uint_field(F5_INT, width as nat);
        let f6 = uint_field(F6_INT, height as nat);
        assert(s =~= f1 + (f2 + f3 + f4 + f5 + f6));
        lemma_uint_field(F1_INT, checksum as nat, u64_max(), f2 + f3 + f4 + f5 + f6);
        let k1 = f1.len() as int;
        assert(suffix(s, k1) =~= f2 + (f3 + f4 + f5 + f6));
        lemma_uint_field(F2_INT, send_ts as nat, u64_max(), f3 + f4 + f5 + f6);
        let k2 = k1 + f2.len();
        assert(suffix(s, k2) =~= f3 + (f4 + f5 + f6));
        lemma_bytes_field(F3_LEN, device_name, f4 + f5 + f6);
        let k3 = k2 + f3.len();
        assert(suffix(s, k3) =~= f4 + (f5 + f6));
        lemma_bytes_field(F4_LEN, random_key, f5 + f6);
        let k4 = k3 + f4.len();
        assert(suffix(s, k4) =~= f5 + f6);
        lemma_uint_field(F5_INT, width as nat, u32_max(), f6);
        let k5 = k4 + f5.len();
        assert(suffix(s, k5) =~= f6 + e);
        lemma_uint_field(F6_INT, height as nat, u32_max(), e);
    }
}

#[verifier::spinoff_prover]
proof fn lemma_register_device_round_trip(m: PayloadModel)
    requires
        m is RegisterDevice,
        body_bytes(m).len() <= u64::MAX,
    ensures
        parse_register_device(body_bytes(m)) == Some(m),
{
    let s = body_bytes(m);
    let e = Seq::<u8>::empty();
    if let PayloadModel::RegisterDevice { device_name, ip, width, height, send_ts } = m {
        let f1 = bytes_field(F1_LEN, device_name);
        let f2 = bytes_field(F2_LEN, ip);
        let f3 = uint_field(F3_INT, width as nat);
        let f4 = uint_field(F4_INT, height as nat);
        let f5 = uint_field(F5_INT, send_ts as nat);
        assert(s =~= f1 + (f2 + f3 + f4 + f5));
        lemma_bytes_field(F1_LEN, device_name, f2 + f3 + f4 + f5);
        let k1 = f1.len() as int;
        assert(suffix(s, k1) =~= f2 + (f3 + f4 + f5));
        lemma_bytes_field(F2_LEN, ip, f3 + f4 + f5);
        let k2 = k1 + f2.len();
        assert(suffix(s, k2) =~= f3 + (f4 + f5));
        lemma_uint_field(F3_INT, width as nat, u32_max(), f4 + f5);
        let k3 = k2 + f3.len();
        assert(suffix(s, k3) =~= f4 + f5);
        lemma_uint_field(F4_INT, height as nat, u32_max(), f5);
        let k4 = k3 + f4.len();
        assert(suffix(s, k4) =~= f5 + e);
        lemma_uint_field(F5_INT, send_ts as nat, u64_max(), e);
    }
}

#[verifier::spinoff_prover]
#[verifier::rlimit(60)]
proof fn lemma_body_round_trip(m: PayloadModel)
    requires
        body_bytes(m).len() <= u64::MAX,
    ensures
        parse_body(envelope_key(m), body_bytes(m)) == Some(m),
{
    let s = body_bytes(m);
    let e = Seq::<u8>::empty();
    match m {
        PayloadModel::Welcome { cert_der, ts_ms } => {
            let a = bytes_field(F1_LEN, cert_der);
            let b = uint_field(F2_INT, ts_ms as nat);
            lemma_bytes_field(F1_LEN, cert_der, b);
            assert(suffix(s, a.len() as int) =~= b + e);
            lemma_uint_field(F2_INT, ts_ms as nat, u64_max(), e);
        },
        PayloadModel::Reject { reason } => {
            lemma_i32_wire(reason);
            assert(s =~= s + e);
            lemma_uint_field(F1_INT, signed_wire(reason as int), u64_max(), e);
        },
        PayloadModel::HeartBeat => {},
        PayloadModel::DiscoverValidation { .. } => {
            lemma_discover_validation_round_trip(m);
        },
        PayloadModel::RegisterDevice { .. } => {
            lemma_register_device_round_trip(m);
        },
        PayloadModel::TouchPacket { seq, client_ts_ms, pointers } => {
            let w = signed_wire(client_ts_ms as int);
            lemma_i64_wire(client_ts_ms);
            let f1 = uint_field(F1_INT, seq as nat);
            let f2 = uint_field(F2_INT, w);
            let f3 = pointers_bytes(pointers);
            assert(s =~= f1 + (f2 + f3));
            lemma_uint_field(F1_INT, seq as nat, u32_max(), f2 + f3);
            assert(suffix(s, f1.len() as int) =~= f2 + f3);
            lemma_uint_field(F2_INT, w, u64_max(), f3);
            lemma_pointers_round_trip(f1 + f2, pointers);
        },
        PayloadModel::SettingRequest { value } => {
            lemma_tune_round_trip(value);
            assert(s =~= s + e);
            lemma_bytes_field(F1_LEN, tune_body(value), e);
        },
        PayloadModel::Exit { ts_ms } => {
            assert(s =~= s + e);
            lemma_uint_field(F1_INT, ts_ms as nat, u64_max(), e);
        },
    }
}

/// Decoding the encoding of a message gives the message back, for every
/// variant and every message whose encoding can be held in memory.
pub proof fn lemma_payload_round_trip(m: PayloadModel)
    requires
        encodable(m),
    ensures
        decode_payload(encode_payload(m)) == Some(m),
{
    let s = encode_payload(m);
    let body = body_bytes(m);
    lemma_body_round_trip(m);
    assert(s =~= s + Seq::<u8>::empty());
    lemma_bytes_field(envelope_key(m), body, Seq::<u8>::empty());
}

/// A message that fits in one frame is read back from its frame, whatever
/// follows the frame.
pub proof fn lemma_frame_payload_round_trip(m: PayloadModel, rest: Seq<u8>)
    requires
        encode_payload(m).len() <= MAX_MESSAGE_LENGTH,
    ensures
        read_payload_spec(frame_bytes(encode_payload(m)) + rest) == Ok::<(PayloadModel, nat), FrameError>(
            (m, frame_bytes(encode_payload(m)).len()),
        ),
{
    lemma_frame_round_trip(encode_payload(m), rest);
    lemma_payload_round_trip(m);
}

} // verus!
