//! Base-128 variable-length integers and length-prefixed frames.

use vstd::prelude::*;
use vstd::slice::slice_subrange;
use vstd::slice::slice_to_vec;

verus! {

/// Largest body length that a frame may announce.
pub const MAX_MESSAGE_LENGTH: u32 = 4096;

/// Most bytes that a frame's length prefix may occupy.
pub const MAX_PREFIX_BYTES: usize = 5;

/// Why a frame could not be read.
#[derive(Debug, Clone, Copy, PartialEq, Eq, Structural)]
pub enum FrameError {
    /// The input ended in the middle of a frame.
    Truncated,
    /// The length prefix announces more than the allowed body length, or is
    /// longer than its byte limit.
    OverLength,
    /// The body is not a well-formed message envelope.
    Decode,
}

/// The little-endian base-128 encoding of `x`: seven bits per byte, the high
/// bit set on every byte but the last.
pub open spec fn varint_bytes(x: nat) -> Seq<u8>
    decreases x,
{
    if x < 128 {
        seq![x as u8]
    } else {
        seq![(x % 128 + 128) as u8] + varint_bytes(x / 128)
    }
}

/// Reads a base-128 integer from the front of `s`, using at most `max` bytes.
/// On success gives the value and the number of bytes it occupied.
pub open spec fn parse_varint(s: Seq<u8>, max: nat) -> Result<(nat, nat), FrameError>
    decreases max,
{
    if s.len() == 0 {
        Err(FrameError::Truncated)
    } else if max == 0 {
        Err(FrameError::OverLength)
    } else if s[0] < 128 {
        Ok((s[0] as nat, 1))
    } else {
        match parse_varint(s.drop_first(), (max - 1) as nat) {
            Ok((v, n)) => Ok((((s[0] - 128) + 128 * v) as nat, n + 1)),
            Err(e) => Err(e),
        }
    }
}

/// `128` raised to `k`.
pub open spec fn pow128(k: nat) -> nat
    decreases k,
{
    if k == 0 {
        1
    } else {
        128 * pow128((k - 1) as nat)
    }
}

/// The suffix of `s` from `pos` on.
pub open spec fn suffix(s: Seq<u8>, pos: int) -> Seq<u8> {
    s.subrange(pos, s.len() as int)
}

/// Powers of `128` are positive, and at least `128` from the first on.
pub proof fn lemma_pow128_pos(k: nat)
    ensures
        pow128(k) >= 1,
        k >= 1 ==> pow128(k) >= 128,
    decreases k,
{
    if k > 0 {
        lemma_pow128_pos((k - 1) as nat);
    }
}

/// A varint of a value below `128^k` takes at most `k` bytes.
pub proof fn lemma_varint_len(x: nat, k: nat)
    requires
        x < pow128(k),
        k >= 1,
    ensures
        1 <= varint_bytes(x).len() <= k,
    decreases x,
{
    if x >= 128 {
        if k == 1 {
            assert(pow128(1) == 128 * pow128(0));
        }
        let p = pow128((k - 1) as nat);
        assert(pow128(k) == 128 * p);
        assert(x / 128 < p) by (nonlinear_arith)
            requires
                x < 128 * p,
        ;
        lemma_varint_len(x / 128, (k - 1) as nat);
    }
}

/// Reading back the encoding of `x` gives `x` and the encoding's length,
/// whatever follows it.
pub proof fn lemma_varint_round_trip(x: nat, rest: Seq<u8>, max: nat)
    requires
        varint_bytes(x).len() <= max,
    ensures
        parse_varint(varint_bytes(x) + rest, max) == Ok::<(nat, nat), FrameError>(
            (x, varint_bytes(x).len()),
        ),
    decreases x,
{
    let s = varint_bytes(x) + rest;
    if x < 128 {
        assert(s[0] == x as u8);
    } else {
        let t = varint_bytes(x / 128);
        lemma_varint_round_trip(x / 128, rest, (max - 1) as nat);
        assert(s.drop_first() =~= t + rest);
        assert(s[0] == (x % 128 + 128) as u8);
    }
}

/// Appends the base-128 encoding of `x` to `out`.
pub fn push_varint(out: &mut Vec<u8>, x: u64)
    ensures
        final(out)@ == old(out)@ + varint_bytes(x as nat),
{
    let mut v: u64 = x;
    while v >= 128
        invariant
            out@ + varint_bytes(v as nat) == old(out)@ + varint_bytes(x as nat),
        decreases v,
    {
        let b: u8 = (v % 128 + 128) as u8;
        let ghost before = out@;
        out.push(b);
        assert(varint_bytes(v as nat) == seq![b] + varint_bytes((v / 128) as nat));
        assert(out@ + varint_bytes((v / 128) as nat) =~= before + varint_bytes(v as nat));
        v = v / 128;
    }
    let ghost before = out@;
    out.push(v as u8);
    assert(out@ =~= before + varint_bytes(v as nat));
}

/// Appends `data` to `out`.
pub fn push_bytes(out: &mut Vec<u8>, data: &[u8])
    ensures
        final(out)@ == old(out)@ + data@,
{
    let mut i: usize = 0;
    while i < data.len()
        invariant
            i <= data@.len(),
            out@ == old(out)@ + data@.subrange(0, i as int),
        decreases data@.len() - i,
    {
        out.push(data[i]);
        i = i + 1;
        assert(out@ =~= old(out)@ + data@.subrange(0, i as int));
    }
    assert(data@.subrange(0, i as int) =~= data@);
}

/// Reads a base-128 integer from `buf` at `pos`, using at most `max` bytes.
/// Gives the value and the position just after it; a value that does not fit
/// in 64 bits is refused as `OverLength`.
pub fn read_varint_at(buf: &[u8], pos: usize, max: usize) -> (r: Result<(u64, usize), FrameError>)
    requires
        pos <= buf@.len(),
    ensures
        match parse_varint(suffix(buf@, pos as int), max as nat) {
            Ok((v, n)) => if v <= u64::MAX {
                r == Ok::<(u64, usize), FrameError>((v as u64, (pos + n) as usize))
            } else {
                r == Err::<(u64, usize), FrameError>(FrameError::OverLength)
            },
            Err(e) => r == Err::<(u64, usize), FrameError>(e),
        },
    decreases max,
{
    let ghost s = suffix(buf@, pos as int);
    if pos >= buf.len() {
        return Err(FrameError::Truncated);
    }
    if max == 0 {
        return Err(FrameError::OverLength);
    }
    let b = buf[pos];
    assert(s[0] == b);
    if b < 128 {
        return Ok((b as u64, pos + 1));
    }
    assert(suffix(buf@, pos + 1) =~= s.drop_first());
    match read_varint_at(buf, pos + 1, max - 1) {
        Ok((v, end)) => {
            if v > (u64::MAX - 127) / 128 {
                Err(FrameError::OverLength)
            } else {
                Ok(((b - 128) as u64 + 128 * v, end))
            }
        },
        Err(e) => Err(e),
    }
}

/// Reads a frame's length prefix from the front of `buf`: the value and the
/// number of bytes that it took.
pub fn read_varint(buf: &[u8]) -> (r: Result<(u64, usize), FrameError>)
    ensures
        match parse_varint(buf@, MAX_PREFIX_BYTES as nat) {
            Ok((v, n)) => r == Ok::<(u64, usize), FrameError>((v as u64, n as usize)),
            Err(e) => r == Err::<(u64, usize), FrameError>(e),
        },
{
    proof {
        assert(suffix(buf@, 0) =~= buf@);
        lemma_parse_varint_bound(buf@, 5);
        reveal_with_fuel(pow128, 6);
    }
    read_varint_at(buf, 0, MAX_PREFIX_BYTES)
}

/// A value read with at most `max` bytes is below `128^max`, and took
/// between one and `max` bytes of the input.
pub proof fn lemma_parse_varint_bound(s: Seq<u8>, max: nat)
    ensures
        parse_varint(s, max) matches Ok((v, n)) ==> (v < pow128(max) && 1 <= n <= max && n
            <= s.len()),
    decreases max,
{
    lemma_pow128_pos(max);
    if s.len() > 0 && max > 0 && s[0] >= 128 {
        lemma_parse_varint_bound(s.drop_first(), (max - 1) as nat);
        if let Ok((v, n)) = parse_varint(s.drop_first(), (max - 1) as nat) {
            let p = pow128((max - 1) as nat);
            assert(pow128(max) == 128 * p);
            let b = (s[0] - 128) as nat;
            assert(b + 128 * v < 128 * p) by (nonlinear_arith)
                requires
                    v < p,
                    b < 128,
            ;
        }
    }
}

/// Whether a frame may announce a body of `length` bytes.
pub fn is_valid_message_length(length: u32) -> (r: bool)
    ensures
        r == (0 < length <= MAX_MESSAGE_LENGTH),
{
    length > 0 && length <= MAX_MESSAGE_LENGTH
}

/// The frame that carries `data`: its length as a base-128 prefix, then the
/// bytes themselves.
pub open spec fn frame_bytes(data: Seq<u8>) -> Seq<u8> {
    varint_bytes(data.len()) + data
}

/// Prefixes `data` with its length.
pub fn encode_with_length_prefix(data: &[u8]) -> (r: Vec<u8>)
    ensures
        r@ == frame_bytes(data@),
{
    let mut out: Vec<u8> = Vec::new();
    push_varint(&mut out, data.len() as u64);
    push_bytes(&mut out, data);
    out
}

/// Takes `length` bytes of `buf` from `pos` on.
pub fn read_exact_bytes(buf: &[u8], pos: usize, length: usize) -> (r: Result<Vec<u8>, FrameError>)
    requires
        pos <= buf@.len(),
    ensures
        pos + length <= buf@.len() ==> (r matches Ok(v) && v@ == buf@.subrange(
            pos as int,
            pos + length,
        )),
        pos + length > buf@.len() ==> r == Err::<Vec<u8>, FrameError>(FrameError::Truncated),
{
    if length > buf.len() - pos {
        return Err(FrameError::Truncated);
    }
    let part = slice_subrange(buf, pos, pos + length);
    Ok(slice_to_vec(part))
}

/// Reads one frame from the front of `s`: the body and the number of bytes
/// that the whole frame took. The prefix is read first; a prefix above the
/// body limit fails before any byte of the body is looked at.
pub open spec fn read_frame_spec(s: Seq<u8>) -> Result<(Seq<u8>, nat), FrameError> {
    match parse_varint(s, MAX_PREFIX_BYTES as nat) {
        Err(e) => Err(e),
        Ok((len, n)) => if len > MAX_MESSAGE_LENGTH {
            Err(FrameError::OverLength)
        } else if n + len > s.len() {
            Err(FrameError::Truncated)
        } else {
            Ok((s.subrange(n as int, (n + len) as int), n + len))
        },
    }
}

/// Reads one frame from the front of `buf`: its body, and the number of bytes
/// that the frame took.
pub fn read_message_with_length_prefix_sync(buf: &[u8]) -> (r: Result<(Vec<u8>, usize), FrameError>)
    ensures
        match read_frame_spec(buf@) {
            Ok((body, end)) => r matches Ok((v, e)) && v@ == body && e == end,
            Err(err) => r == Err::<(Vec<u8>, usize), FrameError>(err),
        },
{
    let (len, n) = match read_varint(buf) {
        Ok(x) => x,
        Err(e) => return Err(e),
    };
    proof {
        lemma_parse_varint_bound(buf@, 5);
        reveal_with_fuel(pow128, 6);
    }
    if len > MAX_MESSAGE_LENGTH as u64 {
        return Err(FrameError::OverLength);
    }
    match read_exact_bytes(buf, n, len as usize) {
        Ok(body) => Ok((body, n + len as usize)),
        Err(e) => Err(e),
    }
}

/// Kept for callers that tune the body limit: the limit is fixed, so this
/// changes nothing.
pub fn set_max_message_length(_max_length: u32) {
}

/// A frame whose prefix announces more than the body limit is refused as
/// `OverLength`, whatever follows the prefix.
pub proof fn lemma_oversize_rejected(length: nat, rest: Seq<u8>)
    requires
        MAX_MESSAGE_LENGTH < length < pow128(MAX_PREFIX_BYTES as nat),
    ensures
        read_frame_spec(varint_bytes(length) + rest) == Err::<(Seq<u8>, nat), FrameError>(
            FrameError::OverLength,
        ),
{
    lemma_varint_len(length, 5);
    lemma_varint_round_trip(length, rest, 5);
}

/// Reading the frame of `data` gives `data` back, whatever follows the frame.
pub proof fn lemma_frame_round_trip(data: Seq<u8>, rest: Seq<u8>)
    requires
        data.len() <= MAX_MESSAGE_LENGTH,
    ensures
        read_frame_spec(frame_bytes(data) + rest) == Ok::<(Seq<u8>, nat), FrameError>(
            (data, frame_bytes(data).len()),
        ),
{
    reveal_with_fuel(pow128, 3);
    lemma_varint_len(data.len(), 2);
    let s = frame_bytes(data) + rest;
    assert(s =~= varint_bytes(data.len()) + (data + rest));
    lemma_varint_round_trip(data.len(), data + rest, 5);
    let n = varint_bytes(data.len()).len();
    assert(s.subrange(n as int, (n + data.len()) as int) =~= data);
}

} // verus!
