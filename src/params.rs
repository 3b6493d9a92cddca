//! Parameters shared with the client, and random strings.

use vstd::prelude::*;
use rand::Rng;

verus! {

/// The shared seed whose digest a client proves it knows.
pub const SEED: &'static str = "0x1234567890ABCDEF";

/// The service type under which the host is advertised.
pub const MDNS_SERVICE_TYPE: &'static str = "_touchpad._tcp.local.";

/// The shared seed.
pub fn hash_seed() -> (r: &'static str)
    ensures
        r@ == SEED@,
{
    SEED
}

/// The service type under which the host is advertised.
pub fn mdns_server_type() -> (r: &'static str)
    ensures
        r@ == MDNS_SERVICE_TYPE@,
{
    MDNS_SERVICE_TYPE
}

/// An ASCII letter, upper or lower case.
pub open spec fn is_ascii_letter(b: u8) -> bool {
    (65 <= b <= 90) || (97 <= b <= 122)
}

/// Relies on `rand::distr::Alphabetic` sampled with `rand::rng()`: a byte
/// drawn uniformly from `A`-`Z` and `a`-`z`.
#[verifier::external_body]
fn random_letter() -> (r: u8)
    ensures
        is_ascii_letter(r),
{
    rand::rng().sample(rand::distr::Alphabetic)
}

/// Relies on `String::from_utf8`: ASCII bytes are valid UTF-8, each byte one
/// character.
#[verifier::external_body]
fn ascii_to_string(bytes: Vec<u8>) -> (r: String)
    requires
        forall|i: int| 0 <= i < bytes@.len() ==> bytes@[i] < 128,
    ensures
        r@.len() == bytes@.len(),
        forall|i: int| 0 <= i < bytes@.len() ==> r@[i] == (bytes@[i] as char),
{
    match String::from_utf8(bytes) {
        Ok(s) => s,
        Err(_) => String::new(),
    }
}

/// A string of `len` random ASCII letters.
pub fn rand_string(len: usize) -> (r: String)
    ensures
        r@.len() == len,
        forall|i: int|
            0 <= i < len ==> (('A' <= #[trigger] r@[i] <= 'Z') || ('a' <= r@[i] <= 'z')),
{
    let mut bytes: Vec<u8> = Vec::new();
    let mut i: usize = 0;
    while i < len
        invariant
            i <= len,
            bytes@.len() == i,
            forall|k: int| 0 <= k < i ==> is_ascii_letter(#[trigger] bytes@[k]),
        decreases len - i,
    {
        bytes.push(random_letter());
        i = i + 1;
    }
    let ghost b = bytes@;
    let s = ascii_to_string(bytes);
    assert forall|k: int| 0 <= k < len implies (('A' <= #[trigger] s@[k] <= 'Z') || ('a' <= s@[k]
        <= 'z')) by {
        assert(is_ascii_letter(b[k]));
        assert(s@[k] == (b[k] as char));
    }
    s
}

} // verus!
