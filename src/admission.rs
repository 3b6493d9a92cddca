//! Admission of clients: one round trip in which a client proves that it
//! knows the shared seed and receives the host certificate.

use vstd::prelude::*;
use vstd::slice::slice_to_vec;
use crate::message::{
    DiscoverValidation, Payload, PayloadModel, Reject, Welcome, read_payload_spec, read_frame,
    REJECT_HELLO_CHECKSUM_MISMATCH, REJECT_PROTOCOL_VIOLATION, REJECT_REPEATEDLY_ADDING_DEVICES,
};
use crate::registry::{Device, DeviceRegistry, IpAddress, device_is, has_ip};
use crate::varint::FrameError;

verus! {

/// The 64-bit XXH3 digest of `b`.
pub uninterp spec fn xxh3_of(b: Seq<u8>) -> u64;

/// Relies on `xxhash_rust::xxh3::xxh3_64`: the 64-bit XXH3 digest of the
/// bytes, with the default secret and no seed; it depends on the bytes alone.
#[verifier::external_body]
fn xxh3_digest(b: &[u8]) -> (r: u64)
    ensures
        r == xxh3_of(b@),
{
    xxhash_rust::xxh3::xxh3_64(b)
}

/// Why a client was not admitted.
#[derive(Debug, Clone, Copy, PartialEq, Eq, Structural)]
pub enum AdmissionError {
    /// The checksum is not the digest of the shared seed.
    HelloCheckSumMismatch,
    /// A device with the client's address is already admitted.
    RepeatedlyAddingDevices,
    /// The client sent something other than a validation.
    UnexpectedMessage,
    /// The client's frame could not be read.
    Frame(FrameError),
}

/// What an admission round trip ends with: the reply for the client, if any,
/// and the device admitted, or why none was.
pub struct AdmissionOutcome {
    pub reply: Option<Payload>,
    pub result: Result<Device, AdmissionError>,
}

/// The admission side of discovery: its ports, its address, the shared seed
/// and the certificate handed to admitted clients.
pub struct DiscoverService {
    pub login_port: u16,
    pub discover_port: u16,
    pub ip: IpAddress,
    /// The shared seed, as UTF-8 bytes.
    pub checksum_seed: Vec<u8>,
    /// The host certificate, DER-encoded.
    pub cert_der: Vec<u8>,
}

/// `o` rejects with `reason` and error `e`, and admits nobody.
pub open spec fn rejected(o: AdmissionOutcome, reason: i32, e: AdmissionError) -> bool {
    &&& o.reply matches Some(p) && p@ == (PayloadModel::Reject { reason })
    &&& o.result == Err::<Device, AdmissionError>(e)
}

/// The admission rules for a validation `dv` from `peer`, given the
/// checksum that the seed calls for: a wrong checksum is refused, then a
/// known address; otherwise the client gets the certificate and the time,
/// and its device is recorded.
pub open spec fn admission_rules(
    cert_der: Seq<u8>,
    expected_checksum: u64,
    before: Seq<Device>,
    after: Seq<Device>,
    dv: PayloadModel,
    peer: IpAddress,
    now_ms: u64,
    o: AdmissionOutcome,
) -> bool {
    match dv {
        PayloadModel::DiscoverValidation { checksum, device_name, width, height, .. } => {
            if checksum != expected_checksum {
                rejected(o, REJECT_HELLO_CHECKSUM_MISMATCH, AdmissionError::HelloCheckSumMismatch)
                    && after == before
            } else if has_ip(before, peer) {
                rejected(
                    o,
                    REJECT_REPEATEDLY_ADDING_DEVICES,
                    AdmissionError::RepeatedlyAddingDevices,
                ) && after == before
            } else {
                &&& o.reply matches Some(p) && p@ == (PayloadModel::Welcome {
                    cert_der,
                    ts_ms: now_ms,
                })
                &&& o.result matches Ok(d) && device_is(d, device_name, peer, width, height)
                &&& after.len() == before.len() + 1
                &&& after.drop_last() == before
                &&& device_is(after.last(), device_name, peer, width, height)
            }
        },
        _ => false,
    }
}

impl DiscoverService {
    pub fn new(
        login_port: u16,
        discover_port: u16,
        checksum_seed: Vec<u8>,
        ip: IpAddress,
        cert_der: Vec<u8>,
    ) -> (r: DiscoverService)
        ensures
            r.login_port == login_port,
            r.discover_port == discover_port,
            r.checksum_seed@ == checksum_seed@,
            r.ip == ip,
            r.cert_der@ == cert_der@,
    {
        DiscoverService { login_port, discover_port, ip, checksum_seed, cert_der }
    }

    /// The checksum that a client must send: the XXH3 digest of the seed.
    pub fn expected_checksum(&self) -> (r: u64)
        ensures
            r == xxh3_of(self.checksum_seed@),
    {
        xxh3_digest(self.checksum_seed.as_slice())
    }

    /// Applies the admission rules to `dv` from `peer`, given the checksum
    /// that the seed calls for.
    pub fn apply_admission_rules(
        &self,
        devices: &mut DeviceRegistry,
        expected_checksum: u64,
        dv: DiscoverValidation,
        peer: IpAddress,
        now_ms: u64,
    ) -> (r: AdmissionOutcome)
        requires
            old(devices).wf(),
        ensures
            final(devices).wf(),
            admission_rules(
                self.cert_der@,
                expected_checksum,
                old(devices)@,
                final(devices)@,
                Payload::DiscoverValidation(dv)@,
                peer,
                now_ms,
                r,
            ),
    {
        if dv.checksum != expected_checksum {
            return AdmissionOutcome {
                reply: Some(Payload::Reject(Reject { reason: REJECT_HELLO_CHECKSUM_MISMATCH })),
                result: Err(AdmissionError::HelloCheckSumMismatch),
            };
        }
        if devices.contains(peer) {
            return AdmissionOutcome {
                reply: Some(Payload::Reject(Reject { reason: REJECT_REPEATEDLY_ADDING_DEVICES })),
                result: Err(AdmissionError::RepeatedlyAddingDevices),
            };
        }
        let device = Device { name: dv.device_name, ip: peer, width: dv.width, height: dv.height };
        let admitted = device.duplicate();
        let ghost before = devices@;
        devices.insert(device);
        assert(devices@.drop_last() =~= before);
        let welcome = Welcome { cert_der: slice_to_vec(self.cert_der.as_slice()), ts_ms: now_ms };
        AdmissionOutcome { reply: Some(Payload::Welcome(welcome)), result: Ok(admitted) }
    }

    /// Validates `dv` from `peer` against the digest of the seed.
    pub fn discover_validation_handler(
        &self,
        devices: &mut DeviceRegistry,
        dv: DiscoverValidation,
        peer: IpAddress,
        now_ms: u64,
    ) -> (r: AdmissionOutcome)
        requires
            old(devices).wf(),
        ensures
            final(devices).wf(),
            admission_rules(
                self.cert_der@,
                xxh3_of(self.checksum_seed@),
                old(devices)@,
                final(devices)@,
                Payload::DiscoverValidation(dv)@,
                peer,
                now_ms,
                r,
            ),
    {
        let expected = self.expected_checksum();
        self.apply_admission_rules(devices, expected, dv, peer, now_ms)
    }

    /// Handles what a client sent on an admission connection: `buf` holds
    /// the bytes received. A frame that cannot be read gets no reply; a
    /// message other than a validation is a protocol violation.
    pub fn handle_client_connection(
        &self,
        devices: &mut DeviceRegistry,
        buf: &[u8],
        peer: IpAddress,
        now_ms: u64,
    ) -> (r: AdmissionOutcome)
        requires
            old(devices).wf(),
        ensures
            final(devices).wf(),
            match read_payload_spec(buf@) {
                Err(e) => r.reply is None && r.result == Err::<Device, AdmissionError>(
                    AdmissionError::Frame(e),
                ) && final(devices)@ == old(devices)@,
                Ok((m, _)) => if m is DiscoverValidation {
                    admission_rules(
                        self.cert_der@,
                        xxh3_of(self.checksum_seed@),
                        old(devices)@,
                        final(devices)@,
                        m,
                        peer,
                        now_ms,
                        r,
                    )
                } else {
                    rejected(r, REJECT_PROTOCOL_VIOLATION, AdmissionError::UnexpectedMessage)
                        && final(devices)@ == old(devices)@
                },
            },
    {
        match read_frame(buf) {
            Err(e) => AdmissionOutcome { reply: None, result: Err(AdmissionError::Frame(e)) },
            Ok((Payload::DiscoverValidation(dv), _)) => {
                self.discover_validation_handler(devices, dv, peer, now_ms)
            },
            Ok(_) => AdmissionOutcome {
                reply: Some(Payload::Reject(Reject { reason: REJECT_PROTOCOL_VIOLATION })),
                result: Err(AdmissionError::UnexpectedMessage),
            },
        }
    }
}

} // verus!
