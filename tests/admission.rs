use touchpad_core::admission::{AdmissionError, DiscoverService};
use touchpad_core::message::{wrap_with_prefix, DiscoverValidation, Payload, Exit};
use touchpad_core::registry::{Device, DeviceRegistry, IpAddress};
use touchpad_core::varint::FrameError;

fn service() -> DiscoverService {
    DiscoverService::new(8522, 8521, b"s3cret".to_vec(), IpAddress::V4(0x0a00_0001), vec![0x30, 0x82, 1, 2])
}

fn validation(checksum: u64) -> DiscoverValidation {
    DiscoverValidation {
        checksum,
        send_ts: 0,
        device_name: b"phone".to_vec(),
        random_key: b"abc".to_vec(),
        width: 1080,
        height: 2400,
    }
}

const PEER: IpAddress = IpAddress::V4(0x0a00_0007);

#[test]
fn expected_checksum_is_xxh3_of_seed() {
    assert_eq!(service().expected_checksum(), xxhash_rust::xxh3::xxh3_64(b"s3cret"));
}

#[test]
fn happy_admission() {
    let svc = service();
    let mut devices = DeviceRegistry::new();
    let sum = xxhash_rust::xxh3::xxh3_64(b"s3cret");
    let out = svc.discover_validation_handler(&mut devices, validation(sum), PEER, 1234);
    match out.reply {
        Some(Payload::Welcome(w)) => {
            assert_eq!(w.cert_der, vec![0x30, 0x82, 1, 2]);
            assert_eq!(w.ts_ms, 1234);
        }
        other => panic!("unexpected {:?}", other),
    }
    let d: Device = out.result.unwrap();
    assert_eq!(d.name, b"phone".to_vec());
    assert_eq!(d.ip, PEER);
    assert_eq!((d.width, d.height), (1080, 2400));
    assert_eq!(devices.len(), 1);
    assert!(devices.contains(PEER));
    assert_eq!(devices.devices()[0].name, b"phone".to_vec());
}

#[test]
fn duplicate_ip_is_rejected() {
    let svc = service();
    let mut devices = DeviceRegistry::new();
    let sum = svc.expected_checksum();
    svc.discover_validation_handler(&mut devices, validation(sum), PEER, 1);
    let out = svc.discover_validation_handler(&mut devices, validation(sum), PEER, 2);
    match out.reply {
        Some(Payload::Reject(r)) => assert_eq!(r.reason, 3),
        other => panic!("unexpected {:?}", other),
    }
    assert_eq!(out.result.unwrap_err(), AdmissionError::RepeatedlyAddingDevices);
    assert_eq!(devices.len(), 1);
}

#[test]
fn bad_secret_is_rejected() {
    let svc = service();
    let mut devices = DeviceRegistry::new();
    let out = svc.discover_validation_handler(&mut devices, validation(0), PEER, 1);
    match out.reply {
        Some(Payload::Reject(r)) => assert_eq!(r.reason, 2),
        other => panic!("unexpected {:?}", other),
    }
    assert_eq!(out.result.unwrap_err(), AdmissionError::HelloCheckSumMismatch);
    assert_eq!(devices.len(), 0);
}

#[test]
fn admission_rules_with_given_checksum() {
    let svc = service();
    let mut devices = DeviceRegistry::new();
    let out = svc.apply_admission_rules(&mut devices, 77, validation(77), PEER, 9);
    assert!(out.result.is_ok());
    let out = svc.apply_admission_rules(&mut devices, 77, validation(78), IpAddress::V4(1), 9);
    assert_eq!(out.result.unwrap_err(), AdmissionError::HelloCheckSumMismatch);
    assert_eq!(devices.len(), 1);
}

#[test]
fn connection_with_framed_validation() {
    let svc = service();
    let mut devices = DeviceRegistry::new();
    let frame = wrap_with_prefix(&Payload::DiscoverValidation(validation(svc.expected_checksum())));
    let out = svc.handle_client_connection(&mut devices, &frame, PEER, 5);
    assert!(matches!(out.reply, Some(Payload::Welcome(_))));
    assert!(out.result.is_ok());
}

#[test]
fn other_message_is_protocol_violation() {
    let svc = service();
    let mut devices = DeviceRegistry::new();
    let frame = wrap_with_prefix(&Payload::Exit(Exit { ts_ms: 1 }));
    let out = svc.handle_client_connection(&mut devices, &frame, PEER, 5);
    match out.reply {
        Some(Payload::Reject(r)) => assert_eq!(r.reason, 1),
        other => panic!("unexpected {:?}", other),
    }
    assert_eq!(out.result.unwrap_err(), AdmissionError::UnexpectedMessage);
    assert_eq!(devices.len(), 0);
}

#[test]
fn unreadable_frame_gets_no_reply() {
    let svc = service();
    let mut devices = DeviceRegistry::new();
    let out = svc.handle_client_connection(&mut devices, &[0x81, 0x20], PEER, 5);
    assert!(out.reply.is_none());
    assert_eq!(out.result.unwrap_err(), AdmissionError::Frame(FrameError::OverLength));
}

#[test]
fn registry_upsert_and_remove() {
    let mut devices = DeviceRegistry::new();
    let dev = |name: &[u8], ip: IpAddress| Device { name: name.to_vec(), ip, width: 1, height: 2 };
    devices.upsert(dev(b"a", IpAddress::V4(1)));
    devices.upsert(dev(b"b", IpAddress::V6(2)));
    devices.upsert(dev(b"c", IpAddress::V4(1)));
    assert_eq!(devices.len(), 2);
    assert_eq!(devices.devices()[0].name, b"c".to_vec());
    let removed = devices.remove(IpAddress::V4(1)).unwrap();
    assert_eq!(removed.name, b"c".to_vec());
    assert!(devices.remove(IpAddress::V4(1)).is_none());
    assert_eq!(devices.len(), 1);
    devices.clear();
    assert_eq!(devices.len(), 0);
}

#[test]
fn omitted_checksum_is_a_mismatch() {
    let svc = service();
    let mut devices = DeviceRegistry::new();
    // a validation whose zero checksum is left out, as encoders that omit
    // default values write it
    let frame = vec![0x05, 0x22, 0x03, 0x1a, 0x01, b'p'];
    let out = svc.handle_client_connection(&mut devices, &frame, PEER, 5);
    match out.reply {
        Some(Payload::Reject(r)) => assert_eq!(r.reason, 2),
        other => panic!("unexpected {:?}", other),
    }
    assert_eq!(out.result.unwrap_err(), AdmissionError::HelloCheckSumMismatch);
    assert_eq!(devices.len(), 0);
}
