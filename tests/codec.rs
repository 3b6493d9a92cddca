use touchpad_core::message::{
    dewrap, read_frame, wrap, wrap_with_prefix, DiscoverValidation, Exit, Payload, Pointer,
    RegisterDevice, Reject, TouchPacket, TuneSetting, Welcome, EVENT_DOWN, EVENT_UP,
};
use touchpad_core::varint::{
    encode_with_length_prefix, is_valid_message_length, read_exact_bytes,
    read_message_with_length_prefix_sync, read_varint, set_max_message_length, FrameError,
};

fn round_trip(p: &Payload) -> Payload {
    let bytes = wrap(p);
    dewrap(&bytes).expect("decodes")
}

#[test]
fn welcome_round_trip() {
    let p = Payload::Welcome(Welcome { cert_der: vec![1, 2, 3, 250], ts_ms: 1_700_000_000_000 });
    match round_trip(&p) {
        Payload::Welcome(w) => {
            assert_eq!(w.cert_der, vec![1, 2, 3, 250]);
            assert_eq!(w.ts_ms, 1_700_000_000_000);
        }
        other => panic!("unexpected {:?}", other),
    }
}

#[test]
fn reject_round_trip_negative_reason() {
    let p = Payload::Reject(Reject { reason: -7 });
    let bytes = wrap(&p);
    // key, length 11, field key, ten varint bytes
    assert_eq!(bytes.len(), 13);
    match dewrap(&bytes).unwrap() {
        Payload::Reject(r) => assert_eq!(r.reason, -7),
        other => panic!("unexpected {:?}", other),
    }
}

#[test]
fn reject_exact_bytes() {
    let bytes = wrap(&Payload::Reject(Reject { reason: 2 }));
    assert_eq!(bytes, vec![0x12, 0x02, 0x08, 0x02]);
}

#[test]
fn heart_beat_exact_bytes() {
    let bytes = wrap(&Payload::HeartBeat);
    assert_eq!(bytes, vec![0x1a, 0x00]);
    assert!(matches!(dewrap(&bytes), Ok(Payload::HeartBeat)));
}

#[test]
fn discover_validation_round_trip() {
    let p = Payload::DiscoverValidation(DiscoverValidation {
        checksum: u64::MAX,
        send_ts: 12345,
        device_name: b"phone".to_vec(),
        random_key: b"key".to_vec(),
        width: 1080,
        height: 2400,
    });
    match round_trip(&p) {
        Payload::DiscoverValidation(d) => {
            assert_eq!(d.checksum, u64::MAX);
            assert_eq!(d.send_ts, 12345);
            assert_eq!(d.device_name, b"phone".to_vec());
            assert_eq!(d.random_key, b"key".to_vec());
            assert_eq!(d.width, 1080);
            assert_eq!(d.height, 2400);
        }
        other => panic!("unexpected {:?}", other),
    }
}

#[test]
fn register_device_round_trip() {
    let p = Payload::RegisterDevice(RegisterDevice {
        device_name: b"tablet".to_vec(),
        ip: b"10.0.0.7".to_vec(),
        width: 800,
        height: 1280,
        send_ts: 99,
    });
    match round_trip(&p) {
        Payload::RegisterDevice(d) => {
            assert_eq!(d.device_name, b"tablet".to_vec());
            assert_eq!(d.ip, b"10.0.0.7".to_vec());
            assert_eq!(d.width, 800);
            assert_eq!(d.height, 1280);
            assert_eq!(d.send_ts, 99);
        }
        other => panic!("unexpected {:?}", other),
    }
}

#[test]
fn touch_packet_round_trip() {
    let pointers = vec![
        Pointer { id: 0, event_type: EVENT_DOWN, abs_x: 10, abs_y: 20 },
        Pointer { id: 1, event_type: EVENT_UP, abs_x: 300, abs_y: 4000 },
    ];
    let p = Payload::TouchPacket(TouchPacket { seq: 7, ts_ms: -5, pointers: pointers.clone() });
    match round_trip(&p) {
        Payload::TouchPacket(t) => {
            assert_eq!(t.seq, 7);
            assert_eq!(t.ts_ms, -5);
            assert_eq!(t.pointers, pointers);
        }
        other => panic!("unexpected {:?}", other),
    }
}

#[test]
fn touch_packet_without_pointers_round_trip() {
    let p = Payload::TouchPacket(TouchPacket { seq: 0, ts_ms: i64::MIN, pointers: vec![] });
    match round_trip(&p) {
        Payload::TouchPacket(t) => {
            assert_eq!(t.seq, 0);
            assert_eq!(t.ts_ms, i64::MIN);
            assert!(t.pointers.is_empty());
        }
        other => panic!("unexpected {:?}", other),
    }
}

#[test]
fn setting_request_round_trip() {
    let t = TuneSetting { sensitivity_milli: 2500, invert_x: true, invert_y: false };
    match round_trip(&Payload::SettingRequest(t)) {
        Payload::SettingRequest(s) => assert_eq!(s, t),
        other => panic!("unexpected {:?}", other),
    }
}

#[test]
fn exit_round_trip() {
    match round_trip(&Payload::Exit(Exit { ts_ms: 42 })) {
        Payload::Exit(e) => assert_eq!(e.ts_ms, 42),
        other => panic!("unexpected {:?}", other),
    }
}

#[test]
fn decode_rejects_unknown_variant() {
    assert_eq!(dewrap(&[0x4a, 0x00]).unwrap_err(), FrameError::Decode);
}

#[test]
fn decode_rejects_truncated_envelope() {
    let bytes = wrap(&Payload::Exit(Exit { ts_ms: 300 }));
    assert_eq!(dewrap(&bytes[..bytes.len() - 1]).unwrap_err(), FrameError::Decode);
    assert_eq!(dewrap(&[]).unwrap_err(), FrameError::Decode);
}

#[test]
fn decode_rejects_trailing_bytes() {
    let mut bytes = wrap(&Payload::HeartBeat);
    bytes.push(0);
    assert_eq!(dewrap(&bytes).unwrap_err(), FrameError::Decode);
}

#[test]
fn decode_rejects_out_of_range_field() {
    // a Reject whose reason is 2^32, which is no i32
    let bytes = vec![0x12, 0x06, 0x08, 0x80, 0x80, 0x80, 0x80, 0x10];
    assert_eq!(dewrap(&bytes).unwrap_err(), FrameError::Decode);
}

#[test]
fn length_prefix_of_300_bytes() {
    let data = vec![7u8; 300];
    let framed = encode_with_length_prefix(&data);
    assert_eq!(&framed[..2], &[0xac, 0x02]);
    assert_eq!(framed.len(), 302);
    let (body, used) = read_message_with_length_prefix_sync(&framed).unwrap();
    assert_eq!(body, data);
    assert_eq!(used, 302);
}

#[test]
fn read_varint_values() {
    assert_eq!(read_varint(&[0x96, 0x01]), Ok((150, 2)));
    assert_eq!(read_varint(&[0x00]), Ok((0, 1)));
    assert_eq!(read_varint(&[0x80]), Err(FrameError::Truncated));
    assert_eq!(read_varint(&[]), Err(FrameError::Truncated));
    assert_eq!(read_varint(&[0x80, 0x80, 0x80, 0x80, 0x80, 0x01]), Err(FrameError::OverLength));
    assert_eq!(read_varint(&[0xff, 0xff, 0xff, 0xff, 0x0f]), Ok((u32::MAX as u64, 5)));
}

#[test]
fn frame_rejects_oversize_prefix() {
    // 4097 announced, no body at all
    assert_eq!(read_message_with_length_prefix_sync(&[0x81, 0x20]), Err(FrameError::OverLength));
    let ok = encode_with_length_prefix(&vec![1u8; 4096]);
    assert!(read_message_with_length_prefix_sync(&ok).is_ok());
}

#[test]
fn frame_truncated_body() {
    assert_eq!(read_message_with_length_prefix_sync(&[0x05, 1, 2]), Err(FrameError::Truncated));
}

#[test]
fn read_exact_bytes_bounds() {
    assert_eq!(read_exact_bytes(&[1, 2, 3, 4], 1, 2), Ok(vec![2, 3]));
    assert_eq!(read_exact_bytes(&[1, 2, 3, 4], 3, 2), Err(FrameError::Truncated));
}

#[test]
fn message_length_validity() {
    assert!(!is_valid_message_length(0));
    assert!(is_valid_message_length(1));
    assert!(is_valid_message_length(4096));
    assert!(!is_valid_message_length(4097));
    set_max_message_length(10);
    assert!(is_valid_message_length(4096));
}

#[test]
fn framed_payload_reads_back() {
    let p = Payload::Exit(Exit { ts_ms: 5 });
    let mut stream = wrap_with_prefix(&p);
    let first_len = stream.len();
    stream.extend(wrap_with_prefix(&Payload::HeartBeat));
    let (m, used) = read_frame(&stream).unwrap();
    assert!(matches!(m, Payload::Exit(Exit { ts_ms: 5 })));
    assert_eq!(used, first_len);
    let (m2, _) = read_frame(&stream[used..]).unwrap();
    assert!(matches!(m2, Payload::HeartBeat));
}

#[test]
fn framed_garbage_is_decode_error() {
    let framed = encode_with_length_prefix(&[0xff, 0xff]);
    assert!(matches!(read_frame(&framed), Err(FrameError::Decode)));
}

#[test]
fn omitted_fields_read_as_defaults() {
    assert!(matches!(dewrap(&[0x42, 0x00]), Ok(Payload::Exit(Exit { ts_ms: 0 }))));
    // only the device name is written
    match dewrap(&[0x22, 0x03, 0x1a, 0x01, b'a']).unwrap() {
        Payload::DiscoverValidation(d) => {
            assert_eq!(d.checksum, 0);
            assert_eq!(d.send_ts, 0);
            assert_eq!(d.device_name, b"a".to_vec());
            assert!(d.random_key.is_empty());
            assert_eq!((d.width, d.height), (0, 0));
        }
        other => panic!("unexpected {:?}", other),
    }
    match dewrap(&[0x3a, 0x00]).unwrap() {
        Payload::SettingRequest(t) => {
            assert_eq!(t, TuneSetting { sensitivity_milli: 0, invert_x: false, invert_y: false })
        }
        other => panic!("unexpected {:?}", other),
    }
}

#[test]
fn fields_out_of_order_are_rejected() {
    // send_ts before checksum
    assert_eq!(dewrap(&[0x22, 0x04, 0x10, 0x01, 0x08, 0x01]).unwrap_err(), FrameError::Decode);
}
