use mqtt_simple::{MqttError, Protocol, QoS, VariableLengthEncoder};

#[test]
fn test_bigendian_conversion() {
    let expected = vec![0, 11];
    assert_eq!(Protocol::to_big_endian(11), expected);
}

#[test]
fn test_connect_payload() {
    let expected = vec![
        16, 23, 0, 4, 77, 81, 84, 84, 4, 2, 0, 5, 0, 11, 99, 108, 105, 101, 110, 116, 95, 110, 97,
        109, 101,
    ];
    assert_eq!(Protocol::connect_payload("client_name", 5), Ok(expected));
}

#[test]
fn test_publish_payload() {
    let expected = vec![
        48, 22, 0, 10, 115, 111, 109, 101, 95, 116, 111, 112, 105, 99, 109, 121, 32, 109, 101, 115,
        115, 97, 103, 101,
    ];
    assert_eq!(
        Protocol::publish_payload("some_topic", "my message", false, QoS::AtMostOnce, 0),
        Ok(expected)
    );
}

#[test]
fn big_endian_high_byte_first() {
    assert_eq!(Protocol::to_big_endian(0x1234), vec![0x12, 0x34]);
    assert_eq!(Protocol::to_big_endian(0xffff), vec![0xff, 0xff]);
    assert_eq!(Protocol::to_big_endian(0), vec![0, 0]);
}

#[test]
fn varint_small_values_are_one_byte() {
    for n in [0u32, 1, 64, 127] {
        assert_eq!(VariableLengthEncoder::encode(n), vec![n as u8]);
    }
}

#[test]
fn varint_multi_byte_values() {
    assert_eq!(VariableLengthEncoder::encode(128), vec![0x80, 0x01]);
    assert_eq!(VariableLengthEncoder::encode(16383), vec![0xff, 0x7f]);
    assert_eq!(VariableLengthEncoder::encode(16384), vec![0x80, 0x80, 0x01]);
    assert_eq!(VariableLengthEncoder::encode(321), vec![0xc1, 0x02]);
    assert_eq!(
        VariableLengthEncoder::encode(268_435_455),
        vec![0xff, 0xff, 0xff, 0x7f]
    );
}

#[test]
fn varint_round_trip() {
    for n in [0u32, 5, 127, 128, 300, 16383, 16384, 2_097_151, 2_097_152, 268_435_455] {
        let bytes = VariableLengthEncoder::encode(n);
        assert_eq!(VariableLengthEncoder::decode(&bytes), Ok((n, bytes.len())));
    }
}

#[test]
fn varint_decode_stops_at_first_final_byte() {
    assert_eq!(VariableLengthEncoder::decode(&[0x80, 0x01, 0x55, 0x66]), Ok((128, 2)));
}

#[test]
fn varint_decode_rejects_five_bytes() {
    assert_eq!(
        VariableLengthEncoder::decode(&[0x80, 0x80, 0x80, 0x80, 0x01]),
        Err(MqttError::MalformedLength)
    );
}

#[test]
fn varint_decode_rejects_truncated_input() {
    assert_eq!(VariableLengthEncoder::decode(&[0x80, 0x80]), Err(MqttError::MalformedLength));
    assert_eq!(VariableLengthEncoder::decode(&[]), Err(MqttError::MalformedLength));
}

#[test]
fn connect_payload_with_empty_identifier() {
    assert_eq!(
        Protocol::connect_payload("", 60),
        Ok(vec![0x10, 12, 0, 4, b'M', b'Q', b'T', b'T', 4, 2, 0, 60, 0, 0])
    );
}

#[test]
fn connect_payload_long_identifier_uses_two_length_bytes() {
    let id = "x".repeat(200);
    let p = Protocol::connect_payload(&id, 5).unwrap();
    // 12 + 200 = 212 = 0b1_1010100
    assert_eq!(&p[..3], &[0x10, 0xd4, 0x01]);
    assert_eq!(&p[13..15], &[0x00, 200]);
    assert_eq!(p.len(), 1 + 2 + 212);
}

#[test]
fn connect_payload_rejects_oversized_identifier() {
    let id = "a".repeat(65536);
    assert_eq!(Protocol::connect_payload(&id, 5), Err(MqttError::EncodingError));
    let id = "a".repeat(65535);
    assert!(Protocol::connect_payload(&id, 5).is_ok());
}

#[test]
fn publish_payload_qos1_carries_packet_id_after_topic() {
    let p0 = Protocol::publish_payload("t", "hi", false, QoS::AtMostOnce, 7).unwrap();
    let p1 = Protocol::publish_payload("t", "hi", false, QoS::AtLeastOnce, 0x0102).unwrap();
    assert_eq!(p0, vec![0x30, 5, 0, 1, b't', b'h', b'i']);
    assert_eq!(p1, vec![0x32, 7, 0, 1, b't', 0x01, 0x02, b'h', b'i']);
    assert_eq!(p1[1], p0[1] + 2);
}

#[test]
fn publish_payload_exactly_once_and_retain_flag() {
    let p = Protocol::publish_payload("a", "", true, QoS::ExactlyOnce, 1).unwrap();
    assert_eq!(p, vec![0x35, 5, 0, 1, b'a', 0, 1]);
    let p = Protocol::publish_payload("a", "", true, QoS::AtMostOnce, 1).unwrap();
    assert_eq!(p, vec![0x31, 3, 0, 1, b'a']);
}

#[test]
fn publish_payload_large_message_has_no_truncated_length() {
    let msg = "m".repeat(300);
    let p = Protocol::publish_payload("t", &msg, false, QoS::AtMostOnce, 0).unwrap();
    // 2 + 1 + 300 = 303 = 0b10_0101111
    assert_eq!(&p[..3], &[0x30, 0xaf, 0x02]);
    assert_eq!(p.len(), 3 + 303);
}

#[test]
fn publish_payload_rejects_oversized_topic() {
    let topic = "t".repeat(65536);
    assert_eq!(
        Protocol::publish_payload(&topic, "x", false, QoS::AtMostOnce, 0),
        Err(MqttError::EncodingError)
    );
}

#[test]
fn publish_payload_keeps_utf8_bytes() {
    let p = Protocol::publish_payload("é", "ü", false, QoS::AtMostOnce, 0).unwrap();
    assert_eq!(p, vec![0x30, 6, 0, 2, 0xc3, 0xa9, 0xc3, 0xbc]);
}

#[test]
fn encoding_is_deterministic() {
    let a = Protocol::publish_payload("topic", "payload", true, QoS::AtLeastOnce, 9);
    let b = Protocol::publish_payload(&String::from("topic"), "payload", true, QoS::AtLeastOnce, 9);
    assert_eq!(a, b);
    assert_eq!(Protocol::connect_payload("id", 3), Protocol::connect_payload("id", 3));
}

#[test]
fn disconnect_payload_bytes() {
    assert_eq!(Protocol::disconnect_payload(), vec![0xe0, 0x00]);
}

#[test]
fn qos_codes() {
    assert_eq!(QoS::AtMostOnce.code(), 0);
    assert_eq!(QoS::AtLeastOnce.code(), 1);
    assert_eq!(QoS::ExactlyOnce.code(), 2);
    assert!(!QoS::AtMostOnce.has_packet_id());
    assert!(QoS::ExactlyOnce.has_packet_id());
}
