use mqtt_broker::control_packet::ControlPacket;
use mqtt_broker::decode_error::{DecodeError, ReadError};
use mqtt_broker::decoder::decode_packet;
use mqtt_broker::encode_error::EncodeError;
use mqtt_broker::encoder::encode_packet;
use mqtt_broker::fixed_header::{ControlPacketType, FixedHeader};
use mqtt_broker::qos_level::QoSLevel;
use mqtt_broker::reason_code::ReasonCode;
use mqtt_broker::variable_header::ConnectFlags;
use mqtt_broker::wire::{decode_variable_byte_integer, encode_variable_byte_integer};

#[test]
fn test_variable_byte_integer() {
    let numbers: Vec<u64> = vec![0, 1, 127, 128, 129, 300, 1000];
    for number in numbers {
        let mut encoded_buffer: Vec<u8> = Vec::new();
        encode_variable_byte_integer(number, &mut encoded_buffer).unwrap();
        let (decoded_number, _) = decode_variable_byte_integer(&encoded_buffer, 0).unwrap();
        assert_eq!(decoded_number, number);
    }
}

#[test]
fn test_variable_byte_integer_lengths() {
    let cases: Vec<(u64, usize)> = vec![
        (0, 1),
        (127, 1),
        (128, 2),
        (16383, 2),
        (16384, 3),
        (2097151, 3),
        (2097152, 4),
        (268435455, 4),
    ];
    for (number, expected_len) in cases {
        let mut buffer: Vec<u8> = Vec::new();
        encode_variable_byte_integer(number, &mut buffer).unwrap();
        assert_eq!(buffer.len(), expected_len);
        let (decoded, consumed) = decode_variable_byte_integer(&buffer, 0).unwrap();
        assert_eq!(decoded, number);
        assert_eq!(consumed, expected_len);
    }
}

#[test]
fn test_variable_byte_integer_rejects_large_values() {
    let mut buffer: Vec<u8> = Vec::new();
    assert_eq!(
        encode_variable_byte_integer(268435456, &mut buffer),
        Err(EncodeError::ExceededMaxLength)
    );
    assert!(buffer.is_empty());
    let five_continuations: Vec<u8> = vec![0x80, 0x80, 0x80, 0x80, 0x01];
    assert_eq!(
        decode_variable_byte_integer(&five_continuations, 0),
        Err(ReadError::ExceededMaxValue { current: 268435456, max: 2097152 })
    );
}

#[test]
fn test_connect_round_trip() {
    let flags = ConnectFlags::new(false, false, false, QoSLevel::AtMostOnce, false, true, false);
    let packet = ControlPacket::connect(
        flags,
        Some(60),
        Vec::new(),
        Some(String::from("simulate_connect")),
        None,
        None,
        None,
        None,
        None,
    );
    let bytes = encode_packet(&packet).unwrap();
    let (decoded, consumed) = decode_packet(&bytes).unwrap();
    assert_eq!(consumed, bytes.len());
    assert_eq!(decoded.fixed_header.packet_type, ControlPacketType::CONNECT);
    let vh = decoded.variable_header.as_ref().unwrap();
    assert_eq!(vh.protocol_name.as_ref().unwrap(), "MQTT");
    assert_eq!(vh.protocol_version, Some(5));
    assert_eq!(vh.connect_flags.unwrap(), flags);
    assert_eq!(vh.keep_alive, Some(60));
    assert!(vh.properties.is_empty());
    let payload = decoded.payload.as_ref().unwrap();
    assert_eq!(payload.client_id.as_ref().unwrap(), "simulate_connect");
    assert!(payload.username.is_none());
    assert!(payload.password.is_none());
}

#[test]
fn test_connect_round_trip_with_will_and_credentials() {
    let flags = ConnectFlags::new(true, true, true, QoSLevel::AtLeastOnce, true, false, false);
    let packet = ControlPacket::connect(
        flags,
        Some(30),
        Vec::new(),
        Some(String::from("clientW")),
        Some(Vec::new()),
        Some(String::from("will/topic")),
        Some(vec![1, 2, 3]),
        Some(String::from("user")),
        Some(String::from("swordfish")),
    );
    let bytes = encode_packet(&packet).unwrap();
    let (decoded, _) = decode_packet(&bytes).unwrap();
    let vh = decoded.variable_header.as_ref().unwrap();
    assert_eq!(vh.connect_flags.unwrap(), flags);
    let payload = decoded.payload.as_ref().unwrap();
    assert_eq!(payload.will_topic.as_ref().unwrap(), "will/topic");
    assert_eq!(payload.will_payload.as_ref().unwrap(), &vec![1, 2, 3]);
    assert_eq!(payload.username.as_ref().unwrap(), "user");
    assert_eq!(payload.password.as_ref().unwrap(), "swordfish");
}

#[test]
fn test_subscribe_round_trip() {
    let packet = ControlPacket::subscribe(Some(7), String::from("test/qos1"), QoSLevel::AtLeastOnce);
    let bytes = encode_packet(&packet).unwrap();
    let (decoded, _) = decode_packet(&bytes).unwrap();
    assert_eq!(decoded.fixed_header.packet_type, ControlPacketType::SUBSCRIBE);
    let vh = decoded.variable_header.as_ref().unwrap();
    assert_eq!(vh.packet_identifier, Some(7));
    let filters = decoded.payload.as_ref().unwrap().topic_filters.as_ref().unwrap();
    assert_eq!(filters.len(), 1);
    assert_eq!(filters[0].topic_filter, "test/qos1");
    assert_eq!(filters[0].maximum_qos, QoSLevel::AtLeastOnce);
    assert!(!filters[0].no_local);
    assert!(!filters[0].retain_as_published);
}

#[test]
fn test_publish_round_trip() {
    let packet = ControlPacket::publish(Some(9), Some(String::from("a/b")), false, QoSLevel::AtLeastOnce, true);
    let bytes = encode_packet(&packet).unwrap();
    // First byte: PUBLISH nibble 0x30, dup 0, qos 1 (bits 2-1), retain 1.
    assert_eq!(bytes[0], 0x33);
    let (decoded, _) = decode_packet(&bytes).unwrap();
    assert_eq!(decoded.fixed_header.packet_type, ControlPacketType::PUBLISH);
    assert_eq!(decoded.fixed_header.dup_flag, Some(false));
    assert_eq!(decoded.fixed_header.qos_level, Some(QoSLevel::AtLeastOnce));
    assert_eq!(decoded.fixed_header.retain, Some(true));
    let vh = decoded.variable_header.as_ref().unwrap();
    assert_eq!(vh.packet_identifier, Some(9));
    assert_eq!(vh.topic_name.as_ref().unwrap(), "a/b");
    // The constructor carries no payload; the decoder reads an empty one.
    assert!(decoded.payload.as_ref().unwrap().data.as_ref().unwrap().is_empty());
}

#[test]
fn test_acknowledgment_round_trips() {
    let cases: Vec<(ControlPacket, ControlPacketType)> = vec![
        (ControlPacket::puback(Some(3)), ControlPacketType::PUBACK),
        (ControlPacket::pubrec(Some(4)), ControlPacketType::PUBREC),
        (ControlPacket::pubrel(Some(5)), ControlPacketType::PUBREL),
        (ControlPacket::pubcomp(Some(6)), ControlPacketType::PUBCOMP),
    ];
    for (packet, expected_type) in cases {
        let pid = packet.variable_header.as_ref().unwrap().packet_identifier;
        let bytes = encode_packet(&packet).unwrap();
        let (decoded, _) = decode_packet(&bytes).unwrap();
        assert_eq!(decoded.fixed_header.packet_type, expected_type);
        let vh = decoded.variable_header.as_ref().unwrap();
        assert_eq!(vh.packet_identifier, pid);
        assert_eq!(vh.reason_code, Some(ReasonCode::Success));
        assert!(vh.properties.is_empty());
    }
}

#[test]
fn test_pubrel_flag_nibble() {
    let bytes = encode_packet(&ControlPacket::pubrel(Some(42))).unwrap();
    assert_eq!(bytes[0], 0x62);
}

#[test]
fn test_pingresp_two_bytes_on_the_wire() {
    let bytes = encode_packet(&ControlPacket::pingresp()).unwrap();
    assert_eq!(bytes, vec![0xD0, 0x00]);
    let (decoded, consumed) = decode_packet(&bytes).unwrap();
    assert_eq!(consumed, 2);
    assert_eq!(decoded.fixed_header.packet_type, ControlPacketType::PINGRESP);
    assert!(decoded.variable_header.is_none());
    assert!(decoded.payload.is_none());
}

#[test]
fn test_disconnect_round_trip() {
    let packet = ControlPacket::disconnect(ReasonCode::SessionTakenOver);
    let bytes = encode_packet(&packet).unwrap();
    let (decoded, _) = decode_packet(&bytes).unwrap();
    assert_eq!(decoded.fixed_header.packet_type, ControlPacketType::DISCONNECT);
    assert_eq!(
        decoded.variable_header.as_ref().unwrap().reason_code,
        Some(ReasonCode::SessionTakenOver)
    );
}

#[test]
fn test_decode_crafted_connect_bytes() {
    // A CONNECT written out by hand: protocol name "MQTT", version 5,
    // clean-start flag, keep-alive 60, no properties, client "ab".
    let bytes: Vec<u8> = vec![
        0x10, 0x0F, 0x00, 0x04, 0x4D, 0x51, 0x54, 0x54, 0x05, 0x02, 0x00, 0x3C, 0x00, 0x00, 0x02, 0x61, 0x62,
    ];
    let (decoded, consumed) = decode_packet(&bytes).unwrap();
    assert_eq!(consumed, bytes.len());
    assert_eq!(decoded.fixed_header.packet_type, ControlPacketType::CONNECT);
    assert_eq!(decoded.fixed_header.remaining_length, 15);
    let vh = decoded.variable_header.as_ref().unwrap();
    assert_eq!(vh.protocol_name.as_ref().unwrap(), "MQTT");
    assert_eq!(vh.protocol_version, Some(5));
    let flags = vh.connect_flags.unwrap();
    assert!(flags.clean_start_flag);
    assert!(!flags.username_flag && !flags.password_flag && !flags.will_flag);
    assert_eq!(vh.keep_alive, Some(60));
    assert_eq!(decoded.payload.as_ref().unwrap().client_id.as_ref().unwrap(), "ab");
}

#[test]
fn test_decode_crafted_publish_bytes() {
    // PUBLISH at qos 1 with retain clear: topic "t", identifier 9, no
    // properties, payload "hi".
    let bytes: Vec<u8> = vec![0x32, 0x08, 0x00, 0x01, 0x74, 0x00, 0x09, 0x00, 0x68, 0x69];
    let (decoded, _) = decode_packet(&bytes).unwrap();
    assert_eq!(decoded.fixed_header.packet_type, ControlPacketType::PUBLISH);
    assert_eq!(decoded.fixed_header.qos_level, Some(QoSLevel::AtLeastOnce));
    assert_eq!(decoded.fixed_header.dup_flag, Some(false));
    assert_eq!(decoded.fixed_header.retain, Some(false));
    let vh = decoded.variable_header.as_ref().unwrap();
    assert_eq!(vh.topic_name.as_ref().unwrap(), "t");
    assert_eq!(vh.packet_identifier, Some(9));
    assert_eq!(decoded.payload.as_ref().unwrap().data.as_ref().unwrap(), &vec![0x68, 0x69]);
}

#[test]
fn test_decode_puback_without_reason() {
    // PUBACK with a two-byte body: the identifier alone, no reason code.
    let bytes: Vec<u8> = vec![0x40, 0x02, 0x00, 0x03];
    let (decoded, consumed) = decode_packet(&bytes).unwrap();
    assert_eq!(consumed, 4);
    assert_eq!(decoded.fixed_header.packet_type, ControlPacketType::PUBACK);
    let vh = decoded.variable_header.as_ref().unwrap();
    assert_eq!(vh.packet_identifier, Some(3));
    assert!(vh.reason_code.is_none());
}

#[test]
fn test_decode_empty_buffer_fails() {
    let empty: Vec<u8> = Vec::new();
    assert_eq!(
        decode_packet(&empty).unwrap_err(),
        DecodeError::PacketType { cause: ReadError::NotEnoughData { position: 0, length: 0, requested: 1 } }
    );
}

#[test]
fn test_decode_truncated_body_fails() {
    // CONNACK header declaring a three-byte body that is not there.
    let bytes: Vec<u8> = vec![0x20, 0x03];
    assert_eq!(
        decode_packet(&bytes).unwrap_err(),
        DecodeError::VariableHeaderAndPayload {
            cause: ReadError::NotEnoughData { position: 2, length: 2, requested: 3 },
        }
    );
}

#[test]
fn test_decode_invalid_utf8_fails() {
    // CONNECT whose protocol-name field holds one invalid byte.
    let bytes: Vec<u8> = vec![0x10, 0x03, 0x00, 0x01, 0xFF];
    assert_eq!(
        decode_packet(&bytes).unwrap_err(),
        DecodeError::UTF8String { cause: ReadError::InvalidData }
    );
}

#[test]
fn test_decode_unknown_property_fails() {
    // SUBSCRIBE with packet identifier 1 and a property block declaring one
    // byte holding the unassigned identifier 99.
    let bytes: Vec<u8> = vec![0x82, 0x04, 0x00, 0x01, 0x01, 0x63];
    assert_eq!(
        decode_packet(&bytes).unwrap_err(),
        DecodeError::UnknownProperty { cause: ReadError::InvalidData }
    );
}

#[test]
fn test_encode_missing_required_field_fails() {
    // A PUBLISH whose payload record carries no bytes cannot be encoded.
    let header = FixedHeader::from_publish(false, QoSLevel::AtMostOnce, false, 0);
    let vh = mqtt_broker::variable_header::VariableHeader::from_publish(
        None,
        Some(String::from("t")),
        Vec::new(),
    );
    let payload = mqtt_broker::payload::Payload::from_publish(None);
    let packet = ControlPacket::new(header, Some(vh), Some(payload));
    assert_eq!(encode_packet(&packet), Err(EncodeError::NotEnoughData));
}

#[test]
fn test_encode_overlong_string_fails() {
    let long_topic = "x".repeat(70000);
    let packet = ControlPacket::publish(None, Some(long_topic), false, QoSLevel::AtMostOnce, false);
    assert_eq!(encode_packet(&packet), Err(EncodeError::ExceededMaxLength));
}

#[test]
fn test_properties_decode() {
    // PUBLISH (qos 0) with topic "t" and a property block holding
    // MessageExpiryInterval(16) and ContentType("ct").
    let bytes: Vec<u8> = vec![
        0x30, 0x0E, 0x00, 0x01, 0x74, 0x0A, 0x02, 0x00, 0x00, 0x00, 0x10, 0x03, 0x00, 0x02, 0x63, 0x74,
    ];
    let (decoded, consumed) = decode_packet(&bytes).unwrap();
    assert_eq!(consumed, bytes.len());
    let vh = decoded.variable_header.as_ref().unwrap();
    assert_eq!(vh.topic_name.as_ref().unwrap(), "t");
    assert_eq!(vh.properties.len(), 2);
    assert_eq!(
        vh.properties[0],
        mqtt_broker::variable_header::Property::MessageExpiryInterval(16)
    );
    assert_eq!(
        vh.properties[1],
        mqtt_broker::variable_header::Property::ContentType(String::from("ct"))
    );
}
