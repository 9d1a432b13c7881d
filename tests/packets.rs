use mqtt_decode::buffer_reader::{BinaryData, BuffReader, EncodedString, ParseError};
use mqtt_decode::connack_packet::ConnackPacket;
use mqtt_decode::control_packet::ControlPacket;
use mqtt_decode::packet_type::PacketType;
use mqtt_decode::property::Property;
use mqtt_decode::property_list::{decode_packet_properties, decode_will_properties};

fn clean_connect<'a>() -> ControlPacket<'a> {
    ControlPacket::clean(heapless::Vec::new(), heapless::Vec::new())
}

#[test]
fn connack_minimal() {
    let buf = [0x20u8, 0x03, 0x00, 0x00, 0x00];
    let mut reader = BuffReader::new(&buf);
    let mut packet = ConnackPacket::new();
    assert_eq!(packet.decode_connack_packet(&mut reader), Ok(()));
    assert_eq!(packet.connect_reason_code, 0);
    assert_eq!(packet.ack_flags, 0);
    assert_eq!(packet.properties.len(), 0);
    assert_eq!(packet.fixed_header, 0x20);
    assert_eq!(packet.remain_len, 3);
    assert_eq!(reader.position, 5);
}

#[test]
fn connack_with_properties() {
    let buf = [0x20u8, 0x0B, 0x01, 0x87, 0x08, 0x11, 0x00, 0x00, 0x00, 0x0A, 0x21, 0x00, 0x05];
    let mut reader = BuffReader::new(&buf);
    let mut packet = ConnackPacket::new();
    assert_eq!(packet.decode_connack_packet(&mut reader), Ok(()));
    assert_eq!(packet.ack_flags, 1);
    assert_eq!(packet.connect_reason_code, 0x87);
    assert_eq!(packet.property_len, 8);
    assert_eq!(packet.properties.len(), 2);
    assert!(matches!(packet.properties[0], Property::SessionExpiryInterval(10)));
    assert!(matches!(packet.properties[1], Property::ReceiveMaximum(5)));
    assert_eq!(packet.properties[0].len(), 5);
    assert_eq!(reader.position, 13);
}

#[test]
fn connack_wrong_type() {
    let buf = [0x10u8, 0x03, 0x00, 0x00, 0x00];
    let mut reader = BuffReader::new(&buf);
    let mut packet = ConnackPacket::new();
    assert_eq!(packet.decode_connack_packet(&mut reader), Err(ParseError::DecodingError));
}

#[test]
fn connack_truncated() {
    let buf = [0x20u8, 0x03, 0x00];
    let mut reader = BuffReader::new(&buf);
    let mut packet = ConnackPacket::new();
    assert_eq!(packet.decode_connack_packet(&mut reader), Err(ParseError::IndexOutOfBounce));
}

fn connect_bytes(flags: u8, payload: &[u8]) -> Vec<u8> {
    let mut buf = vec![0x10u8, 0x00, 0x00, 0x04, b'M', b'Q', b'T', b'T', 0x05, flags, 0x00, 0x3C, 0x00];
    buf.extend_from_slice(payload);
    buf[1] = (buf.len() - 2) as u8;
    buf
}

#[test]
fn connect_minimal() {
    let buf = connect_bytes(0x02, &[0x00, 0x03, b'a', b'b', b'c']);
    let mut reader = BuffReader::new(&buf);
    let mut packet = clean_connect();
    assert_eq!(packet.decode_control_packet(&mut reader), Ok(()));
    assert_eq!(packet.client_id.string, "abc");
    assert_eq!(packet.protocol_name_len, 4);
    assert_eq!(packet.protocol_name, 0x4D515454);
    assert_eq!(packet.protocol_version, 5);
    assert_eq!(packet.connect_flags, 0x02);
    assert_eq!(packet.keep_alive, 60);
    assert_eq!(packet.properties.len(), 0);
    assert_eq!(packet.will_properties.len(), 0);
    assert_eq!(packet.will_topic.len, 0);
    assert_eq!(packet.will_payload.len, 0);
    assert_eq!(packet.username.len, 0);
    assert_eq!(packet.password.len, 0);
    assert_eq!(reader.position, buf.len());
}

#[test]
fn connect_will_only() {
    let payload = [
        0x00, 0x01, b'c', 0x05, 0x18, 0x00, 0x00, 0x00, 0x1E, 0x00, 0x01, b't', 0x00, 0x02, 0xAB,
        0xCD,
    ];
    let buf = connect_bytes(0x04, &payload);
    let mut reader = BuffReader::new(&buf);
    let mut packet = clean_connect();
    assert_eq!(packet.decode_control_packet(&mut reader), Ok(()));
    assert_eq!(packet.will_property_len, 5);
    assert_eq!(packet.will_properties.len(), 1);
    assert!(matches!(packet.will_properties[0], Property::WillDelayInterval(30)));
    assert_eq!(packet.will_topic.string, "t");
    assert_eq!(packet.will_payload.bin, &[0xAB, 0xCD]);
    assert_eq!(packet.username.len, 0);
    assert_eq!(packet.password.len, 0);
    assert_eq!(reader.position, buf.len());
}

#[test]
fn connect_username_password_only() {
    let payload = [0x00, 0x01, b'c', 0x00, 0x02, b'u', b's', 0x00, 0x01, 0x70];
    let buf = connect_bytes(0xC0, &payload);
    let mut reader = BuffReader::new(&buf);
    let mut packet = clean_connect();
    assert_eq!(packet.decode_control_packet(&mut reader), Ok(()));
    assert_eq!(packet.username.string, "us");
    assert_eq!(packet.password.bin, &[0x70]);
    assert_eq!(packet.will_properties.len(), 0);
    assert_eq!(packet.will_topic.len, 0);
    assert_eq!(reader.position, buf.len());
}

#[test]
fn connect_wrong_type() {
    let buf = [0x20u8, 0x03, 0x00, 0x00, 0x00];
    let mut reader = BuffReader::new(&buf);
    let mut packet = clean_connect();
    assert_eq!(packet.decode_control_packet(&mut reader), Err(ParseError::DecodingError));
}

#[test]
fn connect_missing_client_id() {
    let buf = connect_bytes(0x02, &[0x00, 0x05, b'a']);
    let mut reader = BuffReader::new(&buf);
    let mut packet = clean_connect();
    assert_eq!(packet.decode_control_packet(&mut reader), Err(ParseError::IndexOutOfBounce));
}

#[test]
fn section_exact_length() {
    let buf = [0x09u8, 0x01, 0x01, 0x26, 0x00, 0x01, b'a', 0x00, 0x01, b'b', 0xFF];
    let mut reader = BuffReader::new(&buf);
    let (len, list) = decode_packet_properties(&mut reader).unwrap();
    assert_eq!(len, 9);
    assert_eq!(list.len(), 2);
    assert!(matches!(list[0], Property::PayloadFormat(1)));
    match &list[1] {
        Property::UserProperty(p) => {
            assert_eq!(p.name.string, "a");
            assert_eq!(p.value.string, "b");
        }
        _ => panic!("expected a user property"),
    }
    assert_eq!(reader.position, 10);
}

#[test]
fn section_overshoot() {
    let buf = [0x04u8, 0x01, 0x01, 0x02, 0x00, 0x00, 0x00, 0x01];
    let mut reader = BuffReader::new(&buf);
    assert!(matches!(decode_packet_properties(&mut reader), Err(ParseError::DecodingError)));
    assert_eq!(reader.position, 0);
}

#[test]
fn section_unknown_id() {
    let buf = [0x02u8, 0x7F, 0x00];
    let mut reader = BuffReader::new(&buf);
    assert!(matches!(decode_packet_properties(&mut reader), Err(ParseError::DecodingError)));
}

#[test]
fn section_capacity_exceeded() {
    let mut buf = vec![16u8];
    for _ in 0..8 {
        buf.push(0x01);
        buf.push(0x00);
    }
    let mut reader = BuffReader::new(&buf);
    assert!(matches!(decode_will_properties(&mut reader), Err(ParseError::EncodingError)));
    let mut reader = BuffReader::new(&buf);
    let (_, list) = decode_packet_properties(&mut reader).unwrap();
    assert_eq!(list.len(), 8);
}

#[test]
fn property_unknown_id() {
    let buf = [0x7Fu8, 0x00];
    let mut reader = BuffReader::new(&buf);
    assert!(matches!(Property::decode(&mut reader), Err(ParseError::IdNotFound)));
    assert_eq!(reader.position, 0);
}

#[test]
fn property_variable_int_and_len() {
    let buf = [0x0Bu8, 0xC1, 0x02];
    let mut reader = BuffReader::new(&buf);
    let p = Property::decode(&mut reader).unwrap();
    assert!(matches!(p, Property::SubscriptionIdentifier(321)));
    assert_eq!(p.len(), 3);
    assert_eq!(reader.position, 3);
}

#[test]
fn property_string_utf8_error() {
    let buf = [0x03u8, 0x00, 0x01, 0xFF];
    let mut reader = BuffReader::new(&buf);
    assert!(matches!(Property::decode(&mut reader), Err(ParseError::Utf8Error)));
}

#[test]
fn packet_type_from_header() {
    assert_eq!(PacketType::from_header(0x10), PacketType::Connect);
    assert_eq!(PacketType::from_header(0x2F), PacketType::Connack);
    assert_eq!(PacketType::from_header(0x3B), PacketType::Publish);
    assert_eq!(PacketType::from_header(0x0F), PacketType::Reserved);
    assert_eq!(PacketType::Subscribe.header_bits(), 0x80);
}

#[test]
fn add_packet_type_keeps_flags() {
    let mut packet = clean_connect();
    packet.fixed_header = 0x1B;
    packet.addPacketType(PacketType::Publish);
    assert_eq!(packet.fixed_header, 0x3B);
}

#[test]
fn add_flags_on_publish() {
    let mut packet = clean_connect();
    packet.fixed_header = 0x30;
    assert_eq!(packet.addFlags(true, 2, true), Ok(()));
    assert_eq!(packet.fixed_header, 0x3D);
    assert_eq!(packet.addFlags(false, 1, false), Ok(()));
    assert_eq!(packet.fixed_header, 0x32);
}

#[test]
fn add_flags_refused_for_other_types() {
    let mut packet = clean_connect();
    packet.fixed_header = 0x10;
    assert_eq!(packet.addFlags(true, 1, true), Err(ParseError::EncodingError));
    assert_eq!(packet.fixed_header, 0x10);
}

#[test]
fn connect_will_only_keeps_credentials() {
    let payload = [
        0x00, 0x01, b'c', 0x00, 0x00, 0x01, b't', 0x00, 0x00,
    ];
    let buf = connect_bytes(0x04, &payload);
    let old_name = [b'o', b'l', b'd'];
    let old_pass = [0x01u8];
    let mut packet = clean_connect();
    packet.username = EncodedString { string: "old", len: 3 };
    packet.password = BinaryData { bin: &old_pass, len: 1 };
    let mut reader = BuffReader::new(&buf);
    assert_eq!(packet.decode_control_packet(&mut reader), Ok(()));
    assert_eq!(packet.will_topic.string, "t");
    assert_eq!(packet.username.string.as_bytes(), &old_name);
    assert_eq!(packet.password.bin, &old_pass);
}

#[test]
fn connect_credentials_only_keeps_will() {
    let payload = [0x00, 0x01, b'c', 0x00, 0x01, b'u', 0x00, 0x01, 0x70];
    let buf = connect_bytes(0xC0, &payload);
    let mut packet = clean_connect();
    packet.will_topic = EncodedString { string: "keep", len: 4 };
    packet.will_property_len = 9;
    let mut reader = BuffReader::new(&buf);
    assert_eq!(packet.decode_control_packet(&mut reader), Ok(()));
    assert_eq!(packet.will_topic.string, "keep");
    assert_eq!(packet.will_property_len, 9);
    assert_eq!(packet.username.string, "u");
}

#[test]
fn connect_wrong_type_keeps_fields() {
    let buf = [0x20u8, 0x03, 0x00, 0x00, 0x00];
    let mut reader = BuffReader::new(&buf);
    let mut packet = clean_connect();
    packet.keep_alive = 7;
    packet.connect_flags = 0x02;
    packet.client_id = EncodedString { string: "id", len: 2 };
    assert_eq!(packet.decode_control_packet(&mut reader), Err(ParseError::DecodingError));
    assert_eq!(packet.keep_alive, 7);
    assert_eq!(packet.connect_flags, 0x02);
    assert_eq!(packet.client_id.string, "id");
    assert_eq!(packet.protocol_version, 5);
    assert_eq!(reader.position, 0);
}

#[test]
fn connect_truncated_restores_cursor() {
    let full = connect_bytes(0x02, &[0x00, 0x03, b'a', b'b', b'c']);
    for k in 0..full.len() {
        let mut reader = BuffReader::new(&full[..k]);
        let mut packet = clean_connect();
        assert_eq!(packet.decode_control_packet(&mut reader), Err(ParseError::IndexOutOfBounce));
        assert_eq!(reader.position, 0);
    }
}

#[test]
fn connack_wrong_type_keeps_fields() {
    let buf = [0x10u8, 0x03, 0x00, 0x00, 0x00];
    let mut reader = BuffReader::new(&buf);
    let mut packet = ConnackPacket::new();
    packet.ack_flags = 1;
    packet.connect_reason_code = 0x80;
    assert_eq!(packet.decode_connack_packet(&mut reader), Err(ParseError::DecodingError));
    assert_eq!(packet.ack_flags, 1);
    assert_eq!(packet.connect_reason_code, 0x80);
    assert_eq!(packet.properties.len(), 0);
    assert_eq!(reader.position, 0);
}

#[test]
fn connack_bad_properties_keep_list_and_cursor() {
    let buf = [0x20u8, 0x05, 0x00, 0x00, 0x02, 0x7F, 0x00];
    let mut reader = BuffReader::new(&buf);
    let mut packet = ConnackPacket::new();
    assert_eq!(packet.decode_connack_packet(&mut reader), Err(ParseError::DecodingError));
    assert_eq!(packet.properties.len(), 0);
    assert_eq!(reader.position, 0);
}

#[test]
fn fixed_header_failure_keeps_cursor() {
    let buf = [0x20u8, 0x80];
    let mut reader = BuffReader::new(&buf);
    let mut packet = ConnackPacket::new();
    assert_eq!(packet.decode_fixed_header(&mut reader), Err(ParseError::IndexOutOfBounce));
    assert_eq!(reader.position, 0);
    assert_eq!(packet.fixed_header, 0);
}

#[test]
fn will_properties_over_capacity_keep_list() {
    let mut buf = vec![0x10u8, 0x00, 0x00, 0x04, b'M', b'Q', b'T', b'T', 0x05, 0x04, 0x00, 0x3C, 0x00, 0x00, 0x01, b'c', 16];
    for _ in 0..8 {
        buf.push(0x01);
        buf.push(0x00);
    }
    buf[1] = (buf.len() - 2) as u8;
    let mut reader = BuffReader::new(&buf);
    let mut packet = clean_connect();
    assert_eq!(packet.decode_control_packet(&mut reader), Err(ParseError::EncodingError));
    assert_eq!(packet.will_properties.len(), 0);
    assert_eq!(reader.position, 0);
}
