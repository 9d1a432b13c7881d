use mqtt_decode::buffer_reader::{BinaryData, BuffReader, EncodedString, ParseError, StringPair, TopicFilter};
use mqtt_decode::variable_byte_integer::{decode_variable_byte_int, encode_variable_byte_int};

#[test]
fn vbi_round_trip_values() {
    let cases: [(u32, usize); 8] = [
        (0, 1),
        (127, 1),
        (128, 2),
        (16383, 2),
        (16384, 3),
        (2097151, 3),
        (2097152, 4),
        (268435455, 4),
    ];
    for (v, n) in cases {
        let (bytes, len) = encode_variable_byte_int(v).unwrap();
        assert_eq!(len, n);
        assert_eq!(decode_variable_byte_int(&bytes[..len]), Ok((v, n)));
        let mut reader = BuffReader::new(&bytes[..len]);
        assert_eq!(reader.read_variable_byte_int(), Ok(v));
        assert_eq!(reader.position, n);
    }
}

#[test]
fn vbi_exact_bytes() {
    let (bytes, len) = encode_variable_byte_int(321).unwrap();
    assert_eq!(&bytes[..len], &[0xC1, 0x02]);
    assert_eq!(decode_variable_byte_int(&[0xFF, 0xFF, 0xFF, 0x7F]), Ok((268435455, 4)));
}

#[test]
fn vbi_too_large_is_refused() {
    assert_eq!(encode_variable_byte_int(268435456), Err(ParseError::EncodingError));
}

#[test]
fn vbi_unterminated_is_an_error() {
    let buf = [0x80u8, 0x80, 0x80, 0x80, 0x01];
    let mut reader = BuffReader::new(&buf);
    assert_eq!(reader.read_variable_byte_int(), Err(ParseError::VariableByteIntegerError));
    assert_eq!(reader.position, 0);
}

#[test]
fn vbi_short_buffer() {
    let buf = [0x80u8, 0x80];
    let mut reader = BuffReader::new(&buf);
    assert_eq!(reader.read_variable_byte_int(), Err(ParseError::IndexOutOfBounce));
    let empty: [u8; 0] = [];
    let mut reader = BuffReader::new(&empty);
    assert_eq!(reader.read_variable_byte_int(), Err(ParseError::IndexOutOfBounce));
}

#[test]
fn primitives_are_big_endian() {
    let buf = [0x12u8, 0x34, 0x56, 0x78, 0x9A, 0xBC, 0xDE];
    let mut reader = BuffReader::new(&buf);
    assert_eq!(reader.read_u32(), Ok(0x12345678));
    assert_eq!(reader.read_u16(), Ok(0x9ABC));
    assert_eq!(reader.read_u8(), Ok(0xDE));
    assert_eq!(reader.position, 7);
}

#[test]
fn primitives_short_buffer() {
    let buf = [0x01u8, 0x02, 0x03];
    let mut reader = BuffReader::new(&buf);
    assert_eq!(reader.read_u32(), Err(ParseError::IndexOutOfBounce));
    assert_eq!(reader.position, 0);
    let mut reader = BuffReader::new(&buf[..1]);
    assert_eq!(reader.read_u16(), Err(ParseError::IndexOutOfBounce));
    let mut reader = BuffReader::new(&buf[..0]);
    assert_eq!(reader.read_u8(), Err(ParseError::IndexOutOfBounce));
}

#[test]
fn cursor_past_end_reads_nothing() {
    let buf = [0x01u8, 0x02];
    let mut reader = BuffReader::new(&buf);
    reader.position = 5;
    assert_eq!(reader.read_u8(), Err(ParseError::IndexOutOfBounce));
    assert_eq!(reader.read_variable_byte_int(), Err(ParseError::IndexOutOfBounce));
}

#[test]
fn string_round_trip() {
    for text in ["", "MQTT", "žluťoučký kůň"] {
        let mut buf = vec![(text.len() / 256) as u8, (text.len() % 256) as u8];
        buf.extend_from_slice(text.as_bytes());
        buf.push(0xAA);
        let mut reader = BuffReader::new(&buf);
        let s = reader.read_string().unwrap();
        assert_eq!(s.string, text);
        assert_eq!(s.len as usize, text.len());
        assert_eq!(s.len() as usize, text.len() + 2);
        assert_eq!(reader.position, text.len() + 2);
    }
}

#[test]
fn string_short_buffer() {
    let buf = [0x00u8, 0x05, b'a', b'b'];
    let mut reader = BuffReader::new(&buf);
    assert!(matches!(reader.read_string(), Err(ParseError::IndexOutOfBounce)));
    assert_eq!(reader.position, 0);
    let mut reader = BuffReader::new(&buf[..1]);
    assert!(matches!(reader.read_string(), Err(ParseError::IndexOutOfBounce)));
}

#[test]
fn string_invalid_utf8() {
    let buf = [0x00u8, 0x02, 0xC3, 0x28];
    let mut reader = BuffReader::new(&buf);
    assert!(matches!(reader.read_string(), Err(ParseError::Utf8Error)));
    assert_eq!(reader.position, 0);
}

#[test]
fn binary_read() {
    let buf = [0x00u8, 0x03, 0xFF, 0x00, 0xC3, 0x99];
    let mut reader = BuffReader::new(&buf);
    let d = reader.read_binary().unwrap();
    assert_eq!(d.bin, &[0xFF, 0x00, 0xC3]);
    assert_eq!(d.len, 3);
    assert_eq!(d.len(), 5);
    assert_eq!(reader.position, 5);
}

#[test]
fn binary_short_buffer() {
    let buf = [0x00u8, 0x04, 0x01];
    let mut reader = BuffReader::new(&buf);
    assert!(matches!(reader.read_binary(), Err(ParseError::IndexOutOfBounce)));
    assert_eq!(reader.position, 0);
}

#[test]
fn string_pair_read() {
    let buf = [0x00u8, 0x01, b'k', 0x00, 0x02, b'v', b'w'];
    let mut reader = BuffReader::new(&buf);
    let p = reader.read_string_pair().unwrap();
    assert_eq!(p.name.string, "k");
    assert_eq!(p.value.string, "vw");
    assert_eq!(p.len(), 7);
    assert_eq!(reader.position, 7);
}

#[test]
fn string_pair_second_fails() {
    let buf = [0x00u8, 0x01, b'k', 0x00, 0x02, b'v'];
    let mut reader = BuffReader::new(&buf);
    assert!(matches!(reader.read_string_pair(), Err(ParseError::IndexOutOfBounce)));
    assert_eq!(reader.position, 0);
}

#[test]
fn empty_views() {
    let s = EncodedString::new();
    assert_eq!(s.string, "");
    assert_eq!(s.len, 0);
    assert_eq!(s.len(), 2);
    let d = BinaryData::new();
    assert_eq!(d.bin.len(), 0);
    assert_eq!(d.len(), 2);
    let t = TopicFilter::new();
    assert_eq!(t.filter.len, 0);
    assert_eq!(t.sub_options, 0);
    assert_eq!(t.len(), 3);
    let p = StringPair { name: EncodedString::new(), value: EncodedString::new() };
    assert_eq!(p.len(), 4);
}

#[test]
fn message_and_increment() {
    let buf = [1u8, 2, 3, 4, 5];
    let mut reader = BuffReader::new(&buf);
    reader.increment_position(1);
    assert_eq!(reader.position, 1);
    assert_eq!(reader.read_message(4), &[2, 3, 4]);
    assert_eq!(reader.position, 1);
}
