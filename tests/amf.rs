use castelia_rtmp::amf::{number_to_u32, AMF0Value, CastError, DecodeError, Decoder};

fn string_bytes(s: &str) -> Vec<u8> {
    [(s.len() as u16).to_be_bytes().as_slice(), s.as_bytes()].concat()
}

#[test]
fn test_decode_string() {
    let actual = "hello world";
    let bytes = string_bytes(actual);
    let mut decoder = Decoder::new(&bytes);
    assert_eq!(decoder.decode_string(), Ok(AMF0Value::String(actual.to_string())));
    assert_eq!(decoder.position(), bytes.len() as u64);
}

#[test]
fn test_decode_number() {
    let actual: f64 = rand::random();
    let bytes = actual.to_be_bytes();
    let mut decoder = Decoder::new(&bytes);
    assert_eq!(decoder.decode_number(), Ok(AMF0Value::Number(actual.to_bits())));
    assert_eq!(decoder.position(), 8);
}

#[test]
fn test_decode_bool() {
    let mut decoder = Decoder::new(&[1]);
    assert_eq!(decoder.decode_bool(), Ok(AMF0Value::Boolean(true)));
    assert_eq!(decoder.position(), 1);
    let mut decoder = Decoder::new(&[0]);
    assert_eq!(decoder.decode_bool(), Ok(AMF0Value::Boolean(false)));
    assert_eq!(decoder.position(), 1);
}

#[test]
fn test_decode_string_with_marker() {
    let actual = "hello world";
    let bytes = [&[0x02u8][..], &string_bytes(actual)].concat();
    let mut decoder = Decoder::new(bytes.as_slice());
    assert_eq!(decoder.decode(), Ok(AMF0Value::String(actual.to_string())));
    assert_eq!(decoder.position(), bytes.len() as u64);
    assert_eq!(decoder.position(), 14);
}

#[test]
fn test_decode_number_with_marker() {
    let actual: f64 = rand::random();
    let bytes = [&[0x00u8][..], actual.to_be_bytes().as_slice()].concat();
    let mut decoder = Decoder::new(bytes.as_slice());
    assert_eq!(decoder.decode(), Ok(AMF0Value::Number(actual.to_bits())));
    assert_eq!(decoder.position(), bytes.len() as u64);
}

#[test]
fn test_decode_bool_with_marker() {
    let mut decoder = Decoder::new(&[0x01, 0x01]);
    assert_eq!(decoder.decode(), Ok(AMF0Value::Boolean(true)));
    assert_eq!(decoder.position(), 2);
    let mut decoder = Decoder::new(&[0x01, 0x00]);
    assert_eq!(decoder.decode(), Ok(AMF0Value::Boolean(false)));
    assert_eq!(decoder.position(), 2);
}

#[test]
fn number_42_5_leaves_cursor_at_nine() {
    let bytes = [&[0x00u8][..], 42.5f64.to_be_bytes().as_slice()].concat();
    let mut decoder = Decoder::new(&bytes);
    assert_eq!(decoder.decode(), Ok(AMF0Value::Number(42.5f64.to_bits())));
    assert_eq!(decoder.position(), 9);
}

#[test]
fn nonzero_boolean_byte_is_true() {
    let mut decoder = Decoder::new(&[0x01, 0x07]);
    assert_eq!(decoder.decode(), Ok(AMF0Value::Boolean(true)));
}

#[test]
fn null_takes_one_byte() {
    let mut decoder = Decoder::new(&[0x05, 0x05]);
    assert_eq!(decoder.decode(), Ok(AMF0Value::Null));
    assert_eq!(decoder.position(), 1);
    assert_eq!(decoder.decode(), Ok(AMF0Value::Null));
    assert_eq!(decoder.position(), 2);
}

#[test]
fn object_is_read_through_its_end_marker() {
    let mut bytes = vec![0x03];
    bytes.extend(string_bytes("app"));
    bytes.push(0x02);
    bytes.extend(string_bytes("live"));
    bytes.extend(string_bytes("n"));
    bytes.push(0x00);
    bytes.extend(2.0f64.to_be_bytes());
    bytes.extend(string_bytes("inner"));
    bytes.push(0x03);
    bytes.extend(string_bytes("ok"));
    bytes.extend([0x01, 0x01]);
    bytes.extend([0x00, 0x00, 0x09]);
    bytes.extend([0x00, 0x00, 0x09]);
    let total = bytes.len() as u64;
    bytes.push(0x05);
    let mut decoder = Decoder::new(&bytes);
    let expected = AMF0Value::Object(vec![
        ("app".to_string(), AMF0Value::String("live".to_string())),
        ("n".to_string(), AMF0Value::Number(2.0f64.to_bits())),
        (
            "inner".to_string(),
            AMF0Value::Object(vec![("ok".to_string(), AMF0Value::Boolean(true))]),
        ),
    ]);
    assert_eq!(decoder.decode(), Ok(expected));
    assert_eq!(decoder.position(), total);
    assert_eq!(decoder.decode(), Ok(AMF0Value::Null));
}

#[test]
fn empty_object() {
    let mut decoder = Decoder::new(&[0x03, 0x00, 0x00, 0x09]);
    assert_eq!(decoder.decode(), Ok(AMF0Value::Object(vec![])));
    assert_eq!(decoder.position(), 4);
}

#[test]
fn get_buf_gives_the_unread_bytes() {
    let bytes = [0x05, 0x01, 0x00];
    let mut decoder = Decoder::new(&bytes);
    decoder.decode().unwrap();
    assert_eq!(decoder.get_buf(), Ok(&bytes[1..]));
}

#[test]
fn empty_input_lacks_a_type_marker() {
    let mut decoder = Decoder::new(&[]);
    assert_eq!(decoder.decode(), Err(DecodeError::MissingTypeMarker));
}

#[test]
fn unknown_marker_is_reported() {
    let mut decoder = Decoder::new(&[0x11]);
    assert_eq!(decoder.decode(), Err(DecodeError::UnknownMarker(0x11)));
}

#[test]
fn short_number_is_invalid() {
    let mut decoder = Decoder::new(&[0x00, 1, 2, 3]);
    assert_eq!(decoder.decode(), Err(DecodeError::InvalidNumber));
}

#[test]
fn missing_boolean_byte_is_invalid() {
    let mut decoder = Decoder::new(&[0x01]);
    assert_eq!(decoder.decode(), Err(DecodeError::InvalidBool));
}

#[test]
fn truncated_string_is_unexpected_eof() {
    let mut decoder = Decoder::new(&[0x02, 0x00, 0x05, b'a']);
    assert_eq!(decoder.decode(), Err(DecodeError::UnexpectedEOF));
    let mut decoder = Decoder::new(&[0x02, 0x00]);
    assert_eq!(decoder.decode(), Err(DecodeError::UnexpectedEOF));
}

#[test]
fn invalid_utf8_string_is_reported() {
    let mut decoder = Decoder::new(&[0x02, 0x00, 0x02, 0xc3, 0x28]);
    assert_eq!(decoder.decode(), Err(DecodeError::InvalidUtf8));
}

#[test]
fn invalid_utf8_key_is_an_invalid_object_key() {
    let mut decoder = Decoder::new(&[0x03, 0x00, 0x01, 0xff, 0x05, 0x00, 0x00, 0x09]);
    assert_eq!(decoder.decode(), Err(DecodeError::InvalidObjectKey));
}

#[test]
fn unterminated_object_is_unexpected_eof() {
    let mut decoder = Decoder::new(&[0x03, 0x00, 0x01, b'k', 0x05]);
    assert_eq!(decoder.decode(), Err(DecodeError::UnexpectedEOF));
    let mut decoder = Decoder::new(&[0x03, 0x00, 0x01, b'k']);
    assert_eq!(decoder.decode(), Err(DecodeError::MissingTypeMarker));
    let mut decoder = Decoder::new(&[0x03, 0x00]);
    assert_eq!(decoder.decode(), Err(DecodeError::UnexpectedEOF));
}

#[test]
fn multibyte_utf8_string() {
    let s = "héllo→";
    let bytes = [&[0x02u8][..], &string_bytes(s)].concat();
    let mut decoder = Decoder::new(&bytes);
    assert_eq!(decoder.decode(), Ok(AMF0Value::String(s.to_string())));
}

#[test]
fn casts() {
    assert_eq!(AMF0Value::String("a".to_string()).into_string(), Ok("a".to_string()));
    assert_eq!(AMF0Value::Null.into_string(), Err(CastError::NotAString));
    assert_eq!(AMF0Value::Number(7).as_number(), Ok(7));
    assert_eq!(AMF0Value::Boolean(true).as_number(), Err(CastError::NotANumber));
    assert_eq!(AMF0Value::Boolean(false).as_bool(), Ok(false));
    assert_eq!(AMF0Value::Number(0).as_bool(), Err(CastError::NotABoolean));
}

#[test]
fn numbers_convert_to_u32_like_as() {
    for x in [0.0f64, 1.0, 3.9, 42.5, 65536.0, 4294967295.0, 4294967296.5, 1e20, -0.5, -3.0] {
        assert_eq!(number_to_u32(x.to_bits()), x as u32, "{}", x);
    }
    assert_eq!(number_to_u32(f64::NAN.to_bits()), 0);
    assert_eq!(number_to_u32(f64::INFINITY.to_bits()), u32::MAX);
    assert_eq!(number_to_u32(f64::NEG_INFINITY.to_bits()), 0);
    assert_eq!(number_to_u32(5e-324f64.to_bits()), 0);
}
