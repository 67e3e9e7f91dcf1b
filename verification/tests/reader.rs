use reader::reader::ReadBuffer;
use reader::{ErrorKind, Tag};

fn loaded(bytes: &[u8]) -> ReadBuffer<'_> {
    let mut buffer = ReadBuffer::new(bytes);
    assert_eq!(buffer.read_from_file(bytes.len()), Ok(true));
    buffer
}

fn encode_unsigned(mut value: u32) -> Vec<u8> {
    let mut bytes = Vec::new();
    while value >= 0x80 {
        bytes.push((value & 0x7f) as u8 | 0x80);
        value >>= 7;
    }
    bytes.push(value as u8);
    bytes
}

fn encode_signed(value: i32) -> Vec<u8> {
    let mut magnitude = value.unsigned_abs();
    let mut bytes = Vec::new();
    while magnitude >= 0x40 {
        bytes.push((magnitude & 0x7f) as u8 | 0x80);
        magnitude >>= 7;
    }
    bytes.push(magnitude as u8 | if value < 0 { 0x40 } else { 0 });
    bytes
}

#[test]
fn unsigned_128_takes_two_bytes() {
    assert_eq!(encode_unsigned(128), vec![0x80, 0x01]);
    let mut buffer = loaded(&[0x80, 0x01, 0x55]);
    assert_eq!(buffer.read_unsigned_int(), Ok(128));
    assert_eq!(buffer.get_buffer_position(), 2);
}

#[test]
fn signed_minus_one_takes_one_byte() {
    assert_eq!(encode_signed(-1), vec![0x41]);
    let mut buffer = loaded(&[0x41, 0x55]);
    assert_eq!(buffer.read_signed_int(), Ok(-1));
    assert_eq!(buffer.get_buffer_position(), 1);
}

#[test]
fn unsigned_round_trip() {
    let values = [
        0u32, 1, 63, 64, 127, 128, 129, 255, 256, 16383, 16384, 2097151, 2097152, 268435455,
        268435456, 0x7fff_ffff, 0x8000_0000, 0xffff_fffe, 0xffff_ffff,
    ];
    for value in values {
        let mut bytes = vec![0x99];
        bytes.extend(encode_unsigned(value));
        let end = bytes.len();
        bytes.push(0x80);
        let mut buffer = loaded(&bytes);
        assert_eq!(buffer.skip_bytes(1), Ok(()));
        assert_eq!(buffer.read_unsigned_int(), Ok(value));
        assert_eq!(buffer.get_buffer_position(), end);
    }
}

#[test]
fn signed_round_trip() {
    let values = [
        0i32, 1, -1, 63, -63, 64, -64, 127, -128, 8191, 8192, -8192, 1048575, 1048576, 100000,
        -100000, 134217727, 134217728, i32::MAX, -i32::MAX,
    ];
    for value in values {
        let bytes = encode_signed(value);
        let mut buffer = loaded(&bytes);
        assert_eq!(buffer.read_signed_int(), Ok(value));
        assert_eq!(buffer.get_buffer_position(), bytes.len());
    }
}

#[test]
fn signed_terminating_byte_gives_six_bits() {
    // 0x85 continues with 5; 0x43 ends with 3 and the sign
    let mut buffer = loaded(&[0x85, 0x43]);
    assert_eq!(buffer.read_signed_int(), Ok(-(5 + 3 * 128)));
    // the same bytes as an unsigned number: the last byte gives all its bits
    let mut buffer = loaded(&[0x85, 0x43]);
    assert_eq!(buffer.read_unsigned_int(), Ok(5 + 0x43 * 128));
}

#[test]
fn negative_zero_is_zero() {
    let mut buffer = loaded(&[0x40]);
    assert_eq!(buffer.read_signed_int(), Ok(0));
}

#[test]
fn variable_byte_integer_that_runs_out_is_invalid() {
    let mut buffer = loaded(&[0x80, 0x80]);
    let error = buffer.read_unsigned_int().unwrap_err();
    assert_eq!(error.kind, ErrorKind::InvalidEncoding);
    assert_eq!(buffer.get_buffer_position(), 0);
    let error = buffer.read_signed_int().unwrap_err();
    assert_eq!(error.kind, ErrorKind::InvalidEncoding);
    let mut empty = loaded(&[]);
    assert_eq!(empty.read_unsigned_int().unwrap_err().kind, ErrorKind::InvalidEncoding);
}

#[test]
fn variable_byte_integer_beyond_32_bits_is_invalid() {
    // 2^32
    let mut buffer = loaded(&[0x80, 0x80, 0x80, 0x80, 0x10]);
    assert_eq!(buffer.read_unsigned_int().unwrap_err().kind, ErrorKind::InvalidEncoding);
    // 2^32 - 1
    let mut buffer = loaded(&[0xff, 0xff, 0xff, 0xff, 0x0f]);
    assert_eq!(buffer.read_unsigned_int(), Ok(u32::MAX));
    // 2^31 as a magnitude
    let mut buffer = loaded(&[0x80, 0x80, 0x80, 0x80, 0x08]);
    assert_eq!(buffer.read_signed_int().unwrap_err().kind, ErrorKind::InvalidEncoding);
    // a seventh byte with a payload
    let mut buffer = loaded(&[0x80, 0x80, 0x80, 0x80, 0x80, 0x81, 0x00]);
    assert_eq!(buffer.read_unsigned_int().unwrap_err().kind, ErrorKind::InvalidEncoding);
}

#[test]
fn padded_zero_is_read() {
    let mut buffer = loaded(&[0x85, 0x80, 0x80, 0x80, 0x80, 0x80, 0x80, 0x00, 0x07]);
    assert_eq!(buffer.read_unsigned_int(), Ok(5));
    assert_eq!(buffer.get_buffer_position(), 8);
}

#[test]
fn fixed_width_readers_advance() {
    let mut buffer = loaded(&[7, 0xff, 0xfe, 0, 0, 1, 0, 0, 0, 0, 0, 0, 0, 1, 0]);
    assert_eq!(buffer.read_byte(), Ok(7));
    assert_eq!(buffer.read_short(), Ok(-2));
    assert_eq!(buffer.read_int(), Ok(256));
    assert_eq!(buffer.read_long(), Ok(256));
    assert_eq!(buffer.get_buffer_position(), 15);
    assert_eq!(buffer.get_buffer_size(), 15);
}

#[test]
fn readers_fail_past_the_end() {
    let mut buffer = loaded(&[1, 2, 3]);
    assert_eq!(buffer.read_int().unwrap_err().kind, ErrorKind::BufferOverrun);
    assert_eq!(buffer.read_long().unwrap_err().kind, ErrorKind::BufferOverrun);
    assert_eq!(buffer.get_buffer_position(), 0);
    assert_eq!(buffer.read_short(), Ok(0x0102));
    assert_eq!(buffer.read_short().unwrap_err().kind, ErrorKind::BufferOverrun);
    assert_eq!(buffer.read_byte(), Ok(3));
    assert_eq!(buffer.read_byte().unwrap_err().kind, ErrorKind::BufferOverrun);
    assert_eq!(buffer.skip_bytes(1).unwrap_err().kind, ErrorKind::BufferOverrun);
    assert_eq!(buffer.skip_bytes(0), Ok(()));
    assert_eq!(buffer.set_buffer_position(4).unwrap_err().kind, ErrorKind::BufferOverrun);
    assert_eq!(buffer.set_buffer_position(1), Ok(()));
    assert_eq!(buffer.read_byte(), Ok(2));
}

#[test]
fn texts_are_utf8() {
    let mut bytes = vec![6];
    bytes.extend("grüß".as_bytes());
    bytes.push(0);
    let mut buffer = loaded(&bytes);
    assert_eq!(buffer.read_utf8_encoded_string(), Ok("grüß".to_string()));
    assert_eq!(buffer.get_buffer_position(), 7);
    // a text without bytes
    assert_eq!(buffer.read_utf8_encoded_string(), Ok(String::new()));
    assert_eq!(buffer.get_buffer_position(), 8);
}

#[test]
fn text_that_is_not_utf8_is_invalid() {
    let mut buffer = loaded(&[2, 0xc3, 0x28]);
    let error = buffer.read_utf8_encoded_string().unwrap_err();
    assert_eq!(error.kind, ErrorKind::InvalidEncoding);
    assert_eq!(buffer.get_buffer_position(), 0);
    let error = buffer.read_utf8_encoded_string_with_length(4).unwrap_err();
    assert_eq!(error.kind, ErrorKind::BufferOverrun);
}

#[test]
fn tags_are_looked_up() {
    let dictionary = vec![
        Tag::from_string("a=1".to_string()),
        Tag::new("b".to_string(), "2".to_string()),
        Tag::from_string("c=3".to_string()),
    ];
    let mut buffer = loaded(&[2, 0, 1, 3]);
    let tags = buffer.read_tags(&dictionary, 3).unwrap();
    assert_eq!(tags.len(), 3);
    assert_eq!((tags[0].key.as_str(), tags[0].value.as_str()), ("c=3", "c=3"));
    assert_eq!((tags[1].key.as_str(), tags[1].value.as_str()), ("a=1", "a=1"));
    assert_eq!((tags[2].key.as_str(), tags[2].value.as_str()), ("b", "2"));
    assert_eq!(buffer.get_buffer_position(), 3);
    let error = buffer.read_tags(&dictionary, 1).unwrap_err();
    assert_eq!(error.kind, ErrorKind::InvalidTagId);
    assert_eq!(error.value, 3);
    assert_eq!(buffer.get_buffer_position(), 3);
}

#[test]
fn loading_reads_the_source_in_turn() {
    let source: Vec<u8> = (0u8..10).collect();
    let mut buffer = ReadBuffer::new(&source);
    assert_eq!(buffer.read_from_file(4), Ok(true));
    assert_eq!(buffer.read_int(), Ok(0x00010203));
    assert_eq!(buffer.read_from_file(2), Ok(true));
    assert_eq!(buffer.get_buffer_position(), 0);
    assert_eq!(buffer.read_short(), Ok(0x0405));
    // the source ends first: nothing changes
    assert_eq!(buffer.read_from_file(5), Ok(false));
    assert_eq!(buffer.get_buffer_size(), 2);
    assert_eq!(buffer.get_buffer_position(), 2);
    assert_eq!(buffer.read_from_file_at_offset(8, 2), Ok(true));
    assert_eq!(buffer.read_short(), Ok(0x0809));
    assert_eq!(buffer.read_from_file_at_offset(9, 2), Ok(false));
    assert_eq!(buffer.read_from_file_at_offset(11, 0), Ok(false));
    assert_eq!(buffer.read_from_file_at_offset(10, 0), Ok(true));
    assert_eq!(buffer.get_buffer_size(), 0);
}

#[test]
fn loading_more_than_ten_mebibytes_is_too_large() {
    let source = [0u8; 4];
    let mut buffer = ReadBuffer::new(&source);
    assert_eq!(buffer.read_from_file(10485761).unwrap_err().kind, ErrorKind::TooLarge);
    assert_eq!(buffer.read_from_file_at_offset(0, 10485761).unwrap_err().kind, ErrorKind::TooLarge);
    assert_eq!(buffer.read_from_file(10485760), Ok(false));
}

#[test]
fn signatures_are_held_to_their_prefix() {
    let mut bytes = b"###TileStart0,0###              ".to_vec();
    assert_eq!(bytes.len(), 32);
    bytes.push(9);
    let mut buffer = loaded(&bytes);
    assert!(buffer.starts_with(b"###TileStart"));
    assert!(!buffer.starts_with(b"***POIStart"));
    let error = buffer.read_signature(b"***POIStart").unwrap_err();
    assert_eq!(error.kind, ErrorKind::InvalidSignature);
    assert_eq!(buffer.get_buffer_position(), 0);
    assert_eq!(buffer.read_signature(b"###TileStart"), Ok(()));
    assert_eq!(buffer.get_buffer_position(), 32);
    assert_eq!(buffer.read_signature(b"").unwrap_err().kind, ErrorKind::BufferOverrun);
}
