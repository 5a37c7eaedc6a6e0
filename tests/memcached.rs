use probes::memcached::command::{Command, Get, SetCommand, SET_OPCODE};
use probes::memcached::cursor::ByteCursor;
use probes::memcached::frame::{Error, FrameResponse};
use probes::memcached::header::{RequestHeader, ResponseHeader};
use probes::memcached::response::Response;
use probes::memcached::{end_of_stream, status_label, MemcachedError, StreamEnd};

fn cursor(input: &str) -> ByteCursor {
    ByteCursor::new(hex::decode(input).expect("Decoding failed"))
}

#[test]
fn command_set_as_bytes() {
    let input =
        "80010004080000000000001100000000000000000000000000000000000000647465737476616c7565";
    let decoded = hex::decode(input).expect("Decoding failed");
    let mut set = SetCommand::new("test".as_bytes(), "value".as_bytes(), 100);
    assert_eq!(set.as_bytes(), decoded)
}

#[test]
fn get_as_bytes() {
    let input = "80000004000000000000000400000000000000000000000074657374";
    let decoded = hex::decode(input).expect("Decoding failed");
    let mut get = Get::new("test".as_bytes());
    assert_eq!(get.as_bytes(), decoded)
}

#[test]
fn set_set_as_bytes() {
    let input =
        "80010004080000000000001100000000000000000000000000000000000000647465737476616c7565";
    let decoded = hex::decode(input).expect("Decoding failed");
    let mut set = probes::memcached::set::SetCommand::new("test", "value".as_bytes().to_vec(), 100);
    assert_eq!(set.as_bytes(), decoded)
}

fn frame_check(input: &str) -> (Result<(), Error>, u64) {
    let mut c = cursor(input);
    (FrameResponse::check(&mut c), c.position())
}

#[test]
fn check_frame() {
    let (res, position) = frame_check("8100000004000000000000050000000000000000000000010000000030");
    assert!(res.is_ok());
    assert_eq!(position, 29);
}

#[test]
fn frame_check_response_header_incomplete() {
    let (res, _) = frame_check("8100000004000000000000100000000000000000000000010000000030");
    assert!(res.is_err());
    assert_eq!(res.err().unwrap(), Error::Incomplete);
}

#[test]
fn parse_frame() {
    let mut c = cursor("81000000040000000000000c00000000000000000000000100000000546573744e69636f");
    let response = FrameResponse::parse(&mut c);
    assert_eq!(response.header.total_body_length, 12);
    assert_eq!(response.extra, b"\0\0\0\0".to_vec());
    assert_eq!(response.key, b"".to_vec());
    assert_eq!(response.value, b"TestNico".to_vec());
}

#[test]
fn parse_response_header() {
    let mut c = cursor("8100000004000000000000050000000000000000000000010000000030");
    let res = ResponseHeader::parse(&mut c);
    let response = ResponseHeader {
        magic: b"\x81".to_vec(),
        opcode: b"\0".to_vec(),
        key_length: 0,
        extra_length: 4,
        data_type: b"\0".to_vec(),
        status: b"\0\0".to_vec(),
        total_body_length: 5,
        opaque: b"\0\0\0\0".to_vec(),
        cas: b"\0\0\0\0\0\0\0\x01".to_vec(),
    };
    assert_eq!(res, response);
}

#[test]
fn check_response_header() {
    let mut c = cursor("8100000004000000000000050000000000000000000000010000000030");
    let res = ResponseHeader::check(&mut c).expect("Failed to get total length response");
    assert_eq!(res, 29);
}

#[test]
fn check_response_header_bad_magic() {
    let mut c = cursor("8000000004000000000000050000000000000000000000010000000030");
    let res = ResponseHeader::check(&mut c);
    assert!(res.is_err());
    assert_eq!(res.err().unwrap(), MemcachedError::Other);
}

#[test]
fn header_check_response_header_incomplete() {
    let mut c = cursor("81000000040000000000000500000000000000000000");
    let res = ResponseHeader::check(&mut c);
    assert!(res.is_err());
    assert_eq!(res.err().unwrap(), MemcachedError::Incomplete);
}

#[test]
fn header_as_bytes() {
    let input = "800100010800000000000011000000000000000000000000";
    let decoded = hex::decode(input).expect("Decoding failed");
    let key_length: u16 = 1;
    let extra_length = 8;
    let value_length: u32 = 8;
    let mut header = RequestHeader::new(SET_OPCODE, key_length, extra_length, value_length);
    assert_eq!(header.as_bytes(), decoded)
}

fn response_check(input: &str) -> Result<usize, MemcachedError> {
    let mut c = cursor(input);
    Response::check(&mut c)
}

#[test]
fn check_response() {
    let res = response_check("8100000004000000000000050000000000000000000000010000000030");
    assert!(res.is_ok());
    assert_eq!(res.ok().unwrap(), 29);
}

#[test]
fn response_check_response_header_incomplete() {
    let res = response_check("8100000004000000000000100000000000000000000000010000000030");
    assert!(res.is_err());
    assert_eq!(res.err().unwrap(), MemcachedError::Incomplete);
}

#[test]
fn parse_response() {
    let mut c = cursor("81000000040000000000000c00000000000000000000000100000000546573744e69636f");
    let response = Response::parse(&mut c);
    assert_eq!(response.header.total_body_length, 12);
}

#[test]
fn set_header_decodes_to_its_lengths() {
    let mut set = SetCommand::new("test".as_bytes(), "value".as_bytes(), 100);
    let mut c = ByteCursor::new(set.as_bytes());
    let header = ResponseHeader::parse(&mut c);
    assert_eq!(header.key_length, 4);
    assert_eq!(header.extra_length, 8);
    assert_eq!(header.total_body_length, 17);
}

#[test]
fn short_frame_leaves_position_unchanged() {
    let mut c = cursor("8100000004000000000000100000000000000000000000010000000030");
    c.advance(0);
    assert_eq!(FrameResponse::check(&mut c), Err(Error::Incomplete));
    assert_eq!(c.position(), 0);
    let mut h = cursor("810000");
    assert_eq!(ResponseHeader::check(&mut h), Err(MemcachedError::Incomplete));
    assert_eq!(h.position(), 0);
    let mut r = cursor("8100000004000000000000100000000000000000000000010000000030");
    assert_eq!(Response::check(&mut r), Err(MemcachedError::Incomplete));
    assert_eq!(r.position(), 0);
}

#[test]
fn wrong_magic_is_a_protocol_mismatch() {
    let (res, position) = frame_check("8000000004000000000000050000000000000000000000010000000030");
    assert_eq!(res, Err(Error::Other));
    assert_eq!(position, 0);
    assert_eq!(
        response_check("8000000004000000000000050000000000000000000000010000000030"),
        Err(MemcachedError::Other)
    );
}

#[test]
fn check_leaves_a_later_position_where_it_was() {
    let mut data = vec![0u8, 0u8];
    data.extend(hex::decode("8100000004000000000000050000000000000000000000010000000030").unwrap());
    let mut c = ByteCursor::new(data);
    c.advance(2);
    assert_eq!(ResponseHeader::check(&mut c), Ok(29));
    assert_eq!(c.position(), 2);
    assert_eq!(FrameResponse::check(&mut c), Ok(()));
    assert_eq!(c.position(), 31);
}

#[test]
fn cursor_reads_big_endian() {
    let mut c = cursor("0102030405060708");
    assert_eq!(c.get_u8(), 1);
    assert_eq!(c.get_u16(), 0x0203);
    assert_eq!(c.get_u32(), 0x04050607);
    assert_eq!(c.remaining(), 1);
    assert_eq!(c.copy_to_bytes(1), vec![8u8]);
}

#[test]
fn set_command_encodes_ttl_big_endian() {
    let mut set = SetCommand::new(b"k", b"", 0x0102030405060708);
    let bytes = set.as_bytes();
    assert_eq!(bytes.len(), 24 + 8 + 1);
    assert_eq!(&bytes[24..32], &[1u8, 2, 3, 4, 5, 6, 7, 8]);
    assert_eq!(bytes[32], b'k');
}

#[test]
fn status_labels() {
    assert_eq!(status_label(0), "NoError");
    assert_eq!(status_label(1), "KeyNotFound");
    assert_eq!(status_label(6), "IncrDecrOnNonNumericValue");
    assert_eq!(status_label(129), "UnknownCommand");
    assert_eq!(status_label(130), "OutOfMemory");
    assert_eq!(status_label(7), "7");
    assert_eq!(status_label(65535), "65535");
}

#[test]
fn response_status_code() {
    let mut c = cursor("810000000000000100000000000000000000000000000000");
    let header = ResponseHeader::parse(&mut c);
    assert_eq!(header.status_code(), 0x0001);
    assert_eq!(status_label(header.status_code()), "KeyNotFound");
}

#[test]
fn parse_response_from_buffer() {
    let buffer = hex::decode("81000000040000000000000c00000000000000000000000100000000546573744e69636fff").unwrap();
    let (response, len) = probes::memcached::parse_response(&buffer).unwrap().unwrap();
    assert_eq!(len, 36);
    assert_eq!(response.header.total_body_length, 12);
    assert!(probes::memcached::parse_response(&buffer[..30]).unwrap().is_none());
    assert!(probes::memcached::parse_response(&[]).unwrap().is_none());
    assert_eq!(probes::memcached::parse_response(&[0x80; 30]).err(), Some(MemcachedError::Other));
}

#[test]
fn stream_end_errors() {
    assert_eq!(end_of_stream(0), StreamEnd::EmptyOrIncompleteResponse);
    assert_eq!(end_of_stream(3), StreamEnd::ConnectionReset);
}
