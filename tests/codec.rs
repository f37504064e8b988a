use bytes::BytesMut;
use peer_node::cursor::Cursor;
use peer_node::message::{
    conservative_scan_for_delimiter, get_u32, get_u8, scan_for_delimiter,
    EncodeError, Message, MessageCodec, ParseError,
};

fn encoded(m: Message) -> BytesMut {
    let mut buf = BytesMut::new();
    MessageCodec::new().encode(m, &mut buf).unwrap();
    buf
}

fn all_kinds() -> Vec<Message> {
    vec![
        Message::Ping,
        Message::Pong,
        Message::Info("hello, peer".to_string()),
        Message::Heartbeat(42),
    ]
}

#[test]
fn ping_wire_bytes() {
    assert_eq!(&encoded(Message::Ping)[..], b">PING\r\n");
}

#[test]
fn pong_wire_bytes() {
    assert_eq!(&encoded(Message::Pong)[..], b">PONG\r\n");
}

#[test]
fn info_wire_bytes() {
    assert_eq!(&encoded(Message::Info("hi".to_string()))[..], b"*\x02hi\r\n");
}

#[test]
fn empty_info_wire_bytes() {
    assert_eq!(&encoded(Message::Info(String::new()))[..], b"*\x00\r\n");
}

#[test]
fn heartbeat_wire_bytes_little_endian() {
    assert_eq!(
        &encoded(Message::Heartbeat(0x0403_0201))[..],
        &[0x2B, 0x01, 0x02, 0x03, 0x04, 0x0D, 0x0A][..]
    );
}

#[test]
fn encode_appends_to_existing_bytes() {
    let mut buf = BytesMut::from(&b"xy"[..]);
    MessageCodec::new().encode(Message::Ping, &mut buf).unwrap();
    assert_eq!(&buf[..], b"xy>PING\r\n");
}

#[test]
fn round_trip_every_kind() {
    for m in all_kinds() {
        let mut buf = encoded(m.clone());
        let got = MessageCodec::new().decode(&mut buf).unwrap();
        assert_eq!(got, Some(m));
        assert!(buf.is_empty());
    }
}

#[test]
fn round_trip_multibyte_text() {
    let m = Message::Info("grüße, 世界".to_string());
    let mut buf = encoded(m.clone());
    assert_eq!(MessageCodec::new().decode(&mut buf).unwrap(), Some(m));
    assert!(buf.is_empty());
}

#[test]
fn two_frames_decode_in_order() {
    let mut buf = encoded(Message::Info("first".to_string()));
    MessageCodec::new().encode(Message::Heartbeat(7), &mut buf).unwrap();
    let mut codec = MessageCodec::new();
    assert_eq!(
        codec.decode(&mut buf).unwrap(),
        Some(Message::Info("first".to_string()))
    );
    assert_eq!(&buf[..], &[0x2B, 7, 0, 0, 0, 0x0D, 0x0A][..]);
    assert_eq!(codec.decode(&mut buf).unwrap(), Some(Message::Heartbeat(7)));
    assert!(buf.is_empty());
    assert_eq!(codec.decode(&mut buf).unwrap(), None);
}

#[test]
fn every_truncation_is_incomplete_until_the_last_byte() {
    for m in all_kinds() {
        let full = encoded(m.clone());
        for k in 0..full.len() {
            let mut part = BytesMut::from(&full[..k]);
            assert_eq!(MessageCodec::new().decode(&mut part).unwrap(), None);
            assert_eq!(&part[..], &full[..k]);
            part.extend_from_slice(&full[k..]);
            assert_eq!(MessageCodec::new().decode(&mut part).unwrap(), Some(m.clone()));
            assert!(part.is_empty());
        }
    }
}

#[test]
fn info_of_exactly_sixty_four_bytes_round_trips() {
    let text = "a".repeat(64);
    let m = Message::Info(text);
    let mut buf = encoded(m.clone());
    assert_eq!(buf.len(), 68);
    assert_eq!(MessageCodec::new().decode(&mut buf).unwrap(), Some(m));
}

#[test]
fn info_of_sixty_five_bytes_is_refused() {
    let mut buf = BytesMut::from(&b"keep"[..]);
    let r = MessageCodec::new().encode(Message::Info("a".repeat(65)), &mut buf);
    assert_eq!(r, Err(EncodeError::PayloadTooLarge));
    assert_eq!(&buf[..], b"keep");
}

#[test]
fn heartbeat_extremes_round_trip() {
    for c in [0u32, 1, 255, 256, 65_535, 4_294_967_295] {
        let mut buf = encoded(Message::Heartbeat(c));
        assert_eq!(
            MessageCodec::new().decode(&mut buf).unwrap(),
            Some(Message::Heartbeat(c))
        );
    }
}

#[test]
fn unknown_tag_is_invalid() {
    let mut buf = BytesMut::from(&[0x00u8][..]);
    assert_eq!(
        MessageCodec::new().decode(&mut buf),
        Err(ParseError::InvalidEncoding)
    );
    let mut buf = BytesMut::from(&b"\x00PING\r\n"[..]);
    assert_eq!(
        MessageCodec::new().decode(&mut buf),
        Err(ParseError::InvalidEncoding)
    );
    assert_eq!(buf.len(), 7);
}

#[test]
fn empty_buffer_is_incomplete() {
    let mut buf = BytesMut::new();
    assert_eq!(MessageCodec::new().decode(&mut buf).unwrap(), None);
}

#[test]
fn unknown_keyword_is_invalid() {
    let mut buf = BytesMut::from(&b">PANG\r\n"[..]);
    assert_eq!(
        MessageCodec::new().decode(&mut buf),
        Err(ParseError::InvalidEncoding)
    );
    let mut buf = BytesMut::from(&b">VARLEN\r\n"[..]);
    assert_eq!(
        MessageCodec::new().decode(&mut buf),
        Err(ParseError::InvalidEncoding)
    );
}

#[test]
fn oversized_length_prefix_is_invalid_before_the_payload_arrives() {
    let mut buf = BytesMut::from(&[0x2Au8, 65][..]);
    assert_eq!(
        MessageCodec::new().decode(&mut buf),
        Err(ParseError::InvalidEncoding)
    );
}

#[test]
fn misplaced_delimiter_is_invalid() {
    let mut buf = BytesMut::from(&b"*\x02hiX\n"[..]);
    assert_eq!(
        MessageCodec::new().decode(&mut buf),
        Err(ParseError::InvalidEncoding)
    );
    let mut buf = BytesMut::from(&b"*\x02hi\rX"[..]);
    assert_eq!(
        MessageCodec::new().decode(&mut buf),
        Err(ParseError::InvalidEncoding)
    );
    let mut buf = BytesMut::from(&[0x2Bu8, 1, 2, 3, 4, b'\n', b'\r'][..]);
    assert_eq!(
        MessageCodec::new().decode(&mut buf),
        Err(ParseError::InvalidEncoding)
    );
}

#[test]
fn bad_utf8_text_is_invalid() {
    let mut buf = BytesMut::from(&b"*\x01\xff\r\n"[..]);
    assert_eq!(
        MessageCodec::new().decode(&mut buf),
        Err(ParseError::InvalidEncoding)
    );
}

#[test]
fn long_keyword_frame_is_invalid() {
    let mut raw = vec![b'>'];
    raw.extend(std::iter::repeat(b'A').take(65));
    raw.extend_from_slice(b"\r\n");
    let mut c = Cursor::new(&raw);
    assert_eq!(Message::check(&mut c), Err(ParseError::InvalidEncoding));
}

#[test]
fn check_accepts_whole_frames_and_stops_after_them() {
    let raw = b"+\x01\x00\x00\x00\r\n>PONG\r\n";
    let mut c = Cursor::new(&raw[..]);
    assert_eq!(Message::check(&mut c), Ok(()));
    assert_eq!(c.position(), 7);
    assert_eq!(Message::check(&mut c), Ok(()));
    assert_eq!(c.position(), 14);
    assert_eq!(Message::check(&mut c), Err(ParseError::Incomplete));
}

#[test]
fn conservative_scan_cases() {
    let raw = b"*\x03abc\r\nrest";
    let mut c = Cursor::new(&raw[..]);
    c.set_position(2);
    assert_eq!(conservative_scan_for_delimiter(&mut c, 3), Ok(&b"abc"[..]));
    assert_eq!(c.position(), 7);
    let mut c = Cursor::new(&raw[..]);
    c.set_position(2);
    assert_eq!(conservative_scan_for_delimiter(&mut c, 65), Err(ParseError::InvalidEncoding));
    assert_eq!(c.position(), 2);
    assert_eq!(conservative_scan_for_delimiter(&mut c, 20), Err(ParseError::Incomplete));
    assert_eq!(c.position(), 2);
    assert_eq!(conservative_scan_for_delimiter(&mut c, 2), Err(ParseError::InvalidEncoding));
    assert_eq!(c.position(), 2);
}

#[test]
fn scan_for_delimiter_cases() {
    let raw = b">PI\rNG\r\nxx";
    let mut c = Cursor::new(&raw[..]);
    c.set_position(1);
    assert_eq!(scan_for_delimiter(&mut c), Ok(&b"PI\rNG"[..]));
    assert_eq!(c.position(), 8);
    let mut c = Cursor::new(&b">PING\r"[..]);
    c.set_position(1);
    assert_eq!(scan_for_delimiter(&mut c), Err(ParseError::Incomplete));
    assert_eq!(c.position(), 1);
    let mut c = Cursor::new(&b""[..]);
    assert_eq!(scan_for_delimiter(&mut c), Err(ParseError::Incomplete));
}

#[test]
fn cursor_readers() {
    let raw = [1u8, 2, 3, 4, 5];
    let mut c = Cursor::new(&raw);
    assert_eq!(get_u8(&mut c), Some(1));
    assert_eq!(get_u32(&mut c), Some(0x0203_0405));
    assert_eq!(c.position(), 5);
    assert_eq!(get_u8(&mut c), None);
    assert_eq!(get_u32(&mut c), None);
    c.set_position(9);
    assert_eq!(c.remaining(), 0);
    assert_eq!(get_u8(&mut c), None);
}
