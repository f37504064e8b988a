//! The four control messages, their wire format, and the streaming codec.
//!
//! Every frame is `<tag><payload><CR><LF>`:
//! - `>` followed by the ASCII keyword `PING` or `PONG`;
//! - `*` followed by a one-byte length (at most 64) and that many bytes of UTF-8 text;
//! - `+` followed by a 32-bit counter, least significant byte first.

use vstd::prelude::*;
use vstd::utf8::*;
use bytes::BytesMut;
use crate::buffer::{buf_bytes, buf_slice, buf_put_u8, buf_extend, buf_advance, text_from_utf8};
use crate::cursor::{Cursor, be_u32};

verus! {

/// The largest payload a frame may carry, in bytes.
pub const MAX_FRAME_LENGTH: usize = 64;

/// Tag of a keyword frame (`PING` or `PONG`).
pub const TAG_KEYWORD: u8 = 0x3E;

/// Tag of a length-prefixed text frame.
pub const TAG_INFO: u8 = 0x2A;

/// Tag of a fixed four-byte counter frame.
pub const TAG_HEARTBEAT: u8 = 0x2B;

/// First byte of the frame delimiter.
pub const CR: u8 = 0x0D;

/// Second byte of the frame delimiter.
pub const LF: u8 = 0x0A;

#[derive(Debug, Clone, PartialEq, Eq)]
pub enum Message {
    Heartbeat(u32),
    Ping,
    Pong,
    Info(String),
}

/// A message as a mathematical value: the text of `Info` as its characters.
pub enum MessageView {
    Heartbeat(u32),
    Ping,
    Pong,
    Info(Seq<char>),
}

impl View for Message {
    type V = MessageView;

    open spec fn view(&self) -> MessageView {
        match self {
            Message::Heartbeat(c) => MessageView::Heartbeat(*c),
            Message::Ping => MessageView::Ping,
            Message::Pong => MessageView::Pong,
            Message::Info(s) => MessageView::Info(s@),
        }
    }
}

/// Why a buffer does not yield a message.
#[derive(Debug, Clone, Copy, PartialEq, Eq, Structural)]
pub enum ParseError {
    /// The buffer ends before a whole frame: supply more bytes and retry.
    Incomplete,
    /// The bytes are not a frame of this protocol; the stream cannot recover.
    InvalidEncoding,
    /// The transport failed underneath the codec.
    BadIO,
}

/// Why a message cannot be written.
#[derive(Debug, Clone, Copy, PartialEq, Eq, Structural)]
pub enum EncodeError {
    /// The text of an `Info` takes more than `MAX_FRAME_LENGTH` bytes.
    PayloadTooLarge,
}

/// The keyword `PING` in ASCII.
pub open spec fn ping_keyword() -> Seq<u8> {
    seq![0x50u8, 0x49u8, 0x4Eu8, 0x47u8]
}

/// The keyword `PONG` in ASCII.
pub open spec fn pong_keyword() -> Seq<u8> {
    seq![0x50u8, 0x4Fu8, 0x4Eu8, 0x47u8]
}

pub open spec fn crlf() -> Seq<u8> {
    seq![CR, LF]
}

/// The four bytes of `v`, least significant first.
pub open spec fn le_bytes(v: u32) -> Seq<u8> {
    seq![
        (v & 0xff) as u8,
        ((v >> 8u32) & 0xff) as u8,
        ((v >> 16u32) & 0xff) as u8,
        ((v >> 24u32) & 0xff) as u8,
    ]
}

/// The integer that four bytes spell, least significant byte first.
pub open spec fn le_u32(b: Seq<u8>) -> u32 {
    (b[0] as u32) | ((b[1] as u32) << 8u32) | ((b[2] as u32) << 16u32) | ((b[3] as u32)
        << 24u32)
}

/// Whether a message can be put on the wire: an `Info` text must fit in one frame.
pub open spec fn encodable(m: MessageView) -> bool {
    m matches MessageView::Info(s) ==> encode_utf8(s).len() <= MAX_FRAME_LENGTH
}

/// The frame that carries `m`.
pub open spec fn wire_bytes(m: MessageView) -> Seq<u8> {
    match m {
        MessageView::Ping => seq![TAG_KEYWORD] + ping_keyword() + crlf(),
        MessageView::Pong => seq![TAG_KEYWORD] + pong_keyword() + crlf(),
        MessageView::Info(s) => seq![TAG_INFO, encode_utf8(s).len() as u8] + encode_utf8(s)
            + crlf(),
        MessageView::Heartbeat(c) => seq![TAG_HEARTBEAT] + le_bytes(c) + crlf(),
    }
}

/// Whether `b` holds the delimiter `CR LF` starting at index `i`.
pub open spec fn crlf_at(b: Seq<u8>, i: int) -> bool {
    0 <= i && i + 1 < b.len() && b[i] == CR && b[i + 1] == LF
}

/// The index of the first delimiter that starts at or after `i`, if any.
pub open spec fn first_crlf(b: Seq<u8>, i: int) -> Option<int>
    decreases b.len() - i,
{
    if i < 0 || i + 1 >= b.len() {
        None
    } else if crlf_at(b, i) {
        Some(i)
    } else {
        first_crlf(b, i + 1)
    }
}

/// The outcome of the completeness pass over a buffer.
pub enum Checked {
    /// The buffer ends before a frame can be confirmed.
    Incomplete,
    /// The buffer cannot start with a frame.
    Invalid,
    /// The buffer starts with a frame of this many bytes, delimiter included.
    Complete(nat),
}

/// The completeness pass: does the buffer start with a whole, well-delimited frame?
pub open spec fn frame_check(b: Seq<u8>) -> Checked {
    if b.len() == 0 {
        Checked::Incomplete
    } else if b[0] == TAG_KEYWORD {
        match first_crlf(b, 1) {
            None => Checked::Incomplete,
            Some(i) => if i - 1 > MAX_FRAME_LENGTH {
                Checked::Invalid
            } else {
                Checked::Complete((i + 2) as nat)
            },
        }
    } else if b[0] == TAG_INFO {
        if b.len() < 2 {
            Checked::Incomplete
        } else if b[1] > MAX_FRAME_LENGTH {
            Checked::Invalid
        } else if b.len() < b[1] + 4 {
            Checked::Incomplete
        } else if !crlf_at(b, b[1] + 2) {
            Checked::Invalid
        } else {
            Checked::Complete((b[1] + 4) as nat)
        }
    } else if b[0] == TAG_HEARTBEAT {
        if b.len() < 7 {
            Checked::Incomplete
        } else if !crlf_at(b, 5) {
            Checked::Invalid
        } else {
            Checked::Complete(7)
        }
    } else {
        Checked::Invalid
    }
}

/// The extraction pass: the message in the first `n` bytes of a buffer that
/// the completeness pass accepted, if its payload is well formed.
pub open spec fn extract(b: Seq<u8>, n: nat) -> Option<MessageView> {
    if b[0] == TAG_KEYWORD {
        let kw = b.subrange(1, n - 2);
        if kw == ping_keyword() {
            Some(MessageView::Ping)
        } else if kw == pong_keyword() {
            Some(MessageView::Pong)
        } else {
            None
        }
    } else if b[0] == TAG_INFO {
        let text = b.subrange(2, n - 2);
        if valid_utf8(text) {
            Some(MessageView::Info(decode_utf8(text)))
        } else {
            None
        }
    } else {
        Some(MessageView::Heartbeat(le_u32(b.subrange(1, 5))))
    }
}

/// What decoding the front of a buffer yields.
pub enum Parsed {
    /// Not enough bytes yet.
    Incomplete,
    /// Malformed bytes.
    Invalid,
    /// A message, and the number of bytes its frame takes.
    Frame(MessageView, nat),
}

/// What the front of buffer `b` decodes to.
pub open spec fn parse_frame(b: Seq<u8>) -> Parsed {
    match frame_check(b) {
        Checked::Incomplete => Parsed::Incomplete,
        Checked::Invalid => Parsed::Invalid,
        Checked::Complete(n) => match extract(b, n) {
            Some(m) => Parsed::Frame(m, n),
            None => Parsed::Invalid,
        },
    }
}

/// The bytes a cursor has not read yet.
pub open spec fn unread(c: Cursor) -> Seq<u8> {
    if c.pos() <= c.data().len() {
        c.data().subrange(c.pos() as int, c.data().len() as int)
    } else {
        Seq::empty()
    }
}

/// Reads one byte, if one remains.
pub fn get_u8(src: &mut Cursor) -> (r: Option<u8>)
    ensures
        final(src).data() == old(src).data(),
        old(src).remaining_spec() >= 1 ==> r == Some(old(src).data()[old(src).pos() as int])
            && final(src).pos() == old(src).pos() + 1,
        old(src).remaining_spec() < 1 ==> r is None && final(src).pos() == old(src).pos(),
{
    if !src.has_remaining() {
        None
    } else {
        Some(src.get_u8())
    }
}

/// Reads a big-endian 32-bit integer, if four bytes remain.
pub fn get_u32(src: &mut Cursor) -> (r: Option<u32>)
    ensures
        final(src).data() == old(src).data(),
        old(src).remaining_spec() >= 4 ==> r == Some(
            be_u32(old(src).data().subrange(old(src).pos() as int, old(src).pos() + 4int)),
        ) && final(src).pos() == old(src).pos() + 4,
        old(src).remaining_spec() < 4 ==> r is None && final(src).pos() == old(src).pos(),
{
    if src.remaining() >= 4 {
        Some(src.get_u32())
    } else {
        None
    }
}

impl Message {
    /// The completeness pass over the unread bytes of `src`. On success the
    /// cursor stands just past the frame's delimiter.
    pub fn check(src: &mut Cursor) -> (r: Result<(), ParseError>)
        ensures
            final(src).data() == old(src).data(),
            match frame_check(unread(*old(src))) {
                Checked::Incomplete => r == Err::<(), ParseError>(ParseError::Incomplete),
                Checked::Invalid => r == Err::<(), ParseError>(ParseError::InvalidEncoding),
                Checked::Complete(n) => r is Ok && final(src).pos() == old(src).pos() + n,
            },
    {
        let ghost b = unread(*src);
        let start = src.position();
        if !src.has_remaining() {
            return Err(ParseError::Incomplete);
        }
        assert(b[0] == src.data()[start as int]);
        let tag = src.get_u8();
        let after_tag = src.position();
        if tag == TAG_KEYWORD {
            proof {
                lemma_first_crlf_shift(src.data(), start as int, 1);
                lemma_first_crlf_found(src.data(), start + 1);
            }
            let raw_frame = scan_for_delimiter(src)?;
            if raw_frame.len() > MAX_FRAME_LENGTH {
                Err(ParseError::InvalidEncoding)
            } else {
                Ok(())
            }
        } else if tag == TAG_INFO {
            if let Some(specified_message_length) = get_u8(src) {
                conservative_scan_for_delimiter(src, specified_message_length as usize)?;
                Ok(())
            } else {
                Err(ParseError::Incomplete)
            }
        } else if tag == TAG_HEARTBEAT {
            if get_u32(src).is_some() {
                src.set_position(after_tag);
                conservative_scan_for_delimiter(src, 4)?;
                Ok(())
            } else {
                Err(ParseError::Incomplete)
            }
        } else {
            Err(ParseError::InvalidEncoding)
        }
    }
}

/// Past the cursor, expects exactly `specified_length` payload bytes followed
/// by the delimiter, and steps past both. A length above `MAX_FRAME_LENGTH`
/// is malformed; a buffer too short to hold the frame is incomplete.
pub fn conservative_scan_for_delimiter<'a>(src: &mut Cursor<'a>, specified_length: usize) -> (r:
    Result<&'a [u8], ParseError>)
    ensures
        final(src).data() == old(src).data(),
        ({
            let d = old(src).data();
            let start = old(src).pos();
            if specified_length > MAX_FRAME_LENGTH {
                r matches Err(e) && e == ParseError::InvalidEncoding && final(src).pos() == start
            } else if d.len() < start + specified_length + 2 {
                r matches Err(e) && e == ParseError::Incomplete && final(src).pos() == start
            } else if !crlf_at(d, start + specified_length) {
                r matches Err(e) && e == ParseError::InvalidEncoding && final(src).pos() == start
            } else {
                &&& r matches Ok(s) && s@ == d.subrange(start as int, start + specified_length)
                &&& final(src).pos() == start + specified_length + 2
            }
        }),
{
    let buffer_length = src.get_ref().len();
    let index_start = src.position();
    if specified_length > MAX_FRAME_LENGTH {
        return Err(ParseError::InvalidEncoding);
    }
    // the payload and both delimiter bytes must already be in the buffer
    if buffer_length < index_start || buffer_length - index_start < specified_length + 2 {
        return Err(ParseError::Incomplete);
    }
    let index_end = index_start + specified_length;
    let inner_buffer = src.get_ref();
    if inner_buffer[index_end] != CR || inner_buffer[index_end + 1] != LF {
        Err(ParseError::InvalidEncoding)
    } else {
        src.set_position(index_end + 2);
        Ok(&inner_buffer[index_start..index_end])
    }
}

/// Scans forward from the cursor for the first delimiter. On success returns
/// the bytes before it and steps past it.
pub fn scan_for_delimiter<'a>(src: &mut Cursor<'a>) -> (r: Result<&'a [u8], ParseError>)
    ensures
        final(src).data() == old(src).data(),
        match first_crlf(old(src).data(), old(src).pos() as int) {
            None => r matches Err(e) && e == ParseError::Incomplete && final(src).pos() == old(
                src,
            ).pos(),
            Some(i) => {
                &&& r matches Ok(s) && s@ == old(src).data().subrange(old(src).pos() as int, i)
                &&& final(src).pos() == i + 2
            },
        },
{
    let start = src.position();
    let data = src.get_ref();
    let len = data.len();
    let mut i = start;
    while i < len && len - i > 1
        invariant
            data@ == src.data(),
            len == data@.len(),
            start == src.pos(),
            start <= i,
            first_crlf(data@, start as int) == first_crlf(data@, i as int),
            src.data() == old(src).data(),
            src.pos() == old(src).pos(),
        decreases len - i,
    {
        if data[i] == CR && data[i + 1] == LF {
            src.set_position(i + 2);
            return Ok(&data[start..i]);
        }
        i = i + 1;
    }
    Err(ParseError::Incomplete)
}

/// Stepping past the first `k` bytes of the data does not change where the
/// first delimiter at or after a later index lies, only how it is counted.
pub proof fn lemma_first_crlf_shift(d: Seq<u8>, start: int, k: int)
    requires
        0 <= start <= d.len(),
        0 <= k,
    ensures
        ({
            let u = d.subrange(start, d.len() as int);
            match first_crlf(d, start + k) {
                None => first_crlf(u, k) is None,
                Some(i) => first_crlf(u, k) == Some(i - start),
            }
        }),
    decreases d.len() - start - k,
{
    let u = d.subrange(start, d.len() as int);
    if start + k + 1 >= d.len() {
    } else {
        assert(u[k] == d[start + k] && u[k + 1] == d[start + k + 1]);
        if !crlf_at(d, start + k) {
            lemma_first_crlf_shift(d, start, k + 1);
        }
    }
}

/// Where the first delimiter at or after `i` lies, when there is one.
pub proof fn lemma_first_crlf_found(b: Seq<u8>, i: int)
    ensures
        first_crlf(b, i) matches Some(j) ==> i <= j && crlf_at(b, j) && forall|k: int|
            i <= k < j ==> !crlf_at(b, k),
    decreases b.len() - i,
{
    if i < 0 || i + 1 >= b.len() {
    } else if !crlf_at(b, i) {
        lemma_first_crlf_found(b, i + 1);
    }
}

/// Encodes and decodes frames on growable byte buffers.
pub struct MessageCodec {}

impl MessageCodec {
    pub fn new() -> MessageCodec {
        MessageCodec {  }
    }

    /// Appends the frame of `item` to `dst`. An `Info` whose text takes more
    /// than `MAX_FRAME_LENGTH` bytes is refused and nothing is written.
    pub fn encode(&mut self, item: Message, dst: &mut BytesMut) -> (r: Result<(), EncodeError>)
        requires
            buf_bytes(*old(dst)).len() + MAX_FRAME_LENGTH + 4 <= isize::MAX,
        ensures
            r is Ok <==> encodable(item@),
            r is Ok ==> buf_bytes(*final(dst)) == buf_bytes(*old(dst)) + wire_bytes(item@),
            r matches Err(e) ==> e == EncodeError::PayloadTooLarge && buf_bytes(*final(dst))
                == buf_bytes(*old(dst)),
    {
        let ghost before = buf_bytes(*dst);
        match item {
            Message::Ping => {
                buf_put_u8(dst, TAG_KEYWORD);
                buf_put_u8(dst, 0x50);
                buf_put_u8(dst, 0x49);
                buf_put_u8(dst, 0x4E);
                buf_put_u8(dst, 0x47);
            },
            Message::Pong => {
                buf_put_u8(dst, TAG_KEYWORD);
                buf_put_u8(dst, 0x50);
                buf_put_u8(dst, 0x4F);
                buf_put_u8(dst, 0x4E);
                buf_put_u8(dst, 0x47);
            },
            Message::Info(s) => {
                let text = s.as_str().as_bytes();
                if text.len() > MAX_FRAME_LENGTH {
                    return Err(EncodeError::PayloadTooLarge);
                }
                buf_put_u8(dst, TAG_INFO);
                buf_put_u8(dst, text.len() as u8);
                buf_extend(dst, text);
            },
            Message::Heartbeat(clock) => {
                buf_put_u8(dst, TAG_HEARTBEAT);
                buf_put_u8(dst, (clock & 0xff) as u8);
                buf_put_u8(dst, ((clock >> 8u32) & 0xff) as u8);
                buf_put_u8(dst, ((clock >> 16u32) & 0xff) as u8);
                buf_put_u8(dst, ((clock >> 24u32) & 0xff) as u8);
            },
        }
        buf_put_u8(dst, CR);
        buf_put_u8(dst, LF);
        assert(buf_bytes(*dst) =~= before + wire_bytes(item@));
        Ok(())
    }

    /// Takes the first frame off the front of `src`. While the buffer holds
    /// only part of a frame it yields `Ok(None)` and leaves the buffer as it
    /// is; malformed bytes yield `InvalidEncoding`, also leaving the buffer
    /// alone; a whole frame yields its message and removes exactly its bytes.
    pub fn decode(&mut self, src: &mut BytesMut) -> (r: Result<Option<Message>, ParseError>)
        ensures
            match parse_frame(buf_bytes(*old(src))) {
                Parsed::Incomplete => r matches Ok(None) && buf_bytes(*final(src)) == buf_bytes(
                    *old(src),
                ),
                Parsed::Invalid => r matches Err(e) && e == ParseError::InvalidEncoding
                    && buf_bytes(*final(src)) == buf_bytes(*old(src)),
                Parsed::Frame(m, n) => r matches Ok(Some(msg)) && msg@ == m && buf_bytes(
                    *final(src),
                ) == buf_bytes(*old(src)).skip(n as int),
            },
    {
        let data = buf_slice(src);
        if data.len() == 0 {
            return Ok(None);
        }
        let mut cursor = Cursor::new(data);
        assert(unread(cursor) =~= data@);
        proof {
            lemma_first_crlf_found(data@, 1);
        }
        match Message::check(&mut cursor) {
            Ok(_) => {
                let frame_length = cursor.position();
                let tag = data[0];
                let msg = if tag == TAG_KEYWORD {
                    let kw = &data[1..frame_length - 2];
                    if kw.len() == 4 && kw[0] == 0x50 && kw[1] == 0x49 && kw[2] == 0x4E && kw[3]
                        == 0x47 {
                        assert(kw@ =~= ping_keyword());
                        Message::Ping
                    } else if kw.len() == 4 && kw[0] == 0x50 && kw[1] == 0x4F && kw[2] == 0x4E
                        && kw[3] == 0x47 {
                        assert(kw@ =~= pong_keyword());
                        Message::Pong
                    } else {
                        assert(kw@ != ping_keyword() && kw@ != pong_keyword()) by {
                            if kw@ == ping_keyword() {
                                assert(kw@[1] == ping_keyword()[1]);
                            }
                            if kw@ == pong_keyword() {
                                assert(kw@[1] == pong_keyword()[1]);
                            }
                        }
                        return Err(ParseError::InvalidEncoding);
                    }
                } else if tag == TAG_INFO {
                    match text_from_utf8(&data[2..frame_length - 2]) {
                        Some(text) => {
                            proof {
                                encode_utf8_decode_utf8(text@);
                            }
                            Message::Info(text)
                        },
                        None => {
                            return Err(ParseError::InvalidEncoding);
                        },
                    }
                } else {
                    let clock = (data[1] as u32) | ((data[2] as u32) << 8u32) | ((data[3] as u32)
                        << 16u32) | ((data[4] as u32) << 24u32);
                    assert(data@.subrange(1, 5)[0] == data@[1] && data@.subrange(1, 5)[1]
                        == data@[2] && data@.subrange(1, 5)[2] == data@[3] && data@.subrange(
                        1,
                        5,
                    )[3] == data@[4]);
                    Message::Heartbeat(clock)
                };
                buf_advance(src, frame_length);
                Ok(Some(msg))
            },
            Err(ParseError::Incomplete) => Ok(None),
            Err(_) => Err(ParseError::InvalidEncoding),
        }
    }
}

} // verus!
