//! What holds of the wire format as a whole: what `MessageCodec::decode` makes
//! of the bytes that `MessageCodec::encode` writes, and of other buffers.

use vstd::prelude::*;
use vstd::utf8::*;
use crate::message::{
    MessageView, Parsed, Checked, MAX_FRAME_LENGTH, TAG_KEYWORD, TAG_INFO, TAG_HEARTBEAT, CR, LF,
    crlf, crlf_at, first_crlf, frame_check, parse_frame, wire_bytes, encodable, le_bytes, le_u32,
    ping_keyword, pong_keyword,
};

verus! {

/// Four bytes written least significant first read back as the same integer.
pub proof fn lemma_le_bytes_round_trip(v: u32)
    ensures
        le_u32(le_bytes(v)) == v,
{
    let b = le_bytes(v);
    assert(b[0] == (v & 0xff) as u8 && b[1] == ((v >> 8u32) & 0xff) as u8 && b[2] == ((v
        >> 16u32) & 0xff) as u8 && b[3] == ((v >> 24u32) & 0xff) as u8);
    assert((((v & 0xff) as u8) as u32) | (((((v >> 8u32) & 0xff) as u8) as u32) << 8u32) | ((((
    (v >> 16u32) & 0xff) as u8) as u32) << 16u32) | (((((v >> 24u32) & 0xff) as u8) as u32)
        << 24u32) == v) by (bit_vector);
}

/// Where no delimiter starts at or after `i`, none is found.
pub proof fn lemma_no_crlf(b: Seq<u8>, i: int)
    requires
        forall|j: int| i <= j ==> !crlf_at(b, j),
    ensures
        first_crlf(b, i) is None,
    decreases b.len() - i,
{
    if i < 0 || i + 1 >= b.len() {
    } else {
        lemma_no_crlf(b, i + 1);
    }
}

/// A keyword frame, followed by anything, decodes to its keyword.
proof fn lemma_keyword_frame(m: MessageView, kw: Seq<u8>, rest: Seq<u8>)
    requires
        m is Ping || m is Pong,
        kw == (if m is Ping {
            ping_keyword()
        } else {
            pong_keyword()
        }),
        wire_bytes(m) == seq![TAG_KEYWORD] + kw + crlf(),
    ensures
        parse_frame(wire_bytes(m) + rest) == Parsed::Frame(m, wire_bytes(m).len()),
{
    let w = wire_bytes(m);
    let b = w + rest;
    assert(w.len() == 7);
    assert(b[0] == TAG_KEYWORD);
    assert(b[1] == kw[0] && b[2] == kw[1] && b[3] == kw[2] && b[4] == kw[3]);
    assert(b[5] == CR && b[6] == LF);
    assert(first_crlf(b, 1) == first_crlf(b, 2));
    assert(first_crlf(b, 2) == first_crlf(b, 3));
    assert(first_crlf(b, 3) == first_crlf(b, 4));
    assert(first_crlf(b, 4) == first_crlf(b, 5));
    assert(first_crlf(b, 5) == Some(5int));
    assert(frame_check(b) == Checked::Complete(7));
    assert(b.subrange(1, 5) =~= kw);
    assert(ping_keyword()[1] != pong_keyword()[1]);
}

/// The frame of a message that can be encoded, followed by any bytes at all,
/// decodes to that message and takes exactly the frame's bytes.
pub proof fn lemma_frame_then_rest(m: MessageView, rest: Seq<u8>)
    requires
        encodable(m),
    ensures
        parse_frame(wire_bytes(m) + rest) == Parsed::Frame(m, wire_bytes(m).len()),
{
    let w = wire_bytes(m);
    let b = w + rest;
    match m {
        MessageView::Ping => {
            lemma_keyword_frame(m, ping_keyword(), rest);
        },
        MessageView::Pong => {
            lemma_keyword_frame(m, pong_keyword(), rest);
        },
        MessageView::Info(s) => {
            let t = encode_utf8(s);
            let l = t.len() as int;
            assert(w.len() == l + 4);
            assert(b[0] == TAG_INFO && b[1] == l);
            assert(b[l + 2] == CR && b[l + 3] == LF);
            assert(frame_check(b) == Checked::Complete((l + 4) as nat));
            assert(b.subrange(2, l + 2) =~= t);
            encode_utf8_valid_utf8(s);
            encode_utf8_decode_utf8(s);
        },
        MessageView::Heartbeat(c) => {
            assert(w.len() == 7);
            assert(b[0] == TAG_HEARTBEAT && b[5] == CR && b[6] == LF);
            assert(frame_check(b) == Checked::Complete(7));
            assert(b.subrange(1, 5) =~= le_bytes(c));
            lemma_le_bytes_round_trip(c);
        },
    }
}

/// Decoding the frame of any message that can be encoded gives that message
/// back, and consumes the whole frame.
pub proof fn frame_round_trip(m: MessageView)
    requires
        encodable(m),
    ensures
        parse_frame(wire_bytes(m)) == Parsed::Frame(m, wire_bytes(m).len()),
        wire_bytes(m).skip(wire_bytes(m).len() as int) == Seq::<u8>::empty(),
{
    lemma_frame_then_rest(m, Seq::empty());
    assert(wire_bytes(m) + Seq::<u8>::empty() =~= wire_bytes(m));
    assert(wire_bytes(m).skip(wire_bytes(m).len() as int) =~= Seq::<u8>::empty());
}

/// Two frames back to back decode one at a time and in order: the first
/// decode yields the first message and leaves exactly the second frame, and
/// the second decode yields the second message and leaves nothing.
pub proof fn back_to_back_frames(m1: MessageView, m2: MessageView)
    requires
        encodable(m1),
        encodable(m2),
    ensures
        ({
            let b = wire_bytes(m1) + wire_bytes(m2);
            let n1 = wire_bytes(m1).len();
            let n2 = wire_bytes(m2).len();
            &&& parse_frame(b) == Parsed::Frame(m1, n1)
            &&& b.skip(n1 as int) == wire_bytes(m2)
            &&& parse_frame(b.skip(n1 as int)) == Parsed::Frame(m2, n2)
            &&& b.skip(n1 as int).skip(n2 as int) == Seq::<u8>::empty()
        }),
{
    let b = wire_bytes(m1) + wire_bytes(m2);
    lemma_frame_then_rest(m1, wire_bytes(m2));
    assert(b.skip(wire_bytes(m1).len() as int) =~= wire_bytes(m2));
    frame_round_trip(m2);
}

/// Every proper prefix of a frame is incomplete, never malformed; once the
/// missing bytes are appended the buffer decodes to the message.
pub proof fn truncated_frame_incomplete(m: MessageView, k: nat)
    requires
        encodable(m),
        k < wire_bytes(m).len(),
    ensures
        parse_frame(wire_bytes(m).take(k as int)) == Parsed::Incomplete,
        parse_frame(wire_bytes(m).take(k as int) + wire_bytes(m).skip(k as int))
            == Parsed::Frame(m, wire_bytes(m).len()),
{
    let w = wire_bytes(m);
    let p = w.take(k as int);
    assert(p + w.skip(k as int) =~= w);
    frame_round_trip(m);
    if k > 0 {
        match m {
            MessageView::Ping | MessageView::Pong => {
                let kw = if m is Ping {
                    ping_keyword()
                } else {
                    pong_keyword()
                };
                assert(w[1] == kw[0] && w[2] == kw[1] && w[3] == kw[2] && w[4] == kw[3]);
                assert forall|j: int| 1 <= j implies !crlf_at(p, j) by {
                    if crlf_at(p, j) {
                        assert(p[j] == w[j]);
                    }
                }
                lemma_no_crlf(p, 1);
            },
            MessageView::Info(s) => {
                if k >= 2 {
                    assert(p[1] == w[1]);
                }
            },
            MessageView::Heartbeat(c) => {},
        }
    }
}

/// An `Info` text of at most `MAX_FRAME_LENGTH` bytes, 64 included, is
/// encoded and decodes back; one of more bytes, 65 for instance, is refused
/// by the encoder.
pub proof fn info_size_limit(s: Seq<char>)
    ensures
        encode_utf8(s).len() <= MAX_FRAME_LENGTH ==> encodable(MessageView::Info(s))
            && parse_frame(wire_bytes(MessageView::Info(s))) == Parsed::Frame(
            MessageView::Info(s),
            encode_utf8(s).len() + 4,
        ),
        encode_utf8(s).len() > MAX_FRAME_LENGTH ==> !encodable(MessageView::Info(s)),
{
    if encode_utf8(s).len() <= MAX_FRAME_LENGTH {
        frame_round_trip(MessageView::Info(s));
    }
}

/// Every counter value, 0 and `u32::MAX` included, survives the trip through
/// a heartbeat frame.
pub proof fn heartbeat_round_trip(c: u32)
    ensures
        parse_frame(wire_bytes(MessageView::Heartbeat(c))) == Parsed::Frame(
            MessageView::Heartbeat(c),
            7,
        ),
{
    frame_round_trip(MessageView::Heartbeat(c));
}

/// A buffer that starts with a byte that is no tag is malformed, however many
/// bytes follow: it is never taken for a frame still arriving.
pub proof fn unknown_tag_invalid(b: Seq<u8>)
    requires
        b.len() >= 1,
        b[0] != TAG_KEYWORD,
        b[0] != TAG_INFO,
        b[0] != TAG_HEARTBEAT,
    ensures
        parse_frame(b) == Parsed::Invalid,
{
}

} // verus!
