//! The Wayland wire format.
//!
//! A message is a header of eight bytes and its arguments. The header holds
//! the object id in four bytes, the op code in two and the length of the whole
//! message, header included, in two, each with its low byte first.

use crate::messages::request_views;
use crate::messages::RequestView;
use crate::messages::WaylandEvent;
use crate::messages::WaylandRequest;
use std::collections::VecDeque;
use vstd::prelude::*;

verus! {

/// The length of a message header in bytes.
pub const HEADER_LENGTH: usize = 8;

/// The number that two bytes stand for, low byte first.
pub open spec fn le16(s: Seq<u8>, at: int) -> u16 {
    (s[at] + 0x100 * s[at + 1]) as u16
}

/// The number that four bytes stand for, low byte first.
pub open spec fn le32(s: Seq<u8>, at: int) -> u32 {
    (s[at] + 0x100 * s[at + 1] + 0x1_0000 * s[at + 2] + 0x100_0000 * s[at + 3]) as u32
}

/// A number as two bytes, low byte first.
pub open spec fn le16_bytes(x: u16) -> Seq<u8> {
    seq![(x % 0x100) as u8, (x / 0x100) as u8]
}

/// A number as four bytes, low byte first.
pub open spec fn le32_bytes(x: u32) -> Seq<u8> {
    seq![
        (x % 0x100) as u8,
        (x / 0x100 % 0x100) as u8,
        (x / 0x1_0000 % 0x100) as u8,
        (x / 0x100_0000) as u8,
    ]
}

/// Whether a whole header stands at the front of the buffer.
pub open spec fn has_header(s: Seq<u8>) -> bool {
    s.len() >= 8
}

/// The message length that the header at the front of the buffer claims.
pub open spec fn claimed_length(s: Seq<u8>) -> u16 {
    le16(s, 6)
}

/// The header at the front claims a message shorter than a header.
pub open spec fn is_malformed(s: Seq<u8>) -> bool {
    has_header(s) && claimed_length(s) < 8
}

/// A whole message stands at the front of the buffer.
pub open spec fn has_message(s: Seq<u8>) -> bool {
    has_header(s) && 8 <= claimed_length(s) <= s.len()
}

/// The message at the front of the buffer.
pub open spec fn first_message(s: Seq<u8>) -> RequestView
    recommends
        has_message(s),
{
    RequestView {
        object_id: le32(s, 0),
        op_code: le16(s, 4),
        args: s.subrange(8, claimed_length(s) as int),
    }
}

/// What is left of the buffer behind its first message.
pub open spec fn after_first_message(s: Seq<u8>) -> Seq<u8>
    recommends
        has_message(s),
{
    s.skip(claimed_length(s) as int)
}

/// A byte stream cut into messages: the messages at its front, and the bytes
/// behind the last of them.
#[verifier::ext_equal]
pub struct Framing {
    pub messages: Seq<RequestView>,
    pub rest: Seq<u8>,
}

/// Cut messages off the front of a byte stream for as long as a whole one
/// stands there.
pub open spec fn framing(s: Seq<u8>) -> Framing
    decreases s.len(),
{
    if has_message(s) {
        let tail = framing(after_first_message(s));
        Framing { messages: seq![first_message(s)] + tail.messages, rest: tail.rest }
    } else {
        Framing { messages: Seq::empty(), rest: s }
    }
}

/// The bytes of a message. The length field has two bytes: of a longer
/// message it keeps the low sixteen bits of the length.
pub open spec fn encoding(m: RequestView) -> Seq<u8> {
    le32_bytes(m.object_id) + le16_bytes(m.op_code) + le16_bytes(
        ((m.args.len() + 8) % 0x1_0000) as u16,
    ) + m.args
}

/// The bytes of several messages, one behind the other.
pub open spec fn encodings(messages: Seq<RequestView>) -> Seq<u8>
    decreases messages.len(),
{
    if messages.len() == 0 {
        Seq::empty()
    } else {
        encoding(messages[0]) + encodings(messages.skip(1))
    }
}

/// The length of the whole message fits the header's length field.
pub open spec fn fits_length_field(m: RequestView) -> bool {
    m.args.len() + 8 <= u16::MAX
}

/// What came of trying to take a message off the front of a read buffer
#[derive(Debug)]
pub enum Framed {
    /// A whole message, now removed from the buffer
    Message(WaylandRequest),
    /// Not all of one has arrived yet. The buffer is left alone
    Incomplete,
    /// The header says the message is shorter than a header, so there is no
    /// way to find where the next one begins. Carries the length claimed
    Malformed(u16),
}

/// The number that four bytes stand for, low byte first.
fn u32_from_le(b0: u8, b1: u8, b2: u8, b3: u8) -> (x: u32)
    ensures
        x == b0 + 0x100 * b1 + 0x1_0000 * b2 + 0x100_0000 * b3,
{
    b0 as u32 + 0x100 * (b1 as u32) + 0x1_0000 * (b2 as u32) + 0x100_0000 * (b3 as u32)
}

/// Append a number to a buffer as four bytes, low byte first.
fn push_u32_le(buffer: &mut Vec<u8>, x: u32)
    ensures
        final(buffer)@ == old(buffer)@ + le32_bytes(x),
{
    buffer.push((x % 0x100) as u8);
    buffer.push((x / 0x100 % 0x100) as u8);
    buffer.push((x / 0x1_0000 % 0x100) as u8);
    buffer.push((x / 0x100_0000) as u8);
}

/// Take the next complete message off the front of a client's read buffer.
pub fn take_message(data: &mut VecDeque<u8>) -> (framed: Framed)
    ensures
        framed is Message <==> has_message(old(data)@),
        framed is Malformed <==> is_malformed(old(data)@),
        match framed {
            Framed::Message(request) => {
                let s = old(data)@;
                &&& request@ == first_message(s)
                &&& final(data)@ == after_first_message(s)
                &&& s.len() >= 8
                &&& 8 <= s[6] + 0x100 * s[7] <= s.len()
                &&& request.object_id == s[0] + 0x100 * s[1] + 0x1_0000 * s[2] + 0x100_0000 * s[3]
                &&& request.op_code == s[4] + 0x100 * s[5]
                &&& request.args@ == s.subrange(8, s[6] + 0x100 * s[7])
                &&& final(data)@ == s.skip(s[6] + 0x100 * s[7])
            },
            Framed::Incomplete => final(data)@ == old(data)@,
            Framed::Malformed(length) => {
                &&& length == claimed_length(old(data)@)
                &&& length == old(data)@[6] + 0x100 * old(data)@[7]
                &&& length < 8
                &&& final(data)@ == old(data)@
            },
        },
{
    if data.len() < HEADER_LENGTH {
        return Framed::Incomplete;
    }
    let object_id: u32 = u32_from_le(data[0], data[1], data[2], data[3]);
    let length_and_opcode: u32 = u32_from_le(data[4], data[5], data[6], data[7]);
    let message_length: u16 = (length_and_opcode >> 16) as u16;
    let op_code: u16 = (length_and_opcode & 0xFFFF) as u16;
    assert(length_and_opcode >> 16 == length_and_opcode / 0x1_0000 && length_and_opcode & 0xFFFF
        == length_and_opcode % 0x1_0000) by (bit_vector);

    if message_length < 8 {
        return Framed::Malformed(message_length);
    }
    if data.len() < message_length as usize {
        return Framed::Incomplete;
    }
    let rest: VecDeque<u8> = data.split_off(message_length as usize);
    let mut args: Vec<u8> = Vec::new();
    let ghost message = data@;
    let mut at: usize = HEADER_LENGTH;
    while at < data.len()
        invariant
            HEADER_LENGTH <= at <= data@.len(),
            data@ == message,
            args@ == message.subrange(8, at as int),
        decreases data@.len() - at,
    {
        args.push(data[at]);
        at = at + 1;
    }
    *data = rest;

    Framed::Message(WaylandRequest { object_id, op_code, args })
}

/// Take every complete message off the front of a client's read buffer.
///
/// The messages come back in the order in which they arrived. Where the header
/// behind the last of them is malformed, the length that it claims comes too.
pub fn take_messages(data: &mut VecDeque<u8>) -> (taken: (Vec<WaylandRequest>, Option<u16>))
    ensures
        request_views(taken.0@) == framing(old(data)@).messages,
        final(data)@ == framing(old(data)@).rest,
        taken.1 == (if is_malformed(final(data)@) {
            Some(claimed_length(final(data)@))
        } else {
            None
        }),
{
    let mut messages: Vec<WaylandRequest> = Vec::new();
    loop
        invariant
            request_views(messages@) + framing(data@).messages == framing(old(data)@).messages,
            framing(data@).rest == framing(old(data)@).rest,
        decreases data@.len(),
    {
        let ghost taken = messages@;
        let ghost before = data@;
        match take_message(data) {
            Framed::Message(request) => {
                messages.push(request);
                assert(request_views(messages@) == request_views(taken).push(
                    first_message(before),
                ));
                assert(request_views(messages@) + framing(data@).messages == request_views(taken)
                    + framing(before).messages);
            },
            Framed::Incomplete => {
                return (messages, None);
            },
            Framed::Malformed(length) => {
                return (messages, Some(length));
            },
        }
    }
}

/// The second word of a header is the op code followed by the length.
proof fn lemma_header_word(length: u32, op_code: u16, word: u32)
    requires
        word == (length << 16) | (op_code as u32),
    ensures
        le32_bytes(word) == le16_bytes(op_code) + le16_bytes((length as nat % 0x1_0000) as u16),
{
    let low = op_code as u32;
    assert(word % 0x1_0000 == low && word / 0x1_0000 == length % 0x1_0000) by (bit_vector)
        requires
            word == (length << 16) | low,
            low < 0x1_0000,
    ;
    let high = (length % 0x1_0000) as u16;
    assert(word == op_code + 0x1_0000 * high);
    assert(word % 0x100 == op_code % 0x100);
    assert(word / 0x100 % 0x100 == op_code / 0x100);
    assert(word / 0x1_0000 % 0x100 == high % 0x100);
    assert(word / 0x100_0000 == high / 0x100);
    assert(le32_bytes(word) =~= le16_bytes(op_code) + le16_bytes(high));
}

/// The bytes that carry an event to a client.
///
/// Descriptors are no part of them: they travel as ancillary data.
#[verifier::spinoff_prover]
pub fn encode_event<F>(event: &WaylandEvent<F>) -> (buffer: Vec<u8>)
    requires
        event@.message.args.len() + 8 <= u32::MAX,
    ensures
        buffer@ == encoding(event@.message),
        buffer@.len() == 8 + event.args@.len(),
        buffer@[0] + 0x100 * buffer@[1] + 0x1_0000 * buffer@[2] + 0x100_0000 * buffer@[3]
            == event.object_id,
        buffer@[4] + 0x100 * buffer@[5] == event.op_code,
        buffer@[6] + 0x100 * buffer@[7] == (8 + event.args@.len()) % 0x1_0000,
        buffer@.skip(8) == event.args@,
{
    let mut buffer: Vec<u8> = Vec::new();
    push_u32_le(&mut buffer, event.object_id);
    let length: u32 = event.args.len() as u32 + 8;
    let op_code: u32 = event.op_code as u32;
    let length_and_opcode: u32 = (length << 16) | op_code;
    push_u32_le(&mut buffer, length_and_opcode);
    proof {
        lemma_header_word(length, event.op_code, length_and_opcode);
    }
    let ghost header = buffer@;
    buffer.extend_from_slice(event.args.as_slice());
    assert(header =~= le32_bytes(event.object_id) + le16_bytes(event.op_code) + le16_bytes(
        (length as nat % 0x1_0000) as u16,
    ));
    assert(buffer@ =~= header + event.args@);
    proof {
        law_message_is_encoded_by_its_fields(event@.message);
    }
    buffer
}

/// Behind the last message that was cut off, no whole message is left. If the
/// stream can still go on, fewer bytes are left than the longest message has.
pub proof fn law_rest_holds_no_message(s: Seq<u8>)
    ensures
        !has_message(framing(s).rest),
        !is_malformed(framing(s).rest) ==> framing(s).rest.len() < u16::MAX,
    decreases s.len(),
{
    if has_message(s) {
        law_rest_holds_no_message(after_first_message(s));
    }
}

/// Where a byte stream is split does not matter: framing one part, and then
/// what was left of it together with the next part, gives the same messages
/// and the same rest as framing both at once.
pub proof fn law_framing_ignores_splits(s: Seq<u8>, more: Seq<u8>)
    ensures
        framing(s + more).messages == framing(s).messages + framing(
            framing(s).rest + more,
        ).messages,
        framing(s + more).rest == framing(framing(s).rest + more).rest,
    decreases s.len(),
{
    if has_message(s) {
        assert(after_first_message(s + more) =~= after_first_message(s) + more);
        assert(first_message(s + more) =~= first_message(s));
        law_framing_ignores_splits(after_first_message(s), more);
    }
}

/// Behind a malformed header a stream yields no further message, whatever
/// else arrives.
pub proof fn law_malformed_stays_malformed(s: Seq<u8>, more: Seq<u8>)
    requires
        is_malformed(framing(s).rest),
    ensures
        framing(s + more).messages == framing(s).messages,
        framing(s + more).rest == framing(s).rest + more,
        is_malformed(framing(s + more).rest),
{
    law_framing_ignores_splits(s, more);
    assert(claimed_length(framing(s).rest + more) == claimed_length(framing(s).rest));
}

/// The base 256 digits of a number that is written in base 256.
proof fn lemma_digits(x: u32, b0: u8, b1: u8, b2: u8, b3: u8)
    requires
        x == b0 + 0x100 * b1 + 0x1_0000 * b2 + 0x100_0000 * b3,
    ensures
        x % 0x100 == b0,
        x / 0x100 % 0x100 == b1,
        x / 0x1_0000 % 0x100 == b2,
        x / 0x100_0000 == b3,
{
    let x1 = x / 0x100;
    assert(x1 == b1 + 0x100 * b2 + 0x1_0000 * b3);
    let x2 = x / 0x1_0000;
    assert(x2 == b2 + 0x100 * b3);
}

/// Two bytes that are read as a number are the bytes of that number.
proof fn lemma_le16_bytes_of_read(s: Seq<u8>, at: int)
    requires
        0 <= at <= s.len() - 2,
    ensures
        le16_bytes(le16(s, at)) == s.subrange(at, at + 2),
{
    let x = le16(s, at);
    assert(x == s[at] + 0x100 * s[at + 1]);
    assert(le16_bytes(x) =~= s.subrange(at, at + 2));
}

/// Four bytes that are read as a number are the bytes of that number.
proof fn lemma_le32_bytes_of_read(s: Seq<u8>, at: int)
    requires
        0 <= at <= s.len() - 4,
    ensures
        le32_bytes(le32(s, at)) == s.subrange(at, at + 4),
{
    let x = le32(s, at);
    lemma_digits(x, s[at], s[at + 1], s[at + 2], s[at + 3]);
    assert(le32_bytes(x) =~= seq![s[at], s[at + 1], s[at + 2], s[at + 3]]);
    assert(seq![s[at], s[at + 1], s[at + 2], s[at + 3]] =~= s.subrange(at, at + 4));
}

/// The bytes of the message at the front of a buffer are those of the buffer.
#[verifier::spinoff_prover]
proof fn lemma_encoding_of_first_message(s: Seq<u8>)
    requires
        has_message(s),
    ensures
        encoding(first_message(s)) == s.take(claimed_length(s) as int),
        fits_length_field(first_message(s)),
{
    let m = first_message(s);
    let length = claimed_length(s) as int;
    assert(m.args.len() + 8 == length);
    lemma_le32_bytes_of_read(s, 0);
    lemma_le16_bytes_of_read(s, 4);
    lemma_le16_bytes_of_read(s, 6);
    assert(encoding(m) == s.subrange(0, 4) + s.subrange(4, 6) + s.subrange(6, 8) + s.subrange(
        8,
        length,
    ));
    assert(s.subrange(0, 4) + s.subrange(4, 6) + s.subrange(6, 8) + s.subrange(8, length)
        =~= s.take(length));
}

/// The two bytes of a number are read as that number.
proof fn lemma_read_of_le16_bytes(s: Seq<u8>, at: int, x: u16)
    requires
        s[at] == x % 0x100,
        s[at + 1] == x / 0x100,
    ensures
        le16(s, at) == x,
{
    assert(x == x % 0x100 + 0x100 * (x / 0x100));
}

/// The four bytes of a number are read as that number.
proof fn lemma_read_of_le32_bytes(s: Seq<u8>, at: int, x: u32)
    requires
        s[at] == x % 0x100,
        s[at + 1] == x / 0x100 % 0x100,
        s[at + 2] == x / 0x1_0000 % 0x100,
        s[at + 3] == x / 0x100_0000,
    ensures
        le32(s, at) == x,
{
    let x1 = x / 0x100;
    let x2 = x / 0x1_0000;
    let x3 = x / 0x100_0000;
    assert(x == x % 0x100 + 0x100 * x1);
    assert(x2 == x1 / 0x100);
    assert(x1 == x1 % 0x100 + 0x100 * x2);
    assert(x3 == x2 / 0x100);
    assert(x2 == x2 % 0x100 + 0x100 * x3);
}

/// Where the parts of a message stand in a buffer.
proof fn lemma_parts(h0: Seq<u8>, h1: Seq<u8>, h2: Seq<u8>, args: Seq<u8>, more: Seq<u8>)
    requires
        h0.len() == 4,
        h1.len() == 2,
        h2.len() == 2,
    ensures
        ({
            let s = (h0 + h1 + h2 + args) + more;
            &&& s.len() == 8 + args.len() + more.len()
            &&& forall|i: int| 0 <= i < 4 ==> s[i] == #[trigger] h0[i]
            &&& forall|i: int| 0 <= i < 2 ==> s[4 + i] == #[trigger] h1[i]
            &&& forall|i: int| 0 <= i < 2 ==> s[6 + i] == #[trigger] h2[i]
            &&& s.subrange(8, 8 + args.len() as int) == args
            &&& s.skip(8 + args.len() as int) == more
        }),
{
    let s = (h0 + h1 + h2 + args) + more;
    assert(s.subrange(8, 8 + args.len() as int) =~= args);
    assert(s.skip(8 + args.len() as int) =~= more);
}

/// A message is read back from the front of its own bytes.
#[verifier::spinoff_prover]
proof fn lemma_first_message_of_encoding(m: RequestView, more: Seq<u8>)
    requires
        fits_length_field(m),
    ensures
        has_message(encoding(m) + more),
        first_message(encoding(m) + more) == m,
        after_first_message(encoding(m) + more) == more,
{
    let s = encoding(m) + more;
    let length = (m.args.len() + 8) as u16;
    let h0 = le32_bytes(m.object_id);
    let h1 = le16_bytes(m.op_code);
    let h2 = le16_bytes(length);
    assert(s == (h0 + h1 + h2 + m.args) + more);
    lemma_parts(h0, h1, h2, m.args, more);
    assert(le32(s, 0) == m.object_id) by {
        assert(s[0] == h0[0] && s[1] == h0[1] && s[2] == h0[2] && s[3] == h0[3]);
        lemma_read_of_le32_bytes(s, 0, m.object_id);
    }
    assert(le16(s, 4) == m.op_code) by {
        assert(s[4] == h1[0] && s[5] == h1[1]);
        lemma_read_of_le16_bytes(s, 4, m.op_code);
    }
    assert(le16(s, 6) == length) by {
        assert(s[6] == h2[0] && s[7] == h2[1]);
        lemma_read_of_le16_bytes(s, 6, length);
    }
}

/// No byte is lost, added or moved by framing: the messages' bytes, followed
/// by the rest, are the stream.
#[verifier::spinoff_prover]
pub proof fn law_framing_keeps_every_byte(s: Seq<u8>)
    ensures
        encodings(framing(s).messages) + framing(s).rest == s,
        forall|i: int|
            0 <= i < framing(s).messages.len() ==> fits_length_field(
                #[trigger] framing(s).messages[i],
            ),
    decreases s.len(),
{
    if has_message(s) {
        let tail = after_first_message(s);
        law_framing_keeps_every_byte(tail);
        lemma_encoding_of_first_message(s);
        let length = claimed_length(s) as int;
        let first = s.take(length);
        assert(framing(s).messages.skip(1) =~= framing(tail).messages);
        assert(encodings(framing(s).messages) == first + encodings(framing(tail).messages));
        assert((first + encodings(framing(tail).messages)) + framing(tail).rest =~= first + (
        encodings(framing(tail).messages) + framing(tail).rest));
        assert(first + s.skip(length) =~= s);
    } else {
        assert(encodings(framing(s).messages) + framing(s).rest =~= s);
    }
}

/// A reader gets back the very messages that were written, in order, and the
/// bytes behind them are framed as if they stood alone. This is stated of
/// messages whose length fits the length field.
#[verifier::spinoff_prover]
pub proof fn law_written_messages_are_read_back(messages: Seq<RequestView>, more: Seq<u8>)
    requires
        forall|i: int|
            0 <= i < messages.len() ==> fits_length_field(#[trigger] messages[i]),
    ensures
        framing(encodings(messages) + more).messages == messages + framing(more).messages,
        framing(encodings(messages) + more).rest == framing(more).rest,
    decreases messages.len(),
{
    if messages.len() == 0 {
        assert(encodings(messages) + more =~= more);
    } else {
        let tail = messages.skip(1);
        let s = encodings(messages) + more;
        assert(s =~= encoding(messages[0]) + (encodings(tail) + more));
        lemma_first_message_of_encoding(messages[0], encodings(tail) + more);
        assert forall|i: int| 0 <= i < tail.len() implies fits_length_field(#[trigger] tail[i]) by {
            assert(tail[i] == messages[i + 1]);
        }
        law_written_messages_are_read_back(tail, more);
    }
}

/// Writing two runs of messages is writing the runs one behind the other.
pub proof fn lemma_encodings_concat(a: Seq<RequestView>, b: Seq<RequestView>)
    ensures
        encodings(a + b) == encodings(a) + encodings(b),
    decreases a.len(),
{
    if a.len() == 0 {
        assert(a + b =~= b);
        assert(encodings(a) + encodings(b) =~= encodings(b));
    } else {
        assert((a + b).skip(1) =~= a.skip(1) + b);
        lemma_encodings_concat(a.skip(1), b);
        assert(encodings(a + b) =~= encodings(a) + encodings(b));
    }
}

/// What stands at the front of a buffer is told by its bytes alone. A whole
/// message is there if the length that the seventh and eighth byte give, low
/// byte first, is that of a header or more and all of it has arrived. The
/// message has the first four bytes as its object id, the next two as its op
/// code, and what stands behind the header as its arguments.
pub proof fn law_message_is_told_by_its_bytes(s: Seq<u8>)
    ensures
        has_message(s) <==> s.len() >= 8 && 8 <= s[6] + 0x100 * s[7] <= s.len(),
        is_malformed(s) <==> s.len() >= 8 && s[6] + 0x100 * s[7] < 8,
        s.len() >= 8 ==> claimed_length(s) == s[6] + 0x100 * s[7],
        has_message(s) ==> {
            let length = s[6] + 0x100 * s[7];
            let m = first_message(s);
            &&& m.object_id == s[0] + 0x100 * s[1] + 0x1_0000 * s[2] + 0x100_0000 * s[3]
            &&& m.op_code == s[4] + 0x100 * s[5]
            &&& m.args == s.subrange(8, length)
            &&& after_first_message(s) == s.skip(length)
        },
{
}

/// The bytes of a message are told by its fields alone: the object id, the op
/// code and the length of the whole, low byte first, and the arguments.
#[verifier::spinoff_prover]
pub proof fn law_message_is_encoded_by_its_fields(m: RequestView)
    ensures
        ({
            let b = encoding(m);
            &&& b.len() == 8 + m.args.len()
            &&& b[0] + 0x100 * b[1] + 0x1_0000 * b[2] + 0x100_0000 * b[3] == m.object_id
            &&& b[4] + 0x100 * b[5] == m.op_code
            &&& b[6] + 0x100 * b[7] == (8 + m.args.len()) % 0x1_0000
            &&& b.skip(8) == m.args
        }),
{
    let b = encoding(m);
    let length = ((m.args.len() + 8) % 0x1_0000) as u16;
    let h0 = le32_bytes(m.object_id);
    let h1 = le16_bytes(m.op_code);
    let h2 = le16_bytes(length);
    let more = Seq::<u8>::empty();
    lemma_parts(h0, h1, h2, m.args, more);
    assert(b + more =~= b);
    assert(b[0] == h0[0] && b[1] == h0[1] && b[2] == h0[2] && b[3] == h0[3]);
    assert(b[4] == h1[0] && b[5] == h1[1]);
    assert(b[6] == h2[0] && b[7] == h2[1]);
    lemma_read_of_le32_bytes(b, 0, m.object_id);
    lemma_read_of_le16_bytes(b, 4, m.op_code);
    lemma_read_of_le16_bytes(b, 6, length);
    assert(b.skip(8) =~= m.args);
}

/// Framing goes on as long as a whole message stands at the front, and no
/// longer: the first message is what the bytes tell, and the others and the
/// rest are those of the stream behind it.
pub proof fn law_framing_takes_one_message_at_a_time(s: Seq<u8>)
    ensures
        ({
            let length = s[6] + 0x100 * s[7];
            if s.len() >= 8 && 8 <= length <= s.len() {
                let tail = framing(s.skip(length));
                let first = framing(s).messages[0];
                &&& framing(s).messages.len() == 1 + tail.messages.len()
                &&& first.object_id == s[0] + 0x100 * s[1] + 0x1_0000 * s[2] + 0x100_0000 * s[3]
                &&& first.op_code == s[4] + 0x100 * s[5]
                &&& first.args == s.subrange(8, length)
                &&& framing(s).messages.skip(1) == tail.messages
                &&& framing(s).rest == tail.rest
            } else {
                &&& framing(s).messages.len() == 0
                &&& framing(s).rest == s
            }
        }),
{
    law_message_is_told_by_its_bytes(s);
    if has_message(s) {
        let tail = framing(after_first_message(s));
        assert(framing(s).messages.skip(1) =~= tail.messages);
    }
}

/// Several messages are written one behind the other, with nothing between.
pub proof fn law_messages_are_encoded_one_by_one(m: RequestView, others: Seq<RequestView>)
    ensures
        encodings(Seq::empty()).len() == 0,
        encodings(seq![m]) == encoding(m),
        encodings(seq![m] + others) == encoding(m) + encodings(others),
{
    assert((seq![m] + others).skip(1) =~= others);
    assert(seq![m].skip(1) =~= Seq::empty());
    assert(encodings(seq![m]) =~= encoding(m) + encodings(Seq::empty()));
    assert(encoding(m) + encodings(Seq::empty()) =~= encoding(m));
}

/// A message fits the length field if it has at most 65535 bytes in all.
pub proof fn law_length_field_has_sixteen_bits(m: RequestView)
    ensures
        fits_length_field(m) <==> 8 + m.args.len() < 0x1_0000,
{
}

} // verus!
