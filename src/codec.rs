//! Wire format shared by the runner and its components: big-endian length
//! prefixes and the message body `channel_id · count · data`.
use vstd::prelude::*;

verus! {

/// The big-endian value of four bytes.
pub open spec fn be_u32_spec(b0: u8, b1: u8, b2: u8, b3: u8) -> u32 {
    ((b0 as u32) << 24u32) | ((b1 as u32) << 16u32) | ((b2 as u32) << 8u32) | (b3 as u32)
}

/// The four big-endian bytes of `x`.
pub open spec fn be_bytes(x: u32) -> Seq<u8> {
    seq![(x >> 24u32) as u8, (x >> 16u32) as u8, (x >> 8u32) as u8, x as u8]
}

/// Reading back the bytes of a value gives the value.
pub proof fn lemma_be_round_trip(x: u32)
    ensures
        be_u32_spec(be_bytes(x)[0], be_bytes(x)[1], be_bytes(x)[2], be_bytes(x)[3]) == x,
{
    let b = be_bytes(x);
    assert(b[0] == (x >> 24u32) as u8);
    assert(b[1] == (x >> 16u32) as u8);
    assert(b[2] == (x >> 8u32) as u8);
    assert(b[3] == x as u8);
    assert((((((x >> 24u32) as u8) as u32) << 24u32) | ((((x >> 16u32) as u8) as u32) << 16u32)
        | ((((x >> 8u32) as u8) as u32) << 8u32) | ((x as u8) as u32)) == x) by (bit_vector);
}

/// The big-endian `u32` held in four bytes.
pub fn be_u32(b0: u8, b1: u8, b2: u8, b3: u8) -> (r: u32)
    ensures
        r == be_u32_spec(b0, b1, b2, b3),
{
    ((b0 as u32) << 24u32) | ((b1 as u32) << 16u32) | ((b2 as u32) << 8u32) | (b3 as u32)
}

/// Appends the four big-endian bytes of `x` to `out`.
pub fn push_be_u32(out: &mut Vec<u8>, x: u32)
    ensures
        final(out)@ == old(out)@ + be_bytes(x),
{
    out.push((x >> 24u32) as u8);
    out.push((x >> 16u32) as u8);
    out.push((x >> 8u32) as u8);
    out.push(x as u8);
    assert(final(out)@ =~= old(out)@ + be_bytes(x));
}

/// Appends a copy of `src` to `out`.
pub fn push_all(out: &mut Vec<u8>, src: &Vec<u8>)
    ensures
        final(out)@ == old(out)@ + src@,
{
    let ghost start = out@;
    let mut i: usize = 0;
    while i < src.len()
        invariant
            i <= src@.len(),
            out@ == start + src@.subrange(0, i as int),
        decreases src@.len() - i,
    {
        out.push(src[i]);
        i = i + 1;
        assert(out@ =~= start + src@.subrange(0, i as int));
    }
    assert(src@.subrange(0, src@.len() as int) =~= src@);
}

/// A channel-scoped, sequence-numbered message.
#[derive(Debug, Eq, PartialEq, Clone)]
pub struct Message {
    pub channel_id: u32,
    pub count: u8,
    pub data: Vec<u8>,
}

/// What a message is, as plain values.
pub struct MessageView {
    pub channel_id: u32,
    pub count: u8,
    pub data: Seq<u8>,
}

impl View for Message {
    type V = MessageView;

    open spec fn view(&self) -> MessageView {
        MessageView { channel_id: self.channel_id, count: self.count, data: self.data@ }
    }
}

/// The body bytes of a message: channel id (big-endian), count, data.
pub open spec fn message_bytes(m: MessageView) -> Seq<u8> {
    be_bytes(m.channel_id) + seq![m.count] + m.data
}

/// The message that a body holds, if it is at least five bytes long.
pub open spec fn decoded(b: Seq<u8>) -> Option<MessageView> {
    if b.len() < 5 {
        None
    } else {
        Some(
            MessageView {
                channel_id: be_u32_spec(b[0], b[1], b[2], b[3]),
                count: b[4],
                data: b.subrange(5, b.len() as int),
            },
        )
    }
}

/// A length-prefixed frame: the body's length (big-endian) then the body.
pub open spec fn framed(body: Seq<u8>) -> Seq<u8> {
    be_bytes(body.len() as u32) + body
}

/// Decoding the encoding of a message gives the message back.
pub proof fn lemma_message_round_trip(m: MessageView)
    ensures
        decoded(message_bytes(m)) == Some(m),
{
    let b = message_bytes(m);
    lemma_be_round_trip(m.channel_id);
    assert(b.len() == 5 + m.data.len());
    assert(b.subrange(5, b.len() as int) =~= m.data);
    assert(b[0] == be_bytes(m.channel_id)[0]);
    assert(b[1] == be_bytes(m.channel_id)[1]);
    assert(b[2] == be_bytes(m.channel_id)[2]);
    assert(b[3] == be_bytes(m.channel_id)[3]);
    assert(b[4] == m.count);
}

impl Message {
    /// Decodes a message body; `None` when it is shorter than five bytes.
    pub fn decode(data: &Vec<u8>) -> (r: Option<Message>)
        ensures
            r is None <==> data@.len() < 5,
            r matches Some(m) ==> decoded(data@) == Some(m@),
    {
        if data.len() < 5 {
            return None;
        }
        let channel_id = be_u32(data[0], data[1], data[2], data[3]);
        let count = data[4];
        let mut rest: Vec<u8> = Vec::new();
        let mut i: usize = 5;
        while i < data.len()
            invariant
                5 <= i <= data@.len(),
                rest@ == data@.subrange(5, i as int),
            decreases data@.len() - i,
        {
            rest.push(data[i]);
            i = i + 1;
            assert(rest@ =~= data@.subrange(5, i as int));
        }
        let m = Message { channel_id, count, data: rest };
        assert(m@ == decoded(data@).unwrap());
        Some(m)
    }

    /// Encodes the message body: channel id (big-endian), count, data.
    pub fn encode(&self) -> (r: Vec<u8>)
        ensures
            r@ == message_bytes(self@),
    {
        let mut out: Vec<u8> = Vec::new();
        push_be_u32(&mut out, self.channel_id);
        out.push(self.count);
        push_all(&mut out, &self.data);
        assert(out@ =~= message_bytes(self@));
        out
    }
}

/// Prefixes a body with its big-endian length.
pub fn frame(body: &Vec<u8>) -> (r: Vec<u8>)
    requires
        body@.len() <= u32::MAX,
    ensures
        r@ == framed(body@),
{
    let mut out: Vec<u8> = Vec::new();
    push_be_u32(&mut out, body.len() as u32);
    push_all(&mut out, body);
    out
}

/// A message as it travels on a data socket or in a datagram: length prefix
/// then body.
pub fn encode_frame(message: &Message) -> (r: Vec<u8>)
    requires
        message.data@.len() + 5 <= u32::MAX,
    ensures
        r@ == framed(message_bytes(message@)),
{
    let body = message.encode();
    frame(&body)
}

/// The message held in one datagram: a length prefix, then that many body
/// bytes. A zero length, a length that runs past the datagram, or a body
/// that does not decode gives `None`.
pub open spec fn datagram_message(d: Seq<u8>) -> Option<MessageView> {
    if d.len() < 4 {
        None
    } else {
        let len = be_u32_spec(d[0], d[1], d[2], d[3]);
        if len == 0 || d.len() - 4 < len {
            None
        } else {
            decoded(d.subrange(4, 4 + len))
        }
    }
}

/// Reads the framed message that a datagram carries.
pub fn decode_datagram(d: &Vec<u8>) -> (r: Option<Message>)
    ensures
        r is Some <==> datagram_message(d@) is Some,
        r matches Some(m) ==> datagram_message(d@) == Some(m@),
{
    if d.len() < 4 {
        return None;
    }
    let len = be_u32(d[0], d[1], d[2], d[3]);
    if len == 0 || d.len() - 4 < len as usize {
        return None;
    }
    let end: usize = 4 + len as usize;
    let mut body: Vec<u8> = Vec::new();
    let mut i: usize = 4;
    while i < end
        invariant
            4 <= i <= end <= d@.len(),
            end == 4 + len,
            body@ == d@.subrange(4, i as int),
        decreases end - i,
    {
        body.push(d[i]);
        i = i + 1;
        assert(body@ =~= d@.subrange(4, i as int));
    }
    Message::decode(&body)
}

} // verus!
