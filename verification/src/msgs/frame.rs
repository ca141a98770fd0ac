//! Datagram framing.
//!
//! Every datagram on the bus is one frame: a 4-byte header then one message
//! body. There is no fragmentation, no batching and no continuation, so a lost
//! packet loses exactly one sample of one signal.
//!
//! ```text
//! +----------+----------+---------------------------+
//! | type_id  |   seq    | body (WIRE_LEN bytes)     |
//! |  u16 LE  |  u16 LE  | fixed layout, LE          |
//! +----------+----------+---------------------------+
//! ```
//!
//! `seq` increments per (type, sender). Streams are newest-wins, so it serves
//! neither reassembly nor retransmission; it makes packet loss measurable.

use crate::msgs::codec;
use crate::msgs::codec::{check_len, DecodeError, Reader, Writer};
use crate::msgs::wire;
use crate::msgs::wire::Wire;
use vstd::prelude::*;
use vstd::slice::slice_subrange;

verus! {

/// Size of the frame header in bytes.
pub const FRAME_HEADER_LEN: usize = 4;

/// Largest body this protocol will carry.
pub const MAX_BODY_LEN: usize = 256;

/// Largest complete frame.
pub const MAX_FRAME_LEN: usize = FRAME_HEADER_LEN + MAX_BODY_LEN;

/// Parsed frame header.
#[derive(Clone, Copy, Debug, PartialEq, Eq, Structural)]
pub struct FrameHeader {
    pub type_id: u16,
    pub seq: u16,
}

impl FrameHeader {
    pub open spec fn wire(self) -> Seq<u8> {
        Seq::<u8>::empty() + codec::u16_bytes(self.type_id) + codec::u16_bytes(self.seq)
    }

    pub open spec fn read(b: Seq<u8>) -> FrameHeader {
        FrameHeader { type_id: codec::u16_at(b, 0), seq: codec::u16_at(b, 2) }
    }

    /// What decoding a datagram's header gives.
    pub open spec fn decoded(b: Seq<u8>) -> Result<FrameHeader, DecodeError> {
        if b.len() < FRAME_HEADER_LEN {
            Err(DecodeError::TooShort { need: FRAME_HEADER_LEN, got: b.len() as usize })
        } else {
            Ok(FrameHeader::read(b))
        }
    }

    pub fn encode(&self, buf: &mut [u8]) -> (n: usize)
        requires
            old(buf)@.len() >= FRAME_HEADER_LEN,
        ensures
            n == FRAME_HEADER_LEN,
            final(buf)@ == self.wire() + old(buf)@.skip(FRAME_HEADER_LEN as int),
    {
        broadcast use codec::group_codec;

        let mut w = Writer::new(buf);
        w.u16(self.type_id);
        w.u16(self.seq);
        proof {
            codec::lemma_parts(old(buf)@, 0);
            codec::lemma_parts(w.buf@, FRAME_HEADER_LEN as int);
        }
        w.len()
    }

    pub fn decode(buf: &[u8]) -> (r: Result<Self, DecodeError>)
        ensures
            r == FrameHeader::decoded(buf@),
    {
        check_len(buf, FRAME_HEADER_LEN)?;
        let mut r = Reader::new(buf);
        Ok(FrameHeader { type_id: r.u16(), seq: r.u16() })
    }
}

/// A header plus the undecoded body bytes.
///
/// Receivers parse the header, dispatch on `type_id`, and only then decode the
/// body into a concrete type, so an unwanted message costs a 4-byte parse.
#[derive(Clone, Copy, Debug)]
pub struct Frame<'a> {
    pub header: FrameHeader,
    pub body: &'a [u8],
}

impl<'a> Frame<'a> {
    /// Split a received datagram into header and body.
    pub fn parse(datagram: &'a [u8]) -> (r: Result<Self, DecodeError>)
        ensures
            datagram@.len() < FRAME_HEADER_LEN ==> r == Err::<Frame<'a>, DecodeError>(
                DecodeError::TooShort { need: FRAME_HEADER_LEN, got: datagram@.len() as usize },
            ),
            datagram@.len() >= FRAME_HEADER_LEN ==> r is Ok && r->Ok_0.header == FrameHeader::read(
                datagram@,
            ) && r->Ok_0.body@ == datagram@.skip(FRAME_HEADER_LEN as int),
    {
        let header = FrameHeader::decode(datagram)?;
        Ok(Frame { header, body: slice_subrange(datagram, FRAME_HEADER_LEN, datagram.len()) })
    }

    /// Decode the body as `T`, if this frame carries one.
    ///
    /// Returns `None` when the frame is some other type: the common case on a
    /// shared socket, and not an error.
    pub fn decode_as<T: Wire>(&self) -> (r: Option<Result<T, DecodeError>>)
        ensures
            r == read_as::<T>(self.header, self.body@),
    {
        proof {
            T::lemma_consts();
        }
        if self.header.type_id == T::TYPE_ID {
            Some(T::decode(self.body))
        } else {
            None
        }
    }
}

/// What a body gives when it is asked for as a `T`: nothing unless its header
/// says that it is one.
pub open spec fn read_as<T: Wire>(header: FrameHeader, body: Seq<u8>) -> Option<
    Result<T, DecodeError>,
> {
    if header.type_id == T::id() {
        Some(wire::decoded::<T>(body))
    } else {
        None
    }
}

/// A complete frame on the wire.
pub open spec fn frame_bytes<T: Wire>(msg: T, seq: u16) -> Seq<u8> {
    FrameHeader { type_id: T::id(), seq }.wire() + msg.wire()
}

/// Write a complete frame (header + body) at the front of `buf`, returning its
/// length.
pub fn encode_frame<T: Wire>(msg: &T, seq: u16, buf: &mut [u8]) -> (n: usize)
    requires
        old(buf)@.len() >= FRAME_HEADER_LEN + T::size(),
    ensures
        n == FRAME_HEADER_LEN + T::size(),
        final(buf)@ == frame_bytes(*msg, seq) + old(buf)@.skip(FRAME_HEADER_LEN + T::size()),
{
    broadcast use codec::group_codec;

    proof {
        T::lemma_consts();
    }
    let header = FrameHeader { type_id: T::TYPE_ID, seq };
    let n: usize = header.encode(buf);
    let ghost before = buf@;
    let (head, tail) = buf.split_at_mut(n);
    let m: usize = msg.encode(tail);
    proof {
        msg.lemma_len();
        assert(before.take(4) =~= header.wire());
        assert(before.skip(4).skip(T::size() as int) =~= old(buf)@.skip(
            FRAME_HEADER_LEN + T::size(),
        ));
        assert(header.wire() + (msg.wire() + before.skip(4).skip(T::size() as int)) =~= (
        header.wire() + msg.wire()) + before.skip(4).skip(T::size() as int));
    }
    n + m
}

/// What a receiver gets out of a frame is what the sender put in: the type, the
/// sequence number and, asked for as the type that was sent, the message.
pub proof fn law_frame_round_trip<T: Wire>(msg: T, seq: u16)
    ensures
        FrameHeader::read(frame_bytes(msg, seq)) == (FrameHeader { type_id: T::id(), seq }),
        frame_bytes(msg, seq).skip(FRAME_HEADER_LEN as int) == msg.wire(),
        wire::decoded::<T>(frame_bytes(msg, seq).skip(FRAME_HEADER_LEN as int)) == Ok::<
            T,
            DecodeError,
        >(msg),
        frame_bytes(msg, seq).len() == FRAME_HEADER_LEN + T::size(),
        frame_bytes(msg, seq).len() <= MAX_FRAME_LEN,
{
    broadcast use codec::group_codec;

    let header = FrameHeader { type_id: T::id(), seq };
    assert(header.wire().len() == 4);
    assert(frame_bytes(msg, seq).skip(4) =~= msg.wire());
    assert(msg.wire() + Seq::<u8>::empty() =~= msg.wire());
    msg.lemma_len();
    T::lemma_consts();
    wire::law_round_trip::<T>(msg, Seq::empty());
}

/// A frame begins with the type and then the number, low bytes first, and the
/// body follows.
pub proof fn law_frame_layout<T: Wire>(msg: T, seq: u16)
    ensures
        ({
            let b = frame_bytes(msg, seq);
            &&& b.len() == 4 + T::size()
            &&& b[0] + 256 * b[1] == T::id()
            &&& b[2] + 256 * b[3] == seq
            &&& b.subrange(4, b.len() as int) == msg.wire()
        }),
{
    law_frame_round_trip(msg, seq);
    let b = frame_bytes(msg, seq);
    let c = b + seq![0u8, 0, 0, 0, 0, 0, 0, 0];
    codec::lemma_u16_at_front(b, seq![0u8, 0, 0, 0, 0, 0, 0, 0], 0);
    codec::lemma_u16_at_front(b, seq![0u8, 0, 0, 0, 0, 0, 0, 0], 2);
    codec::law_little_endian(c, 0);
    codec::law_little_endian(c, 2);
    assert(b.subrange(4, b.len() as int) =~= b.skip(4));
}

/// A frame is read as what it was sent as, and as nothing else. What is too
/// short for a header is no frame.
pub proof fn law_frames_are_read_as_sent<T: Wire, U: Wire>(msg: T, seq: u16, b: Seq<u8>)
    ensures
        ({
            let f = frame_bytes(msg, seq);
            let h = FrameHeader::read(f);
            &&& FrameHeader::decoded(f) == Ok::<_, DecodeError>(h)
            &&& read_as::<T>(h, f.skip(4)) == Some(Ok::<T, DecodeError>(msg))
            &&& U::id() != T::id() ==> read_as::<U>(h, f.skip(4)) is None
        }),
        FrameHeader::decoded(b) is Err <==> b.len() < 4,
        b.len() < 4 ==> FrameHeader::decoded(b) == Err::<FrameHeader, _>(
            DecodeError::TooShort { need: 4, got: b.len() as usize },
        ),
{
    law_frame_round_trip(msg, seq);
}

} // verus!
