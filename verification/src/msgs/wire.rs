//! What every message type promises.

use crate::msgs::codec::DecodeError;
use crate::msgs::frame::MAX_BODY_LEN;
use vstd::prelude::*;

verus! {

/// A fixed-layout message that can cross the wire.
///
/// Implementors are plain data: `Copy`, no allocation, no lifetimes.
pub trait Wire: Sized + Copy {
    /// Stable identifier carried in every frame header. Never reused.
    const TYPE_ID: u16;

    /// Exact encoded length in bytes. Constant, by construction.
    const WIRE_LEN: usize;

    /// Human-readable name, for tap output and log headers.
    const NAME: &'static str;

    /// [`Self::TYPE_ID`], for contracts.
    spec fn id() -> u16;

    /// [`Self::WIRE_LEN`], for contracts.
    spec fn size() -> usize;

    /// [`Self::NAME`], for contracts.
    spec fn title() -> &'static str;

    /// The constants are what the contracts say they are, and a body fits in a
    /// frame.
    proof fn lemma_consts()
        ensures
            Self::TYPE_ID == Self::id(),
            Self::WIRE_LEN == Self::size(),
            Self::NAME == Self::title(),
            Self::size() <= MAX_BODY_LEN,
    ;

    /// The body of the message on the wire.
    spec fn wire(self) -> Seq<u8>;

    /// What the bytes at the front of `b` say, where there are enough of them.
    spec fn read(b: Seq<u8>) -> Result<Self, DecodeError>;

    /// Bodies have their declared length.
    proof fn lemma_len(self)
        ensures
            self.wire().len() == Self::size(),
    ;

    /// Reading gives back what was written, whatever follows it.
    proof fn lemma_round_trip(self, rest: Seq<u8>)
        ensures
            Self::read(self.wire() + rest) == Ok::<Self, DecodeError>(self),
    ;

    /// Reading looks at the first `size()` bytes only.
    proof fn lemma_front(b: Seq<u8>, rest: Seq<u8>)
        requires
            b.len() >= Self::size(),
        ensures
            Self::read(b + rest) == Self::read(b),
    ;

    /// Write `self` at the front of `buf`; what lies beyond is left alone.
    fn encode(&self, buf: &mut [u8]) -> (n: usize)
        requires
            old(buf)@.len() >= Self::size(),
        ensures
            n == Self::size(),
            final(buf)@ == self.wire() + old(buf)@.skip(Self::size() as int),
    ;

    /// Read a value from the front of `buf`, ignoring trailing bytes.
    fn decode(buf: &[u8]) -> (r: Result<Self, DecodeError>)
        ensures
            r == (if buf@.len() < Self::size() {
                Err(DecodeError::TooShort { need: Self::size(), got: buf@.len() as usize })
            } else {
                Self::read(buf@)
            }),
    ;

    /// Encode into a fresh vector. Convenience for one-shot sends.
    fn to_vec(&self) -> (v: Vec<u8>)
        ensures
            v@ == self.wire(),
    {
        proof {
            Self::lemma_consts();
        }
        let mut v: Vec<u8> = Vec::new();
        v.resize(Self::WIRE_LEN, 0);
        self.encode(v.as_mut_slice());
        proof {
            self.lemma_len();
            assert(v@ =~= self.wire());
        }
        v
    }
}

/// What decoding `b` as a `T` gives: too short a buffer is refused, and a long
/// enough one is read from the front.
pub open spec fn decoded<T: Wire>(b: Seq<u8>) -> Result<T, DecodeError> {
    if b.len() < T::size() {
        Err(DecodeError::TooShort { need: T::size(), got: b.len() as usize })
    } else {
        T::read(b)
    }
}

/// Decoding what was encoded gives the message back, whatever follows it in
/// the buffer.
pub proof fn law_round_trip<T: Wire>(m: T, rest: Seq<u8>)
    ensures
        decoded::<T>(m.wire() + rest) == Ok::<T, DecodeError>(m),
{
    m.lemma_len();
    m.lemma_round_trip(rest);
}

/// Two messages of one type that look alike on the wire are the same message.
pub proof fn law_wire_injective<T: Wire>(a: T, b: T)
    requires
        a.wire() == b.wire(),
    ensures
        a == b,
{
    let none = Seq::<u8>::empty();
    a.lemma_round_trip(none);
    b.lemma_round_trip(none);
}

/// A message is refused as too short exactly when its buffer is, and the error
/// tells how long it had to be and how long it was.
pub proof fn law_truncated<T: Wire>(m: T, n: int)
    requires
        0 <= n < T::size(),
    ensures
        decoded::<T>(m.wire().take(n)) == Err::<T, DecodeError>(
            DecodeError::TooShort { need: T::size(), got: n as usize },
        ),
{
    m.lemma_len();
}

/// Bytes after a whole message never change what it decodes to.
pub proof fn law_trailing_ignored<T: Wire>(b: Seq<u8>, rest: Seq<u8>)
    requires
        b.len() >= T::size(),
    ensures
        decoded::<T>(b + rest) == decoded::<T>(b),
{
    T::lemma_front(b, rest);
}

} // verus!
