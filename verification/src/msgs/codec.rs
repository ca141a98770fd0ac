//! Little-endian scalar codec.
//!
//! Every field on the wire is fixed-width little-endian with no padding and no
//! alignment. Reading a message definition tells you its byte layout exactly.
//!
//! A scalar kind has two spec functions: `*_bytes`, what a value becomes on the
//! wire, and `*_at`, the value that the bytes at an offset spell. They are
//! opaque: proofs about whole messages go through the lemmas of
//! [`group_codec`], which say that `*_at` reads back what `*_bytes` put at the
//! end of a buffer and is not disturbed by what follows it.

use crate::reals::{Real32, Real64};
use crate::text;
use vstd::prelude::*;

verus! {

/// A message failed to decode.
#[derive(Clone, Copy, Debug, PartialEq, Eq)]
pub enum DecodeError {
    /// Buffer was shorter than the type's fixed wire length.
    TooShort { need: usize, got: usize },
    /// A field held a value outside its defined set (bad enum discriminant).
    BadDiscriminant { field: &'static str, value: u8 },
}

impl DecodeError {
    pub open spec fn described(self) -> Seq<char> {
        match self {
            DecodeError::TooShort { need, got } => "buffer too short: need "@ + text::dec(
                need as nat,
            ) + " bytes, got "@ + text::dec(got as nat),
            DecodeError::BadDiscriminant { field, value } => "invalid discriminant "@ + text::dec(
                value as nat,
            ) + " for field `"@ + field@ + "`"@,
        }
    }

    /// The error in words.
    pub fn message(&self) -> (s: String)
        ensures
            s@ == self.described(),
    {
        match self {
            DecodeError::TooShort { need, got } => {
                let mut s = text::owned("buffer too short: need ");
                text::push_dec(&mut s, *need as u64);
                text::push_str(&mut s, " bytes, got ");
                text::push_dec(&mut s, *got as u64);
                s
            },
            DecodeError::BadDiscriminant { field, value } => {
                let mut s = text::owned("invalid discriminant ");
                text::push_dec(&mut s, *value as u64);
                text::push_str(&mut s, " for field `");
                text::push_str(&mut s, field);
                text::push_str(&mut s, "`");
                s
            },
        }
    }
}

/// The check that opens every decoder: is there a whole message in `buf`?
pub fn check_len(buf: &[u8], need: usize) -> (r: Result<(), DecodeError>)
    ensures
        r == (if buf@.len() < need {
            Err(DecodeError::TooShort { need, got: buf@.len() as usize })
        } else {
            Ok(())
        }),
{
    if buf.len() < need {
        Err(DecodeError::TooShort { need, got: buf.len() })
    } else {
        Ok(())
    }
}

#[verifier::opaque]
pub open spec fn u8_bytes(v: u8) -> Seq<u8> {
    seq![v]
}

#[verifier::opaque]
pub open spec fn u8_at(b: Seq<u8>, i: int) -> u8 {
    b[i]
}

/// The low byte first.
#[verifier::opaque]
pub open spec fn u16_bytes(v: u16) -> Seq<u8> {
    seq![(v % 0x100) as u8, (v / 0x100) as u8]
}

#[verifier::opaque]
pub open spec fn u16_at(b: Seq<u8>, i: int) -> u16 {
    (b[i] + 0x100 * b[i + 1]) as u16
}

/// The low byte first.
#[verifier::opaque]
pub open spec fn u32_bytes(v: u32) -> Seq<u8> {
    seq![
        (v % 0x100) as u8,
        (v / 0x100 % 0x100) as u8,
        (v / 0x1_0000 % 0x100) as u8,
        (v / 0x100_0000) as u8,
    ]
}

#[verifier::opaque]
pub open spec fn u32_at(b: Seq<u8>, i: int) -> u32 {
    (b[i] + 0x100 * b[i + 1] + 0x1_0000 * b[i + 2] + 0x100_0000 * b[i + 3]) as u32
}

/// The low half first, each half low byte first.
#[verifier::opaque]
pub open spec fn u64_bytes(v: u64) -> Seq<u8> {
    u32_bytes((v % 0x1_0000_0000) as u32) + u32_bytes((v / 0x1_0000_0000) as u32)
}

#[verifier::opaque]
pub open spec fn u64_at(b: Seq<u8>, i: int) -> u64 {
    (u32_at(b, i) + 0x1_0000_0000 * u32_at(b, i + 4)) as u64
}

/// Two's complement: the unsigned value that has the same bits.
pub open spec fn i8_bits(v: i8) -> u8 {
    (if v < 0 { v + 0x100 } else { v as int }) as u8
}

pub open spec fn i8_of_bits(v: u8) -> i8 {
    (if v >= 0x80 { v - 0x100 } else { v as int }) as i8
}

/// Two's complement: the unsigned value that has the same bits.
pub open spec fn i16_bits(v: i16) -> u16 {
    (if v < 0 { v + 0x1_0000 } else { v as int }) as u16
}

pub open spec fn i16_of_bits(v: u16) -> i16 {
    (if v >= 0x8000 { v - 0x1_0000 } else { v as int }) as i16
}

/// Two's complement: the unsigned value that has the same bits.
pub open spec fn i32_bits(v: i32) -> u32 {
    (if v < 0 { v + 0x1_0000_0000 } else { v as int }) as u32
}

pub open spec fn i32_of_bits(v: u32) -> i32 {
    (if v >= 0x8000_0000 { v - 0x1_0000_0000 } else { v as int }) as i32
}

pub open spec fn i8_bytes(v: i8) -> Seq<u8> {
    u8_bytes(i8_bits(v))
}

pub open spec fn i8_at(b: Seq<u8>, i: int) -> i8 {
    i8_of_bits(u8_at(b, i))
}

pub open spec fn i16_bytes(v: i16) -> Seq<u8> {
    u16_bytes(i16_bits(v))
}

pub open spec fn i16_at(b: Seq<u8>, i: int) -> i16 {
    i16_of_bits(u16_at(b, i))
}

pub open spec fn i32_bytes(v: i32) -> Seq<u8> {
    u32_bytes(i32_bits(v))
}

pub open spec fn i32_at(b: Seq<u8>, i: int) -> i32 {
    i32_of_bits(u32_at(b, i))
}

pub open spec fn real32_bytes(v: Real32) -> Seq<u8> {
    u32_bytes(v.0)
}

pub open spec fn real32_at(b: Seq<u8>, i: int) -> Real32 {
    Real32(u32_at(b, i))
}

pub open spec fn real64_bytes(v: Real64) -> Seq<u8> {
    u64_bytes(v.0)
}

pub open spec fn real64_at(b: Seq<u8>, i: int) -> Real64 {
    Real64(u64_at(b, i))
}

pub open spec fn bool_bytes(v: bool) -> Seq<u8> {
    u8_bytes(if v { 1 } else { 0 })
}

/// Any non-zero byte reads as `true`. Only `0` is false.
pub open spec fn bool_at(b: Seq<u8>, i: int) -> bool {
    u8_at(b, i) != 0
}

#[verifier::opaque]
pub open spec fn f32x3_bytes(v: [Real32; 3]) -> Seq<u8> {
    real32_bytes(v[0]) + real32_bytes(v[1]) + real32_bytes(v[2])
}

#[verifier::opaque]
pub open spec fn f32x3_at(b: Seq<u8>, i: int) -> [Real32; 3] {
    [real32_at(b, i), real32_at(b, i + 4), real32_at(b, i + 8)]
}

#[verifier::opaque]
pub open spec fn f32x5_bytes(v: [Real32; 5]) -> Seq<u8> {
    real32_bytes(v[0]) + real32_bytes(v[1]) + real32_bytes(v[2]) + real32_bytes(v[3])
        + real32_bytes(v[4])
}

#[verifier::opaque]
pub open spec fn f32x5_at(b: Seq<u8>, i: int) -> [Real32; 5] {
    [
        real32_at(b, i),
        real32_at(b, i + 4),
        real32_at(b, i + 8),
        real32_at(b, i + 12),
        real32_at(b, i + 16),
    ]
}

pub broadcast proof fn lemma_u8_len(v: u8)
    ensures
        #[trigger] u8_bytes(v).len() == 1,
{
    reveal(u8_bytes);
}

pub broadcast proof fn lemma_u16_len(v: u16)
    ensures
        #[trigger] u16_bytes(v).len() == 2,
{
    reveal(u16_bytes);
}

pub broadcast proof fn lemma_u32_len(v: u32)
    ensures
        #[trigger] u32_bytes(v).len() == 4,
{
    reveal(u32_bytes);
}

pub broadcast proof fn lemma_u64_len(v: u64)
    ensures
        #[trigger] u64_bytes(v).len() == 8,
{
    reveal(u64_bytes);
    broadcast use lemma_u32_len;

}

pub broadcast proof fn lemma_f32x3_len(v: [Real32; 3])
    ensures
        #[trigger] f32x3_bytes(v).len() == 12,
{
    reveal(f32x3_bytes);
    broadcast use lemma_u32_len;

}

pub broadcast proof fn lemma_f32x5_len(v: [Real32; 5])
    ensures
        #[trigger] f32x5_bytes(v).len() == 20,
{
    reveal(f32x5_bytes);
    broadcast use lemma_u32_len;

}

pub broadcast proof fn lemma_u8_at_end(pre: Seq<u8>, v: u8)
    ensures
        #[trigger] u8_at(pre + u8_bytes(v), pre.len() as int) == v,
{
    reveal(u8_at);
    reveal(u8_bytes);
}

pub broadcast proof fn lemma_u16_at_end(pre: Seq<u8>, v: u16)
    ensures
        #[trigger] u16_at(pre + u16_bytes(v), pre.len() as int) == v,
{
    reveal(u16_at);
    reveal(u16_bytes);
}

pub broadcast proof fn lemma_u32_at_end(pre: Seq<u8>, v: u32)
    ensures
        #[trigger] u32_at(pre + u32_bytes(v), pre.len() as int) == v,
{
    reveal(u32_at);
    reveal(u32_bytes);
}

pub broadcast proof fn lemma_u64_at_end(pre: Seq<u8>, v: u64)
    ensures
        #[trigger] u64_at(pre + u64_bytes(v), pre.len() as int) == v,
{
    reveal(u64_at);
    reveal(u64_bytes);
    let lo = u32_bytes((v % 0x1_0000_0000) as u32);
    let hi = u32_bytes((v / 0x1_0000_0000) as u32);
    assert(pre + u64_bytes(v) =~= (pre + lo) + hi);
    lemma_u32_len((v % 0x1_0000_0000) as u32);
    lemma_u32_at_end(pre, (v % 0x1_0000_0000) as u32);
    lemma_u32_at_front(pre + lo, hi, pre.len() as int);
    lemma_u32_at_end(pre + lo, (v / 0x1_0000_0000) as u32);
}

pub broadcast proof fn lemma_f32x3_at_end(pre: Seq<u8>, v: [Real32; 3])
    ensures
        #[trigger] f32x3_at(pre + f32x3_bytes(v), pre.len() as int) == v,
{
    reveal(f32x3_at);
    reveal(f32x3_bytes);
    broadcast use {lemma_u32_len, lemma_u32_at_end, lemma_u32_at_front};

    let a = real32_bytes(v[0]);
    let b = real32_bytes(v[1]);
    let c = real32_bytes(v[2]);
    assert(pre + f32x3_bytes(v) =~= pre + a + b + c);
    assert(f32x3_at(pre + f32x3_bytes(v), pre.len() as int) =~= v);
}

pub broadcast proof fn lemma_f32x5_at_end(pre: Seq<u8>, v: [Real32; 5])
    ensures
        #[trigger] f32x5_at(pre + f32x5_bytes(v), pre.len() as int) == v,
{
    reveal(f32x5_at);
    reveal(f32x5_bytes);
    broadcast use {lemma_u32_len, lemma_u32_at_end, lemma_u32_at_front};

    let a = real32_bytes(v[0]);
    let b = real32_bytes(v[1]);
    let c = real32_bytes(v[2]);
    let d = real32_bytes(v[3]);
    let e = real32_bytes(v[4]);
    assert(pre + f32x5_bytes(v) =~= pre + a + b + c + d + e);
    assert(f32x5_at(pre + f32x5_bytes(v), pre.len() as int) =~= v);
}

pub broadcast proof fn lemma_u8_at_front(pre: Seq<u8>, rest: Seq<u8>, i: int)
    requires
        0 <= i,
        i + 1 <= pre.len(),
    ensures
        #[trigger] u8_at(pre + rest, i) == u8_at(pre, i),
{
    reveal(u8_at);
}

pub broadcast proof fn lemma_u16_at_front(pre: Seq<u8>, rest: Seq<u8>, i: int)
    requires
        0 <= i,
        i + 2 <= pre.len(),
    ensures
        #[trigger] u16_at(pre + rest, i) == u16_at(pre, i),
{
    reveal(u16_at);
}

pub broadcast proof fn lemma_u32_at_front(pre: Seq<u8>, rest: Seq<u8>, i: int)
    requires
        0 <= i,
        i + 4 <= pre.len(),
    ensures
        #[trigger] u32_at(pre + rest, i) == u32_at(pre, i),
{
    reveal(u32_at);
}

pub broadcast proof fn lemma_u64_at_front(pre: Seq<u8>, rest: Seq<u8>, i: int)
    requires
        0 <= i,
        i + 8 <= pre.len(),
    ensures
        #[trigger] u64_at(pre + rest, i) == u64_at(pre, i),
{
    reveal(u64_at);
    lemma_u32_at_front(pre, rest, i);
    lemma_u32_at_front(pre, rest, i + 4);
}

pub broadcast proof fn lemma_f32x3_at_front(pre: Seq<u8>, rest: Seq<u8>, i: int)
    requires
        0 <= i,
        i + 12 <= pre.len(),
    ensures
        #[trigger] f32x3_at(pre + rest, i) == f32x3_at(pre, i),
{
    reveal(f32x3_at);
    broadcast use lemma_u32_at_front;

    assert(f32x3_at(pre + rest, i) =~= f32x3_at(pre, i));
}

pub broadcast proof fn lemma_f32x5_at_front(pre: Seq<u8>, rest: Seq<u8>, i: int)
    requires
        0 <= i,
        i + 20 <= pre.len(),
    ensures
        #[trigger] f32x5_at(pre + rest, i) == f32x5_at(pre, i),
{
    reveal(f32x5_at);
    broadcast use lemma_u32_at_front;

    assert(f32x5_at(pre + rest, i) =~= f32x5_at(pre, i));
}

/// The low byte of a word comes first.
pub proof fn lemma_u64_low_byte(pre: Seq<u8>, v: u64)
    ensures
        u8_at(pre + u64_bytes(v), pre.len() as int) == v % 0x100,
{
    reveal(u8_at);
    reveal(u64_bytes);
    reveal(u32_bytes);
}

/// What a proof about a whole message needs to know of the scalars.
pub broadcast group group_codec {
    lemma_u8_len,
    lemma_u16_len,
    lemma_u32_len,
    lemma_u64_len,
    lemma_f32x3_len,
    lemma_f32x5_len,
    lemma_u8_at_end,
    lemma_u16_at_end,
    lemma_u32_at_end,
    lemma_u64_at_end,
    lemma_f32x3_at_end,
    lemma_f32x5_at_end,
    lemma_u8_at_front,
    lemma_u16_at_front,
    lemma_u32_at_front,
    lemma_u64_at_front,
    lemma_f32x3_at_front,
    lemma_f32x5_at_front,
}

/// A buffer is what comes before any of its offsets and what comes after it.
pub proof fn lemma_parts(b: Seq<u8>, n: int)
    requires
        0 <= n <= b.len(),
    ensures
        b == b.take(n) + b.skip(n),
        b.take(0) == Seq::<u8>::empty(),
{
    assert(b =~= b.take(n) + b.skip(n));
    assert(b.take(0) =~= Seq::<u8>::empty());
}

/// Sequential little-endian writer over a caller-supplied buffer.
///
/// Its methods ask for room: every call site writes a type whose length is a
/// constant into a buffer sized by that same constant.
pub struct Writer<'a> {
    pub buf: &'a mut [u8],
    pub pos: usize,
}

/// From buffer `b0` with `p0` bytes written to buffer `b1` with `p1` bytes
/// written by appending `bytes`: what was written stays, and so does what lies
/// beyond.
pub open spec fn wrote(b0: Seq<u8>, p0: usize, b1: Seq<u8>, p1: usize, bytes: Seq<u8>) -> bool {
    &&& p1 == p0 + bytes.len()
    &&& b1.len() == b0.len()
    &&& b1.take(p1 as int) == b0.take(p0 as int) + bytes
    &&& forall|k: int| p1 <= k <= b1.len() ==> #[trigger] b1.skip(k) == b0.skip(k)
}

impl<'a> Writer<'a> {
    pub fn new(buf: &'a mut [u8]) -> (w: Self)
        ensures
            w.pos == 0,
            w.buf@ == old(buf)@,
            final(w.buf)@ == final(buf)@,
    {
        Writer { buf, pos: 0 }
    }

    /// Bytes written so far.
    pub fn len(&self) -> (n: usize)
        ensures
            n == self.pos,
    {
        self.pos
    }

    pub fn is_empty(&self) -> (r: bool)
        ensures
            r == (self.pos == 0),
    {
        self.pos == 0
    }

    fn put(&mut self, bytes: &[u8])
        requires
            old(self).pos + bytes@.len() <= old(self).buf@.len(),
        ensures
            wrote(old(self).buf@, old(self).pos, final(self).buf@, final(self).pos, bytes@),
            final(final(self).buf)@ == final(old(self).buf)@,
    {
        let start: usize = self.pos;
        let mut i: usize = 0;
        while i < bytes.len()
            invariant
                i <= bytes@.len(),
                start == old(self).pos,
                self.pos == start + i,
                start + bytes@.len() <= old(self).buf@.len(),
                self.buf@.len() == old(self).buf@.len(),
                self.buf@ =~= old(self).buf@.take(start as int) + bytes@.take(i as int)
                    + old(self).buf@.skip(start + i),
                final(self.buf)@ == final(old(self).buf)@,
            decreases bytes@.len() - i,
        {
            self.buf[self.pos] = bytes[i];
            self.pos = self.pos + 1;
            i = i + 1;
        }
        assert(self.buf@.take(self.pos as int) =~= old(self).buf@.take(start as int) + bytes@);
        assert forall|k: int| self.pos <= k <= self.buf@.len() implies #[trigger] self.buf@.skip(k)
            == old(self).buf@.skip(k) by {
            assert(self.buf@.skip(k) =~= old(self).buf@.skip(k));
        }
    }

    pub fn u8(&mut self, v: u8)
        requires
            old(self).pos + 1 <= old(self).buf@.len(),
        ensures
            wrote(old(self).buf@, old(self).pos, final(self).buf@, final(self).pos, u8_bytes(v)),
            final(final(self).buf)@ == final(old(self).buf)@,
    {
        let bytes: [u8; 1] = [v];
        proof {
            reveal(u8_bytes);
        }
        assert(bytes@ =~= u8_bytes(v));
        self.put(&bytes);
    }

    pub fn i8(&mut self, v: i8)
        requires
            old(self).pos + 1 <= old(self).buf@.len(),
        ensures
            wrote(old(self).buf@, old(self).pos, final(self).buf@, final(self).pos, i8_bytes(v)),
            final(final(self).buf)@ == final(old(self).buf)@,
    {
        let bits: u8 = if v < 0 {
            (v as i16 + 0x100) as u8
        } else {
            v as u8
        };
        self.u8(bits);
    }

    pub fn u16(&mut self, v: u16)
        requires
            old(self).pos + 2 <= old(self).buf@.len(),
        ensures
            wrote(old(self).buf@, old(self).pos, final(self).buf@, final(self).pos, u16_bytes(v)),
            final(final(self).buf)@ == final(old(self).buf)@,
    {
        let bytes: [u8; 2] = [(v % 0x100) as u8, (v / 0x100) as u8];
        proof {
            reveal(u16_bytes);
        }
        assert(bytes@ =~= u16_bytes(v));
        self.put(&bytes);
    }

    pub fn i16(&mut self, v: i16)
        requires
            old(self).pos + 2 <= old(self).buf@.len(),
        ensures
            wrote(old(self).buf@, old(self).pos, final(self).buf@, final(self).pos, i16_bytes(v)),
            final(final(self).buf)@ == final(old(self).buf)@,
    {
        let bits: u16 = if v < 0 {
            (v as i32 + 0x1_0000) as u16
        } else {
            v as u16
        };
        self.u16(bits);
    }

    pub fn u32(&mut self, v: u32)
        requires
            old(self).pos + 4 <= old(self).buf@.len(),
        ensures
            wrote(old(self).buf@, old(self).pos, final(self).buf@, final(self).pos, u32_bytes(v)),
            final(final(self).buf)@ == final(old(self).buf)@,
    {
        let bytes: [u8; 4] = [
            (v % 0x100) as u8,
            (v / 0x100 % 0x100) as u8,
            (v / 0x1_0000 % 0x100) as u8,
            (v / 0x100_0000) as u8,
        ];
        proof {
            reveal(u32_bytes);
        }
        assert(bytes@ =~= u32_bytes(v));
        self.put(&bytes);
    }

    pub fn i32(&mut self, v: i32)
        requires
            old(self).pos + 4 <= old(self).buf@.len(),
        ensures
            wrote(old(self).buf@, old(self).pos, final(self).buf@, final(self).pos, i32_bytes(v)),
            final(final(self).buf)@ == final(old(self).buf)@,
    {
        let bits: u32 = if v < 0 {
            (v as i64 + 0x1_0000_0000) as u32
        } else {
            v as u32
        };
        self.u32(bits);
    }

    pub fn u64(&mut self, v: u64)
        requires
            old(self).pos + 8 <= old(self).buf@.len(),
        ensures
            wrote(old(self).buf@, old(self).pos, final(self).buf@, final(self).pos, u64_bytes(v)),
            final(final(self).buf)@ == final(old(self).buf)@,
    {
        broadcast use lemma_u32_len;

        self.u32((v % 0x1_0000_0000) as u32);
        self.u32((v / 0x1_0000_0000) as u32);
        proof {
            reveal(u64_bytes);
            let b = old(self).buf@.take(old(self).pos as int);
            let lo = u32_bytes((v % 0x1_0000_0000) as u32);
            let hi = u32_bytes((v / 0x1_0000_0000) as u32);
            assert(b + lo + hi =~= b + (lo + hi));
        }
    }

    /// A single precision value, by its bit pattern.
    pub fn real32(&mut self, v: Real32)
        requires
            old(self).pos + 4 <= old(self).buf@.len(),
        ensures
            wrote(old(self).buf@, old(self).pos, final(self).buf@, final(self).pos, real32_bytes(v)),
            final(final(self).buf)@ == final(old(self).buf)@,
    {
        self.u32(v.0);
    }

    /// A double precision value, by its bit pattern.
    pub fn real64(&mut self, v: Real64)
        requires
            old(self).pos + 8 <= old(self).buf@.len(),
        ensures
            wrote(old(self).buf@, old(self).pos, final(self).buf@, final(self).pos, real64_bytes(v)),
            final(final(self).buf)@ == final(old(self).buf)@,
    {
        self.u64(v.0);
    }

    pub fn bool(&mut self, v: bool)
        requires
            old(self).pos + 1 <= old(self).buf@.len(),
        ensures
            wrote(old(self).buf@, old(self).pos, final(self).buf@, final(self).pos, bool_bytes(v)),
            final(final(self).buf)@ == final(old(self).buf)@,
    {
        self.u8(if v { 1 } else { 0 });
    }

    pub fn f32x3(&mut self, v: [Real32; 3])
        requires
            old(self).pos + 12 <= old(self).buf@.len(),
        ensures
            wrote(old(self).buf@, old(self).pos, final(self).buf@, final(self).pos, f32x3_bytes(v)),
            final(final(self).buf)@ == final(old(self).buf)@,
    {
        broadcast use lemma_u32_len;

        self.real32(v[0]);
        self.real32(v[1]);
        self.real32(v[2]);
        proof {
            reveal(f32x3_bytes);
            let b = old(self).buf@.take(old(self).pos as int);
            let (x, y, z) = (real32_bytes(v[0]), real32_bytes(v[1]), real32_bytes(v[2]));
            assert(b + x + y + z =~= b + (x + y + z));
        }
    }

    pub fn f32x5(&mut self, v: [Real32; 5])
        requires
            old(self).pos + 20 <= old(self).buf@.len(),
        ensures
            wrote(old(self).buf@, old(self).pos, final(self).buf@, final(self).pos, f32x5_bytes(v)),
            final(final(self).buf)@ == final(old(self).buf)@,
    {
        broadcast use lemma_u32_len;

        self.real32(v[0]);
        self.real32(v[1]);
        self.real32(v[2]);
        self.real32(v[3]);
        self.real32(v[4]);
        proof {
            reveal(f32x5_bytes);
            let b = old(self).buf@.take(old(self).pos as int);
            let (x, y, z) = (real32_bytes(v[0]), real32_bytes(v[1]), real32_bytes(v[2]));
            let (s, t) = (real32_bytes(v[3]), real32_bytes(v[4]));
            assert(b + x + y + z + s + t =~= b + (x + y + z + s + t));
        }
    }
}

/// Sequential little-endian reader.
///
/// Length is checked once, up front, by the decoders; the accessors then read
/// from a buffer already proven long enough.
pub struct Reader<'a> {
    pub buf: &'a [u8],
    pub pos: usize,
}

impl<'a> Reader<'a> {
    pub fn new(buf: &'a [u8]) -> (r: Self)
        ensures
            r.buf == buf,
            r.pos == 0,
    {
        Reader { buf, pos: 0 }
    }

    /// Bytes consumed so far.
    pub fn len(&self) -> (n: usize)
        ensures
            n == self.pos,
    {
        self.pos
    }

    pub fn is_empty(&self) -> (r: bool)
        ensures
            r == (self.pos == 0),
    {
        self.pos == 0
    }

    pub fn u8(&mut self) -> (v: u8)
        requires
            old(self).pos + 1 <= old(self).buf@.len(),
        ensures
            v == u8_at(old(self).buf@, old(self).pos as int),
            final(self).buf == old(self).buf,
            final(self).pos == old(self).pos + 1,
    {
        proof {
            reveal(u8_at);
        }
        let v: u8 = self.buf[self.pos];
        self.pos = self.pos + 1;
        v
    }

    pub fn i8(&mut self) -> (v: i8)
        requires
            old(self).pos + 1 <= old(self).buf@.len(),
        ensures
            v == i8_at(old(self).buf@, old(self).pos as int),
            final(self).buf == old(self).buf,
            final(self).pos == old(self).pos + 1,
    {
        let bits: u8 = self.u8();
        if bits >= 0x80 {
            (bits as i16 - 0x100) as i8
        } else {
            bits as i8
        }
    }

    pub fn u16(&mut self) -> (v: u16)
        requires
            old(self).pos + 2 <= old(self).buf@.len(),
        ensures
            v == u16_at(old(self).buf@, old(self).pos as int),
            final(self).buf == old(self).buf,
            final(self).pos == old(self).pos + 2,
    {
        proof {
            reveal(u16_at);
            reveal(u8_at);
        }
        let b0: u16 = self.u8() as u16;
        let b1: u16 = self.u8() as u16;
        b0 + 0x100 * b1
    }

    pub fn i16(&mut self) -> (v: i16)
        requires
            old(self).pos + 2 <= old(self).buf@.len(),
        ensures
            v == i16_at(old(self).buf@, old(self).pos as int),
            final(self).buf == old(self).buf,
            final(self).pos == old(self).pos + 2,
    {
        let bits: u16 = self.u16();
        if bits >= 0x8000 {
            (bits as i32 - 0x1_0000) as i16
        } else {
            bits as i16
        }
    }

    pub fn u32(&mut self) -> (v: u32)
        requires
            old(self).pos + 4 <= old(self).buf@.len(),
        ensures
            v == u32_at(old(self).buf@, old(self).pos as int),
            final(self).buf == old(self).buf,
            final(self).pos == old(self).pos + 4,
    {
        proof {
            reveal(u32_at);
            reveal(u8_at);
        }
        let b0: u32 = self.u8() as u32;
        let b1: u32 = self.u8() as u32;
        let b2: u32 = self.u8() as u32;
        let b3: u32 = self.u8() as u32;
        b0 + 0x100 * b1 + 0x1_0000 * b2 + 0x100_0000 * b3
    }

    pub fn i32(&mut self) -> (v: i32)
        requires
            old(self).pos + 4 <= old(self).buf@.len(),
        ensures
            v == i32_at(old(self).buf@, old(self).pos as int),
            final(self).buf == old(self).buf,
            final(self).pos == old(self).pos + 4,
    {
        let bits: u32 = self.u32();
        if bits >= 0x8000_0000 {
            (bits as i64 - 0x1_0000_0000) as i32
        } else {
            bits as i32
        }
    }

    pub fn u64(&mut self) -> (v: u64)
        requires
            old(self).pos + 8 <= old(self).buf@.len(),
        ensures
            v == u64_at(old(self).buf@, old(self).pos as int),
            final(self).buf == old(self).buf,
            final(self).pos == old(self).pos + 8,
    {
        proof {
            reveal(u64_at);
        }
        let lo: u64 = self.u32() as u64;
        let hi: u64 = self.u32() as u64;
        lo + 0x1_0000_0000 * hi
    }

    /// A single precision value, by its bit pattern.
    pub fn real32(&mut self) -> (v: Real32)
        requires
            old(self).pos + 4 <= old(self).buf@.len(),
        ensures
            v == real32_at(old(self).buf@, old(self).pos as int),
            final(self).buf == old(self).buf,
            final(self).pos == old(self).pos + 4,
    {
        Real32(self.u32())
    }

    /// A double precision value, by its bit pattern.
    pub fn real64(&mut self) -> (v: Real64)
        requires
            old(self).pos + 8 <= old(self).buf@.len(),
        ensures
            v == real64_at(old(self).buf@, old(self).pos as int),
            final(self).buf == old(self).buf,
            final(self).pos == old(self).pos + 8,
    {
        Real64(self.u64())
    }

    /// Any non-zero byte reads as `true`, so a peer that writes `0xFF` for true
    /// interoperates. Only `0` is false.
    pub fn bool(&mut self) -> (v: bool)
        requires
            old(self).pos + 1 <= old(self).buf@.len(),
        ensures
            v == bool_at(old(self).buf@, old(self).pos as int),
            final(self).buf == old(self).buf,
            final(self).pos == old(self).pos + 1,
    {
        self.u8() != 0
    }

    pub fn f32x3(&mut self) -> (v: [Real32; 3])
        requires
            old(self).pos + 12 <= old(self).buf@.len(),
        ensures
            v == f32x3_at(old(self).buf@, old(self).pos as int),
            final(self).buf == old(self).buf,
            final(self).pos == old(self).pos + 12,
    {
        let v: [Real32; 3] = [self.real32(), self.real32(), self.real32()];
        proof {
            reveal(f32x3_at);
            assert(v =~= f32x3_at(old(self).buf@, old(self).pos as int));
        }
        v
    }

    pub fn f32x5(&mut self) -> (v: [Real32; 5])
        requires
            old(self).pos + 20 <= old(self).buf@.len(),
        ensures
            v == f32x5_at(old(self).buf@, old(self).pos as int),
            final(self).buf == old(self).buf,
            final(self).pos == old(self).pos + 20,
    {
        let v: [Real32; 5] = [
            self.real32(),
            self.real32(),
            self.real32(),
            self.real32(),
            self.real32(),
        ];
        proof {
            reveal(f32x5_at);
            assert(v =~= f32x5_at(old(self).buf@, old(self).pos as int));
        }
        v
    }
}

/// A signed value survives the trip through its unsigned bits.
pub proof fn law_signed_bits(a: i8, b: i16, c: i32)
    ensures
        i8_of_bits(i8_bits(a)) == a,
        i16_of_bits(i16_bits(b)) == b,
        i32_of_bits(i32_bits(c)) == c,
{
}

/// Numbers are read low byte first; signed ones in two's complement, and
/// fractions by their pattern. A flag is any byte but zero.
pub proof fn law_little_endian(b: Seq<u8>, i: int)
    requires
        0 <= i,
        i + 8 <= b.len(),
    ensures
        u8_at(b, i) == b[i],
        u16_at(b, i) == b[i] + 256 * b[i + 1],
        u32_at(b, i) == b[i] + 256 * b[i + 1] + 65536 * b[i + 2] + 16777216 * b[i + 3],
        u64_at(b, i) == u32_at(b, i) + 4294967296 * u32_at(b, i + 4),
        (i8_at(b, i) - b[i]) % 256 == 0,
        (i16_at(b, i) - u16_at(b, i)) % 65536 == 0,
        (i32_at(b, i) - u32_at(b, i)) % 4294967296 == 0,
        real32_at(b, i).0 == u32_at(b, i),
        real64_at(b, i).0 == u64_at(b, i),
        bool_at(b, i) <==> b[i] != 0,
{
    reveal(u8_at);
    reveal(u16_at);
    reveal(u32_at);
    reveal(u64_at);
}

/// What is written reads back, wherever it stands and whatever follows.
pub proof fn law_scalars_read_back(
    pre: Seq<u8>,
    rest: Seq<u8>,
    a: u8,
    b: u16,
    c: u32,
    d: u64,
    e: bool,
    f: i32,
)
    ensures
        u8_at(pre + u8_bytes(a) + rest, pre.len() as int) == a,
        u16_at(pre + u16_bytes(b) + rest, pre.len() as int) == b,
        u32_at(pre + u32_bytes(c) + rest, pre.len() as int) == c,
        u64_at(pre + u64_bytes(d) + rest, pre.len() as int) == d,
        bool_at(pre + bool_bytes(e) + rest, pre.len() as int) == e,
        i32_at(pre + i32_bytes(f) + rest, pre.len() as int) == f,
{
    broadcast use group_codec;

}

/// Vectors stand component by component.
pub proof fn law_vectors_are_read_in_order(b: Seq<u8>, i: int)
    ensures
        f32x3_at(b, i)[0] == real32_at(b, i),
        f32x3_at(b, i)[1] == real32_at(b, i + 4),
        f32x3_at(b, i)[2] == real32_at(b, i + 8),
        f32x5_at(b, i)[0] == real32_at(b, i),
        f32x5_at(b, i)[1] == real32_at(b, i + 4),
        f32x5_at(b, i)[2] == real32_at(b, i + 8),
        f32x5_at(b, i)[3] == real32_at(b, i + 12),
        f32x5_at(b, i)[4] == real32_at(b, i + 16),
{
    reveal(f32x3_at);
    reveal(f32x5_at);
}

/// What is said of a failed decoding: what was needed and then what there was, or
/// the byte and then its field.
pub proof fn law_errors_are_told(e: DecodeError)
    ensures
        e matches DecodeError::TooShort { need, got } ==> {
            &&& e.described().subrange(23, 23 + text::dec(need as nat).len() as int) == text::dec(
                need as nat,
            )
            &&& text::dec(got as nat).is_suffix_of(e.described())
        },
        e matches DecodeError::BadDiscriminant { field, value } ==> {
            &&& e.described().subrange(21, 21 + text::dec(value as nat).len() as int) == text::dec(
                value as nat,
            )
            &&& (field@ + "`"@).is_suffix_of(e.described())
        },
{
    reveal_strlit("buffer too short: need ");
    reveal_strlit("invalid discriminant ");
    assert("buffer too short: need "@.len() == 23 && "invalid discriminant "@.len() == 21);
    let d = e.described();
    match e {
        DecodeError::TooShort { need, got } => {
            let (a, b) = (text::dec(need as nat), text::dec(got as nat));
            assert(d.subrange(23, 23 + a.len() as int) =~= a);
            assert(d.subrange(d.len() - b.len(), d.len() as int) =~= b);
        },
        DecodeError::BadDiscriminant { field, value } => {
            let (a, b) = (text::dec(value as nat), field@ + "`"@);
            assert(d.subrange(21, 21 + a.len() as int) =~= a);
            assert(d.subrange(d.len() - b.len(), d.len() as int) =~= b);
        },
    }
}

} // verus!
