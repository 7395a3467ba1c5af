//! Big-endian wire primitives: what a fixed-width integer looks like on the
//! wire, stated as spec functions, the buffer calls that write it, and a
//! cursor that reads it with an end-of-buffer check.

use crate::server::model::DecodeError;
use bytes::Buf;
use bytes::BufMut;
use vstd::prelude::*;

verus! {

/// The one byte that carries `value`: its residue modulo 256, so a negative
/// `value` appears in two's complement.
pub open spec fn be_bytes_1(value: int) -> Seq<u8> {
    seq![(value % 0x100) as u8]
}

/// The two big-endian bytes of `value` (its lowest 16 bits).
pub open spec fn be_bytes_2(value: int) -> Seq<u8> {
    seq![(value / 0x100 % 0x100) as u8, (value % 0x100) as u8]
}

/// The four big-endian bytes of `value` (its lowest 32 bits).
pub open spec fn be_bytes_4(value: int) -> Seq<u8> {
    be_bytes_2(value / 0x1_0000) + be_bytes_2(value)
}

/// The eight big-endian bytes of `value` (its lowest 64 bits). Opaque to
/// keep proofs small: the lemmas below say how long it is and that it reads
/// back; reveal it to compute with it.
#[verifier::opaque]
pub open spec fn be_bytes_8(value: int) -> Seq<u8> {
    be_bytes_4(value / 0x1_0000_0000) + be_bytes_4(value)
}

/// The sixteen big-endian bytes of `value` (its lowest 128 bits). Opaque,
/// like the eight-byte encoding.
#[verifier::opaque]
pub open spec fn be_bytes_16(value: int) -> Seq<u8> {
    be_bytes_8(value / 0x1_0000_0000_0000_0000) + be_bytes_8(value)
}

/// The unsigned number spelled by the first two bytes of `bytes`.
pub open spec fn be_value_2(bytes: Seq<u8>) -> int {
    bytes[0] as int * 0x100 + bytes[1] as int
}

/// The unsigned number spelled by the first four bytes of `bytes`.
pub open spec fn be_value_4(bytes: Seq<u8>) -> int {
    be_value_2(bytes) * 0x1_0000 + be_value_2(bytes.skip(2))
}

/// The unsigned number spelled by the first eight bytes of `bytes`. Opaque,
/// like the encodings of this width.
#[verifier::opaque]
pub open spec fn be_value_8(bytes: Seq<u8>) -> int {
    be_value_4(bytes) * 0x1_0000_0000 + be_value_4(bytes.skip(4))
}

/// The unsigned number spelled by the first sixteen bytes of `bytes`.
/// Opaque, like the encodings of this width.
#[verifier::opaque]
pub open spec fn be_value_16(bytes: Seq<u8>) -> int {
    be_value_8(bytes) * 0x1_0000_0000_0000_0000 + be_value_8(bytes.skip(8))
}

/// Reads an unsigned number below `modulus` as two's complement: the upper
/// half of the range stands for the negative numbers.
pub open spec fn signed(value: int, modulus: int) -> int {
    if 2 * value >= modulus {
        value - modulus
    } else {
        value
    }
}

/// A two-byte encoding is two bytes long, and a one-byte encoding one.
pub proof fn lemma_be_bytes_2_len(value: int)
    ensures
        be_bytes_1(value).len() == 1,
        be_bytes_2(value).len() == 2,
{
}

/// A four-byte encoding is four bytes long.
pub proof fn lemma_be_bytes_4_len(value: int)
    ensures
        be_bytes_4(value).len() == 4,
{
}

/// An eight-byte encoding is eight bytes long.
pub proof fn lemma_be_bytes_8_len(value: int)
    ensures
        be_bytes_8(value).len() == 8,
{
    reveal(be_bytes_8);
}

/// A sixteen-byte encoding is sixteen bytes long.
pub proof fn lemma_be_bytes_16_len(value: int)
    ensures
        be_bytes_16(value).len() == 16,
{
    reveal(be_bytes_16);
    lemma_be_bytes_8_len(value / 0x1_0000_0000_0000_0000);
    lemma_be_bytes_8_len(value);
}

/// What is left behind the first `count` bytes is an end of the bytes.
pub proof fn lemma_skip_is_suffix(bytes: Seq<u8>, count: int)
    requires
        0 <= count <= bytes.len(),
    ensures
        bytes.skip(count).is_suffix_of(bytes),
{
}

/// The end of an end of some bytes is an end of those bytes.
pub proof fn lemma_suffix_of_suffix(inner: Seq<u8>, middle: Seq<u8>, outer: Seq<u8>)
    requires
        inner.is_suffix_of(middle),
        middle.is_suffix_of(outer),
    ensures
        inner.is_suffix_of(outer),
{
}

/// A big-endian number of two or four bytes is spelled by the bytes at the
/// front: what follows them does not change it.
pub proof fn lemma_be_value_of_front(front: Seq<u8>, rest: Seq<u8>)
    ensures
        front.len() >= 2 ==> be_value_2(front + rest) == be_value_2(front),
        front.len() >= 4 ==> be_value_4(front + rest) == be_value_4(front),
{
    if front.len() >= 4 {
        assert((front + rest).skip(2) == front.skip(2) + rest);
    }
}

/// A big-endian number of eight bytes is spelled by the bytes at the front.
pub proof fn lemma_be_value_8_of_front(front: Seq<u8>, rest: Seq<u8>)
    requires
        front.len() >= 8,
    ensures
        be_value_8(front + rest) == be_value_8(front),
{
    reveal(be_value_8);
    assert((front + rest).skip(4) == front.skip(4) + rest);
    lemma_be_value_of_front(front, rest);
    lemma_be_value_of_front(front.skip(4), rest);
}

/// A big-endian number of sixteen bytes is spelled by the bytes at the
/// front.
pub proof fn lemma_be_value_16_of_front(front: Seq<u8>, rest: Seq<u8>)
    requires
        front.len() >= 16,
    ensures
        be_value_16(front + rest) == be_value_16(front),
{
    reveal(be_value_16);
    assert((front + rest).skip(8) == front.skip(8) + rest);
    lemma_be_value_8_of_front(front, rest);
    lemma_be_value_8_of_front(front.skip(8), rest);
}

/// The number spelled by two halves joined is put together from the numbers
/// that the halves spell.
proof fn lemma_be_value_of_halves(high: Seq<u8>, low: Seq<u8>)
    ensures
        high.len() == 2 ==> be_value_4(high + low) == be_value_2(high) * 0x1_0000 + be_value_2(low),
        high.len() == 4 ==> be_value_8(high + low) == be_value_4(high) * 0x1_0000_0000
            + be_value_4(low),
        high.len() == 8 ==> be_value_16(high + low) == be_value_8(high) * 0x1_0000_0000_0000_0000
            + be_value_8(low),
{
    if high.len() == 2 {
        assert((high + low).skip(2) == low);
    }
    if high.len() == 4 {
        reveal(be_value_8);
        assert((high + low).skip(4) == low);
        lemma_be_value_of_front(high, low);
    }
    if high.len() == 8 {
        reveal(be_value_16);
        assert((high + low).skip(8) == low);
        lemma_be_value_8_of_front(high, low);
    }
}

/// A number of twice the width is put together from its two halves.
proof fn lemma_halves(value: int)
    ensures
        (value / 0x1_0000 % 0x1_0000) * 0x1_0000 + value % 0x1_0000 == value % 0x1_0000_0000,
        (value / 0x1_0000_0000 % 0x1_0000_0000) * 0x1_0000_0000 + value % 0x1_0000_0000 == value
            % 0x1_0000_0000_0000_0000,
        (value / 0x1_0000_0000_0000_0000 % 0x1_0000_0000_0000_0000) * 0x1_0000_0000_0000_0000
            + value % 0x1_0000_0000_0000_0000 == value
            % 0x1_0000_0000_0000_0000_0000_0000_0000_0000int,
{
}

/// Reading the two bytes that were written for `value` gives `value` back,
/// up to the 16 bits that two bytes hold.
pub proof fn lemma_be_round_trip_2(value: int)
    ensures
        be_value_2(be_bytes_2(value)) == value % 0x1_0000,
{
}

/// Reading the four bytes that were written for `value` gives `value` back,
/// up to the 32 bits that four bytes hold.
pub proof fn lemma_be_round_trip_4(value: int)
    ensures
        be_value_4(be_bytes_4(value)) == value % 0x1_0000_0000,
{
    lemma_be_value_of_halves(be_bytes_2(value / 0x1_0000), be_bytes_2(value));
    lemma_be_round_trip_2(value / 0x1_0000);
    lemma_be_round_trip_2(value);
    lemma_halves(value);
}

/// Reading the eight bytes that were written for `value` gives `value` back,
/// up to the 64 bits that eight bytes hold.
pub proof fn lemma_be_round_trip_8(value: int)
    ensures
        be_value_8(be_bytes_8(value)) == value % 0x1_0000_0000_0000_0000,
{
    reveal(be_bytes_8);
    lemma_be_bytes_4_len(value / 0x1_0000_0000);
    lemma_be_value_of_halves(be_bytes_4(value / 0x1_0000_0000), be_bytes_4(value));
    lemma_be_round_trip_4(value / 0x1_0000_0000);
    lemma_be_round_trip_4(value);
    lemma_halves(value);
}

/// Reading the sixteen bytes that were written for `value` gives `value`
/// back, up to the 128 bits that sixteen bytes hold.
pub proof fn lemma_be_round_trip_16(value: int)
    ensures
        be_value_16(be_bytes_16(value)) == value % 0x1_0000_0000_0000_0000_0000_0000_0000_0000int,
{
    reveal(be_bytes_16);
    lemma_be_bytes_8_len(value / 0x1_0000_0000_0000_0000);
    lemma_be_value_of_halves(be_bytes_8(value / 0x1_0000_0000_0000_0000), be_bytes_8(value));
    lemma_be_round_trip_8(value / 0x1_0000_0000_0000_0000);
    lemma_be_round_trip_8(value);
    lemma_halves(value);
}

/// `bytes::BufMut::put_u8` on a `Vec<u8>`: appends the byte `value`.
#[verifier::external_body]
pub(crate) fn buf_put_u8(buffer: &mut Vec<u8>, value: u8)
    ensures
        final(buffer)@ == old(buffer)@ + be_bytes_1(value as int),
{
    buffer.put_u8(value);
}

/// `bytes::BufMut::put_i8` on a `Vec<u8>`: appends `value` as one byte in
/// two's complement.
#[verifier::external_body]
pub(crate) fn buf_put_i8(buffer: &mut Vec<u8>, value: i8)
    ensures
        final(buffer)@ == old(buffer)@ + be_bytes_1(value as int),
{
    buffer.put_i8(value);
}

/// `bytes::BufMut::put_i16` on a `Vec<u8>`: appends the two big-endian bytes
/// of `value`.
#[verifier::external_body]
pub(crate) fn buf_put_i16(buffer: &mut Vec<u8>, value: i16)
    ensures
        final(buffer)@ == old(buffer)@ + be_bytes_2(value as int),
{
    buffer.put_i16(value);
}

/// `bytes::BufMut::put_i32` on a `Vec<u8>`: appends the four big-endian bytes
/// of `value`.
#[verifier::external_body]
pub(crate) fn buf_put_i32(buffer: &mut Vec<u8>, value: i32)
    ensures
        final(buffer)@ == old(buffer)@ + be_bytes_4(value as int),
{
    buffer.put_i32(value);
}

/// `bytes::BufMut::put_i64` on a `Vec<u8>`: appends the eight big-endian
/// bytes of `value`.
#[verifier::external_body]
pub(crate) fn buf_put_i64(buffer: &mut Vec<u8>, value: i64)
    ensures
        final(buffer)@ == old(buffer)@ + be_bytes_8(value as int),
{
    buffer.put_i64(value);
}

/// `bytes::BufMut::put_u128` on a `Vec<u8>`: appends the sixteen big-endian
/// bytes of `value`.
#[verifier::external_body]
pub(crate) fn buf_put_u128(buffer: &mut Vec<u8>, value: u128)
    ensures
        final(buffer)@ == old(buffer)@ + be_bytes_16(value as int),
{
    buffer.put_u128(value);
}

/// `bytes::BufMut::put` on a `Vec<u8>` with a byte slice as its source:
/// appends the whole of `src`.
#[verifier::external_body]
pub(crate) fn buf_put(buffer: &mut Vec<u8>, src: &[u8])
    ensures
        final(buffer)@ == old(buffer)@ + src@,
{
    buffer.put(src);
}

/// `bytes::Buf::get_u8` on a byte slice: hands back the first byte and the
/// slice behind it. The call panics on an empty slice, which `requires` rules
/// out.
#[verifier::external_body]
fn buf_get_u8<'a>(src: &'a [u8]) -> (out: (u8, &'a [u8]))
    requires
        src@.len() >= 1,
    ensures
        out.0 == src@[0],
        out.1@ == src@.skip(1),
{
    let mut rest: &[u8] = src;
    let value: u8 = rest.get_u8();
    (value, rest)
}

/// `bytes::Buf::get_i8` on a byte slice: the first byte read as two's
/// complement, and the slice behind it. Panics on an empty slice, which
/// `requires` rules out.
#[verifier::external_body]
fn buf_get_i8<'a>(src: &'a [u8]) -> (out: (i8, &'a [u8]))
    requires
        src@.len() >= 1,
    ensures
        out.0 == signed(src@[0] as int, 0x100),
        out.1@ == src@.skip(1),
{
    let mut rest: &[u8] = src;
    let value: i8 = rest.get_i8();
    (value, rest)
}

/// `bytes::Buf::get_u16` on a byte slice: the first two bytes as a
/// big-endian number, and the slice behind them. Panics on fewer than two
/// bytes, which `requires` rules out.
#[verifier::external_body]
fn buf_get_u16<'a>(src: &'a [u8]) -> (out: (u16, &'a [u8]))
    requires
        src@.len() >= 2,
    ensures
        out.0 == be_value_2(src@),
        out.1@ == src@.skip(2),
{
    let mut rest: &[u8] = src;
    let value: u16 = rest.get_u16();
    (value, rest)
}

/// `bytes::Buf::get_i16` on a byte slice: the first two bytes as a
/// big-endian two's-complement number, and the slice behind them. Panics on
/// fewer than two bytes, which `requires` rules out.
#[verifier::external_body]
fn buf_get_i16<'a>(src: &'a [u8]) -> (out: (i16, &'a [u8]))
    requires
        src@.len() >= 2,
    ensures
        out.0 == signed(be_value_2(src@), 0x1_0000),
        out.1@ == src@.skip(2),
{
    let mut rest: &[u8] = src;
    let value: i16 = rest.get_i16();
    (value, rest)
}

/// `bytes::Buf::get_u32` on a byte slice: the first four bytes as a
/// big-endian number, and the slice behind them. Panics on fewer than four
/// bytes, which `requires` rules out.
#[verifier::external_body]
fn buf_get_u32<'a>(src: &'a [u8]) -> (out: (u32, &'a [u8]))
    requires
        src@.len() >= 4,
    ensures
        out.0 == be_value_4(src@),
        out.1@ == src@.skip(4),
{
    let mut rest: &[u8] = src;
    let value: u32 = rest.get_u32();
    (value, rest)
}

/// `bytes::Buf::get_i32` on a byte slice: the first four bytes as a
/// big-endian two's-complement number, and the slice behind them. Panics on
/// fewer than four bytes, which `requires` rules out.
#[verifier::external_body]
fn buf_get_i32<'a>(src: &'a [u8]) -> (out: (i32, &'a [u8]))
    requires
        src@.len() >= 4,
    ensures
        out.0 == signed(be_value_4(src@), 0x1_0000_0000),
        out.1@ == src@.skip(4),
{
    let mut rest: &[u8] = src;
    let value: i32 = rest.get_i32();
    (value, rest)
}

/// `bytes::Buf::get_u64` on a byte slice: the first eight bytes as a
/// big-endian number, and the slice behind them. Panics on fewer than eight
/// bytes, which `requires` rules out.
#[verifier::external_body]
fn buf_get_u64<'a>(src: &'a [u8]) -> (out: (u64, &'a [u8]))
    requires
        src@.len() >= 8,
    ensures
        out.0 == be_value_8(src@),
        out.1@ == src@.skip(8),
{
    let mut rest: &[u8] = src;
    let value: u64 = rest.get_u64();
    (value, rest)
}

/// `bytes::Buf::get_u128` on a byte slice: the first sixteen bytes as a
/// big-endian number, and the slice behind them. Panics on fewer than
/// sixteen bytes, which `requires` rules out.
#[verifier::external_body]
fn buf_get_u128<'a>(src: &'a [u8]) -> (out: (u128, &'a [u8]))
    requires
        src@.len() >= 16,
    ensures
        out.0 == be_value_16(src@),
        out.1@ == src@.skip(16),
{
    let mut rest: &[u8] = src;
    let value: u128 = rest.get_u128();
    (value, rest)
}

/// `bytes::Buf::advance` on a byte slice: the slice behind its first `count`
/// bytes. Panics when `count` exceeds the length, which `requires` rules out.
#[verifier::external_body]
fn buf_advance<'a>(src: &'a [u8], count: usize) -> (rest: &'a [u8])
    requires
        count <= src@.len(),
    ensures
        rest@ == src@.skip(count as int),
{
    let mut rest: &[u8] = src;
    rest.advance(count);
    rest
}

/// A read position in a frame payload. Its view is the bytes not yet read.
/// Every read checks that enough bytes are left and reports an underrun
/// instead of reading past the end; a failed read leaves the cursor where it
/// was.
pub struct ByteCursor<'a> {
    rest: &'a [u8],
}

impl<'a> View for ByteCursor<'a> {
    type V = Seq<u8>;

    closed spec fn view(&self) -> Seq<u8> {
        self.rest@
    }
}

impl<'a> ByteCursor<'a> {
    /// A cursor at the start of `bytes`.
    pub fn new(bytes: &'a [u8]) -> (cursor: Self)
        ensures
            cursor@ == bytes@,
    {
        ByteCursor { rest: bytes }
    }

    /// How many bytes are left to read.
    pub fn remaining(&self) -> (count: usize)
        ensures
            count == self@.len(),
    {
        self.rest.len()
    }

    /// Skips `count` bytes.
    pub fn advance(&mut self, count: usize) -> (result: Result<(), DecodeError>)
        ensures
            match result {
                Ok(_) => old(self)@.len() >= count && final(self)@ == old(self)@.skip(count as int),
                Err(error) => old(self)@.len() < count && final(self)@ == old(self)@ && error
                    == DecodeError::BufferUnderrun,
            },
    {
        if self.rest.len() < count {
            return Err(DecodeError::BufferUnderrun);
        }
        self.rest = buf_advance(self.rest, count);
        Ok(())
    }

    /// Reads one unsigned byte.
    pub fn get_u8(&mut self) -> (result: Result<u8, DecodeError>)
        ensures
            match result {
                Ok(value) => old(self)@.len() >= 1 && final(self)@ == old(self)@.skip(1) && value
                    == old(self)@[0],
                Err(error) => old(self)@.len() < 1 && final(self)@ == old(self)@ && error
                    == DecodeError::BufferUnderrun,
            },
    {
        if self.rest.len() < 1 {
            return Err(DecodeError::BufferUnderrun);
        }
        let (value, rest) = buf_get_u8(self.rest);
        self.rest = rest;
        Ok(value)
    }

    /// Reads one signed byte.
    pub fn get_i8(&mut self) -> (result: Result<i8, DecodeError>)
        ensures
            match result {
                Ok(value) => old(self)@.len() >= 1 && final(self)@ == old(self)@.skip(1) && value
                    == signed(old(self)@[0] as int, 0x100),
                Err(error) => old(self)@.len() < 1 && final(self)@ == old(self)@ && error
                    == DecodeError::BufferUnderrun,
            },
    {
        if self.rest.len() < 1 {
            return Err(DecodeError::BufferUnderrun);
        }
        let (value, rest) = buf_get_i8(self.rest);
        self.rest = rest;
        Ok(value)
    }

    /// Reads a big-endian 16-bit unsigned integer.
    pub fn get_u16(&mut self) -> (result: Result<u16, DecodeError>)
        ensures
            match result {
                Ok(value) => old(self)@.len() >= 2 && final(self)@ == old(self)@.skip(2) && value
                    == be_value_2(old(self)@),
                Err(error) => old(self)@.len() < 2 && final(self)@ == old(self)@ && error
                    == DecodeError::BufferUnderrun,
            },
    {
        if self.rest.len() < 2 {
            return Err(DecodeError::BufferUnderrun);
        }
        let (value, rest) = buf_get_u16(self.rest);
        self.rest = rest;
        Ok(value)
    }

    /// Reads a big-endian 16-bit signed integer.
    pub fn get_i16(&mut self) -> (result: Result<i16, DecodeError>)
        ensures
            match result {
                Ok(value) => old(self)@.len() >= 2 && final(self)@ == old(self)@.skip(2) && value
                    == signed(be_value_2(old(self)@), 0x1_0000),
                Err(error) => old(self)@.len() < 2 && final(self)@ == old(self)@ && error
                    == DecodeError::BufferUnderrun,
            },
    {
        if self.rest.len() < 2 {
            return Err(DecodeError::BufferUnderrun);
        }
        let (value, rest) = buf_get_i16(self.rest);
        self.rest = rest;
        Ok(value)
    }

    /// Reads a big-endian 32-bit unsigned integer.
    pub fn get_u32(&mut self) -> (result: Result<u32, DecodeError>)
        ensures
            match result {
                Ok(value) => old(self)@.len() >= 4 && final(self)@ == old(self)@.skip(4) && value
                    == be_value_4(old(self)@),
                Err(error) => old(self)@.len() < 4 && final(self)@ == old(self)@ && error
                    == DecodeError::BufferUnderrun,
            },
    {
        if self.rest.len() < 4 {
            return Err(DecodeError::BufferUnderrun);
        }
        let (value, rest) = buf_get_u32(self.rest);
        self.rest = rest;
        Ok(value)
    }

    /// Reads a big-endian 32-bit signed integer.
    pub fn get_i32(&mut self) -> (result: Result<i32, DecodeError>)
        ensures
            match result {
                Ok(value) => old(self)@.len() >= 4 && final(self)@ == old(self)@.skip(4) && value
                    == signed(be_value_4(old(self)@), 0x1_0000_0000),
                Err(error) => old(self)@.len() < 4 && final(self)@ == old(self)@ && error
                    == DecodeError::BufferUnderrun,
            },
    {
        if self.rest.len() < 4 {
            return Err(DecodeError::BufferUnderrun);
        }
        let (value, rest) = buf_get_i32(self.rest);
        self.rest = rest;
        Ok(value)
    }

    /// Reads a big-endian 64-bit unsigned integer.
    pub fn get_u64(&mut self) -> (result: Result<u64, DecodeError>)
        ensures
            match result {
                Ok(value) => old(self)@.len() >= 8 && final(self)@ == old(self)@.skip(8) && value
                    == be_value_8(old(self)@),
                Err(error) => old(self)@.len() < 8 && final(self)@ == old(self)@ && error
                    == DecodeError::BufferUnderrun,
            },
    {
        if self.rest.len() < 8 {
            return Err(DecodeError::BufferUnderrun);
        }
        let (value, rest) = buf_get_u64(self.rest);
        self.rest = rest;
        Ok(value)
    }

    /// Reads a big-endian 128-bit unsigned integer.
    pub fn get_u128(&mut self) -> (result: Result<u128, DecodeError>)
        ensures
            match result {
                Ok(value) => old(self)@.len() >= 16 && final(self)@ == old(self)@.skip(16) && value
                    == be_value_16(old(self)@),
                Err(error) => old(self)@.len() < 16 && final(self)@ == old(self)@ && error
                    == DecodeError::BufferUnderrun,
            },
    {
        if self.rest.len() < 16 {
            return Err(DecodeError::BufferUnderrun);
        }
        let (value, rest) = buf_get_u128(self.rest);
        self.rest = rest;
        Ok(value)
    }
}

} // verus!
