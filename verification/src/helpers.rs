//! The byte reader that every decoder is built on, and the error type they share.
//!
//! A [`Reader`] walks over bytes that are already in memory. Its model is the
//! sequence of bytes that it has not consumed yet, and every read is stated as
//! a function from that sequence to a value and the bytes that are left.

use byteorder::{ByteOrder, LittleEndian};
use encoding::all::WINDOWS_1252;
use encoding::{DecoderTrap, Encoding};
use crate::opentibia::{spec_position, Position};
use vstd::prelude::*;
use vstd::slice::slice_subrange;

verus! {

/// Why a decode stopped.
#[derive(Clone, Copy, Debug, PartialEq, Eq, Structural)]
pub enum DecodeError {
    /// The source ran out in the middle of a field.
    UnexpectedEnd,
    /// The bytes break the structure of the format.
    MalformedStream,
    /// A tag byte that the format does not know, in a place where it cannot be skipped.
    UnknownTag(u8),
    /// Text bytes that the codepage does not map.
    Decode,
    /// A node outside the context that it needs.
    PreconditionViolation,
}

/// What a decoder makes of a byte sequence: a value and the bytes behind it, or a failure.
pub type Parsed<T> = Result<(T, Seq<u8>), DecodeError>;

/// `got` and `after` are what `want` asks for: the value and the rest on success, the same error
/// on failure.
pub open spec fn decoded<T>(want: Parsed<T>, got: Result<T, DecodeError>, after: Seq<u8>) -> bool {
    match want {
        Ok((v, rest)) => got == Ok::<T, DecodeError>(v) && after == rest,
        Err(e) => got == Err::<T, DecodeError>(e),
    }
}

/// As [`decoded`], for a value that is compared by its view.
pub open spec fn decoded_view<T: View>(
    want: Parsed<T::V>,
    got: Result<T, DecodeError>,
    after: Seq<u8>,
) -> bool {
    match want {
        Ok((v, rest)) => got is Ok && got->Ok_0@ == v && after == rest,
        Err(e) => got == Err::<T, DecodeError>(e),
    }
}

/// The first `n` bytes of `s`, if it has that many.
pub open spec fn spec_take(s: Seq<u8>, n: nat) -> Parsed<Seq<u8>> {
    if s.len() >= n {
        Ok((s.take(n as int), s.skip(n as int)))
    } else {
        Err(DecodeError::UnexpectedEnd)
    }
}

/// The number that two bytes spell, least significant byte first.
pub open spec fn u16_le(b: Seq<u8>) -> int {
    b[0] as int + 256 * (b[1] as int)
}

/// The number that four bytes spell, least significant byte first.
pub open spec fn u32_le(b: Seq<u8>) -> int {
    b[0] as int + 256 * (b[1] as int) + 65536 * (b[2] as int) + 16777216 * (b[3] as int)
}

/// The two's complement reading of a 16 bit pattern.
pub open spec fn signed16(u: int) -> int {
    if u < 0x8000 {
        u
    } else {
        u - 0x1_0000
    }
}

/// The two's complement reading of a 32 bit pattern.
pub open spec fn signed32(u: int) -> int {
    if u < 0x8000_0000 {
        u
    } else {
        u - 0x1_0000_0000
    }
}

/// One byte.
pub open spec fn spec_u8(s: Seq<u8>) -> Parsed<u8> {
    if s.len() >= 1 {
        Ok((s[0], s.skip(1)))
    } else {
        Err(DecodeError::UnexpectedEnd)
    }
}

/// An unsigned 16 bit number, least significant byte first.
pub open spec fn spec_u16(s: Seq<u8>) -> Parsed<u16> {
    if s.len() >= 2 {
        Ok((u16_le(s) as u16, s.skip(2)))
    } else {
        Err(DecodeError::UnexpectedEnd)
    }
}

/// A signed 16 bit number, least significant byte first.
pub open spec fn spec_i16(s: Seq<u8>) -> Parsed<i16> {
    if s.len() >= 2 {
        Ok((signed16(u16_le(s)) as i16, s.skip(2)))
    } else {
        Err(DecodeError::UnexpectedEnd)
    }
}

/// An unsigned 32 bit number, least significant byte first.
pub open spec fn spec_u32(s: Seq<u8>) -> Parsed<u32> {
    if s.len() >= 4 {
        Ok((u32_le(s) as u32, s.skip(4)))
    } else {
        Err(DecodeError::UnexpectedEnd)
    }
}

/// A signed 32 bit number, least significant byte first.
pub open spec fn spec_i32(s: Seq<u8>) -> Parsed<i32> {
    if s.len() >= 4 {
        Ok((signed32(u32_le(s)) as i32, s.skip(4)))
    } else {
        Err(DecodeError::UnexpectedEnd)
    }
}

/// `count` little-endian 32 bit numbers from the front of `s`.
pub open spec fn spec_u32s(s: Seq<u8>, count: int) -> Seq<u32> {
    Seq::new(count as nat, |i: int| u32_le(s.skip(4 * i)) as u32)
}

/// The text that the Windows-1252 decoder of the `encoding` crate makes of `bytes` in strict
/// mode, `None` where it rejects them.
pub uninterp spec fn windows_1252(bytes: Seq<u8>) -> Option<Seq<char>>;

/// A text field of `n` bytes.
pub open spec fn spec_fixed_string(s: Seq<u8>, n: nat) -> Parsed<Seq<char>> {
    if s.len() < n {
        Err(DecodeError::UnexpectedEnd)
    } else {
        match windows_1252(s.take(n as int)) {
            Some(text) => Ok((text, s.skip(n as int))),
            None => Err(DecodeError::Decode),
        }
    }
}

/// A text field behind its 16 bit length.
pub open spec fn spec_string(s: Seq<u8>) -> Parsed<Seq<char>> {
    match spec_u16(s) {
        Ok((n, rest)) => spec_fixed_string(rest, n as nat),
        Err(e) => Err(e),
    }
}

/// `byteorder::LittleEndian::read_u16`: the first two bytes of `buf` as a little-endian number.
/// It panics on a shorter slice, which `requires` leaves out.
#[verifier::external_body]
fn le_read_u16(buf: &[u8]) -> (v: u16)
    requires
        buf@.len() >= 2,
    ensures
        v == u16_le(buf@),
{
    LittleEndian::read_u16(buf)
}

/// `byteorder::LittleEndian::read_i16`: the same two bytes, read as two's complement.
#[verifier::external_body]
fn le_read_i16(buf: &[u8]) -> (v: i16)
    requires
        buf@.len() >= 2,
    ensures
        v == signed16(u16_le(buf@)),
{
    LittleEndian::read_i16(buf)
}

/// `byteorder::LittleEndian::read_u32`: the first four bytes of `buf` as a little-endian number.
/// It panics on a shorter slice, which `requires` leaves out.
#[verifier::external_body]
fn le_read_u32(buf: &[u8]) -> (v: u32)
    requires
        buf@.len() >= 4,
    ensures
        v == u32_le(buf@),
{
    LittleEndian::read_u32(buf)
}

/// `byteorder::LittleEndian::read_i32`: the same four bytes, read as two's complement.
#[verifier::external_body]
fn le_read_i32(buf: &[u8]) -> (v: i32)
    requires
        buf@.len() >= 4,
    ensures
        v == signed32(u32_le(buf@)),
{
    LittleEndian::read_i32(buf)
}

/// `encoding::Encoding::decode` on `WINDOWS_1252` with `DecoderTrap::Strict`: the result is
/// named, not spelled out; the crate's error text is dropped.
#[verifier::external_body]
fn decode_windows_1252(bytes: &[u8]) -> (text: Option<String>)
    ensures
        match text {
            Some(t) => windows_1252(bytes@) == Some(t@),
            None => windows_1252(bytes@).is_none(),
        },
{
    WINDOWS_1252.decode(bytes, DecoderTrap::Strict).ok()
}

/// A cursor over bytes in memory. Reads consume from the front or fail and leave it where it was.
pub struct Reader<'a> {
    data: &'a [u8],
    pos: usize,
}

impl<'a> View for Reader<'a> {
    type V = Seq<u8>;

    /// The bytes that have not been consumed.
    closed spec fn view(&self) -> Seq<u8> {
        self.data@.skip(self.pos as int)
    }
}

impl<'a> Reader<'a> {
    #[verifier::type_invariant]
    spec fn inv(self) -> bool {
        self.pos <= self.data@.len()
    }

    /// A reader at the start of `data`.
    pub fn new(data: &'a [u8]) -> (r: Reader<'a>)
        ensures
            r@ == data@,
    {
        Reader { data, pos: 0 }
    }

    /// How many bytes are left.
    pub fn remaining(&self) -> (n: usize)
        ensures
            n == self@.len(),
    {
        proof {
            use_type_invariant(self);
        }
        self.data.len() - self.pos
    }

    /// Whether every byte has been consumed.
    pub fn is_empty(&self) -> (b: bool)
        ensures
            b == (self@.len() == 0),
    {
        self.remaining() == 0
    }

    /// The next `n` bytes, as a slice of the source.
    pub fn read_bytes(&mut self, n: usize) -> (r: Result<&'a [u8], DecodeError>)
        ensures
            decoded_view(spec_take(old(self)@, n as nat), r, final(self)@),
            r is Err ==> final(self)@ == old(self)@,
    {
        proof {
            use_type_invariant(&*self);
        }
        if self.data.len() - self.pos < n {
            return Err(DecodeError::UnexpectedEnd);
        }
        let out = slice_subrange(self.data, self.pos, self.pos + n);
        assert(out@ == old(self)@.take(n as int));
        self.pos = self.pos + n;
        assert(self@ == old(self)@.skip(n as int));
        Ok(out)
    }

    /// Passes over `n` bytes.
    pub fn skip(&mut self, n: usize) -> (r: Result<(), DecodeError>)
        ensures
            match r {
                Ok(_) => old(self)@.len() >= n && final(self)@ == old(self)@.skip(n as int),
                Err(e) => e == DecodeError::UnexpectedEnd && old(self)@.len() < n && final(self)@
                    == old(self)@,
            },
    {
        match self.read_bytes(n) {
            Ok(_) => Ok(()),
            Err(e) => Err(e),
        }
    }

    /// The next byte.
    pub fn read_byte(&mut self) -> (r: Result<u8, DecodeError>)
        ensures
            decoded(spec_u8(old(self)@), r, final(self)@),
            r is Err ==> final(self)@ == old(self)@,
    {
        proof {
            use_type_invariant(&*self);
        }
        if self.pos < self.data.len() {
            let b = self.data[self.pos];
            self.pos = self.pos + 1;
            assert(self@ == old(self)@.skip(1));
            Ok(b)
        } else {
            Err(DecodeError::UnexpectedEnd)
        }
    }

    /// An unsigned 16 bit number, least significant byte first.
    pub fn read_u16(&mut self) -> (r: Result<u16, DecodeError>)
        ensures
            decoded(spec_u16(old(self)@), r, final(self)@),
            r is Err ==> final(self)@ == old(self)@,
    {
        let buf = self.read_bytes(2)?;
        Ok(le_read_u16(buf))
    }

    /// A signed 16 bit number, least significant byte first.
    pub fn read_i16(&mut self) -> (r: Result<i16, DecodeError>)
        ensures
            decoded(spec_i16(old(self)@), r, final(self)@),
            r is Err ==> final(self)@ == old(self)@,
    {
        let buf = self.read_bytes(2)?;
        Ok(le_read_i16(buf))
    }

    /// An unsigned 32 bit number, least significant byte first.
    pub fn read_u32(&mut self) -> (r: Result<u32, DecodeError>)
        ensures
            decoded(spec_u32(old(self)@), r, final(self)@),
            r is Err ==> final(self)@ == old(self)@,
    {
        let buf = self.read_bytes(4)?;
        Ok(le_read_u32(buf))
    }

    /// A signed 32 bit number, least significant byte first.
    pub fn read_i32(&mut self) -> (r: Result<i32, DecodeError>)
        ensures
            decoded(spec_i32(old(self)@), r, final(self)@),
            r is Err ==> final(self)@ == old(self)@,
    {
        let buf = self.read_bytes(4)?;
        Ok(le_read_i32(buf))
    }

    /// A position: two 16 bit coordinates and the floor.
    pub fn read_position(&mut self) -> (r: Result<Position, DecodeError>)
        ensures
            decoded(spec_position(old(self)@), r, final(self)@),
            r is Err ==> final(self)@ == old(self)@,
    {
        Position::deserialize(self)
    }

    /// A text field of `length` bytes in the legacy codepage.
    pub fn read_fixed_string(&mut self, length: usize) -> (r: Result<String, DecodeError>)
        ensures
            decoded_view(spec_fixed_string(old(self)@, length as nat), r, final(self)@),
            r is Err ==> final(self)@ == old(self)@,
    {
        proof {
            use_type_invariant(&*self);
        }
        if self.data.len() - self.pos < length {
            return Err(DecodeError::UnexpectedEnd);
        }
        let buf = slice_subrange(self.data, self.pos, self.pos + length);
        assert(buf@ == old(self)@.take(length as int));
        match decode_windows_1252(buf) {
            Some(text) => {
                self.pos = self.pos + length;
                assert(self@ == old(self)@.skip(length as int));
                Ok(text)
            },
            None => Err(DecodeError::Decode),
        }
    }

    /// A text field behind its 16 bit length.
    pub fn read_string(&mut self) -> (r: Result<String, DecodeError>)
        ensures
            decoded_view(spec_string(old(self)@), r, final(self)@),
            r is Err ==> final(self)@ == old(self)@,
    {
        proof {
            use_type_invariant(&*self);
        }
        let left = self.data.len() - self.pos;
        if left < 2 {
            return Err(DecodeError::UnexpectedEnd);
        }
        let prefix = slice_subrange(self.data, self.pos, self.pos + 2);
        let length = le_read_u16(prefix) as usize;
        if left - 2 < length {
            return Err(DecodeError::UnexpectedEnd);
        }
        let buf = slice_subrange(self.data, self.pos + 2, self.pos + 2 + length);
        assert(buf@ == old(self)@.skip(2).take(length as int));
        match decode_windows_1252(buf) {
            Some(text) => {
                self.pos = self.pos + 2 + length;
                assert(self@ == old(self)@.skip(2).skip(length as int));
                Ok(text)
            },
            None => Err(DecodeError::Decode),
        }
    }
}

} // verus!
