use crate::helpers::{decoded, spec_u16, DecodeError, Parsed, Reader};
use vstd::prelude::*;

pub mod binaryfile;
pub mod itemtypes;
pub mod map;
pub mod roundtrip;

verus! {

/// A world coordinate; `z` is the floor.
#[derive(Copy, Clone, Debug, PartialEq, Eq, Hash, Structural)]
pub struct Position {
    pub x: u16,
    pub y: u16,
    pub z: u8,
}

/// A position on the wire: `x` and `y` as 16 bit numbers, then the floor byte.
pub open spec fn spec_position(s: Seq<u8>) -> Parsed<Position> {
    if s.len() >= 5 {
        Ok(
            (
                Position { x: spec_u16(s)->Ok_0.0, y: spec_u16(s.skip(2))->Ok_0.0, z: s[4] },
                s.skip(5),
            ),
        )
    } else {
        Err(DecodeError::UnexpectedEnd)
    }
}

impl Position {
    /// Reads a position, or fails and leaves the reader where it was.
    pub fn deserialize(r: &mut Reader) -> (res: Result<Position, DecodeError>)
        ensures
            decoded(spec_position(old(r)@), res, final(r)@),
            res is Err ==> final(r)@ == old(r)@,
    {
        if r.remaining() < 5 {
            return Err(DecodeError::UnexpectedEnd);
        }
        let x = r.read_u16()?;
        let y = r.read_u16()?;
        let z = r.read_byte()?;
        assert(old(r)@.skip(2).skip(2) == old(r)@.skip(4));
        assert(old(r)@.skip(4).skip(1) == old(r)@.skip(5));
        Ok(Position { x, y, z })
    }
}

} // verus!
