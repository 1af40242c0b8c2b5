//! The sprite container: a directory of offsets, and behind each offset a run-length encoded
//! image of 32 by 32 pixels.

use crate::helpers::{spec_u32s, u16_le, u32_le, DecodeError, Parsed, Reader};
use vstd::prelude::*;
use vstd::slice::slice_subrange;

verus! {

/// The pixels of a row of a sprite.
pub const ROW: u64 = 32;

/// The sprite file and its directory. Sprite `id` lies at `offsets[id - 1]`.
pub struct SpriteContainer<'a> {
    pub f: &'a [u8],
    pub signature: u32,
    pub num_sprites: u32,
    pub offsets: Vec<u32>,
}

/// What the head of a sprite file says.
pub struct Directory {
    pub signature: u32,
    pub num_sprites: u32,
    pub offsets: Seq<u32>,
}

/// The head of the sprite file: a signature, the number of sprites, and one offset for each.
pub open spec fn spec_directory(s: Seq<u8>) -> Result<Directory, DecodeError> {
    if s.len() < 8 {
        Err(DecodeError::UnexpectedEnd)
    } else if s.len() < 8 + 4 * u32_le(s.skip(4)) {
        Err(DecodeError::UnexpectedEnd)
    } else {
        Ok(
            Directory {
                signature: u32_le(s) as u32,
                num_sprites: u32_le(s.skip(4)) as u32,
                offsets: spec_u32s(s.skip(8), u32_le(s.skip(4))),
            },
        )
    }
}

/// Where pixel `i` of a sprite begins in a buffer whose rows are `stride` bytes apart.
pub open spec fn pixel_offset(i: int, stride: int) -> int {
    (i / 32) * stride + (i % 32) * 4
}

/// `n` opaque pixels from pixel `i` on: three colour bytes each from `s`, and a fourth byte of
/// 255. A pixel that does not fit into `out` is an error.
pub open spec fn spec_pixels(s: Seq<u8>, n: int, i: int, out: Seq<u8>, stride: int) -> Parsed<
    Seq<u8>,
>
    decreases n,
{
    if n <= 0 {
        Ok((out, s))
    } else {
        let p = pixel_offset(i, stride);
        if p + 4 > out.len() {
            Err(DecodeError::MalformedStream)
        } else if s.len() < 3 {
            Err(DecodeError::UnexpectedEnd)
        } else {
            spec_pixels(
                s.skip(3),
                n - 1,
                i + 1,
                out.update(p, s[0]).update(p + 1, s[1]).update(p + 2, s[2]).update(p + 3, 255),
                stride,
            )
        }
    }
}

/// The runs of a sprite while `budget` bytes of it are left. A run is a count of transparent
/// pixels, which are passed over, and a count of opaque pixels, which follow it; it costs four
/// bytes and three for each opaque pixel. The budget must end at exactly zero.
pub open spec fn spec_runs(s: Seq<u8>, budget: int, i: int, out: Seq<u8>, stride: int) -> Result<
    Seq<u8>,
    DecodeError,
>
    decreases budget,
{
    if budget <= 0 {
        Ok(out)
    } else if budget < 4 {
        Err(DecodeError::MalformedStream)
    } else if s.len() < 4 {
        Err(DecodeError::UnexpectedEnd)
    } else if 4 + 3 * u16_le(s.skip(2)) > budget {
        Err(DecodeError::MalformedStream)
    } else {
        match spec_pixels(s.skip(4), u16_le(s.skip(2)), i + u16_le(s), out, stride) {
            Err(e) => Err(e),
            Ok((out2, rest)) => spec_runs(
                rest,
                budget - 4 - 3 * u16_le(s.skip(2)),
                i + u16_le(s) + u16_le(s.skip(2)),
                out2,
                stride,
            ),
        }
    }
}

/// The sprite at `offset` of `file`, drawn over `out`: a colour key of three bytes, which is
/// passed over, the budget, and the runs.
pub open spec fn spec_sprite(file: Seq<u8>, offset: int, out: Seq<u8>, stride: int) -> Result<
    Seq<u8>,
    DecodeError,
> {
    if file.len() < offset + 5 {
        Err(DecodeError::UnexpectedEnd)
    } else {
        spec_runs(file.skip(offset + 5), u16_le(file.skip(offset + 3)), 0, out, stride)
    }
}

/// A sprite of one opaque pixel and a budget of 7 draws that pixel with full alpha at the
/// start of the buffer and ends. With any budget between 8 and 10 the same run leaves a rest
/// that no run fits into, and the sprite is malformed.
pub proof fn lemma_one_pixel(colour: (u8, u8, u8), tail: Seq<u8>, out: Seq<u8>, stride: int)
    requires
        out.len() >= 4,
    ensures
        ({
            let runs = seq![0u8, 0, 1, 0, colour.0, colour.1, colour.2] + tail;
            let drawn = out.update(0, colour.0).update(1, colour.1).update(2, colour.2).update(
                3,
                255,
            );
            &&& spec_runs(runs, 7, 0, out, stride) == Ok::<Seq<u8>, DecodeError>(drawn)
            &&& forall|budget: int|
                8 <= budget <= 10 ==> #[trigger] spec_runs(runs, budget, 0, out, stride) == Err::<
                    Seq<u8>,
                    DecodeError,
                >(DecodeError::MalformedStream)
        }),
{
    let runs = seq![0u8, 0, 1, 0, colour.0, colour.1, colour.2] + tail;
    let drawn = out.update(0, colour.0).update(1, colour.1).update(2, colour.2).update(3, 255);
    let pixels = runs.skip(4);
    assert(pixels.skip(3) =~= tail);
    assert(spec_pixels(tail, 0, 1, drawn, stride) == Ok::<(Seq<u8>, Seq<u8>), DecodeError>(
        (drawn, tail),
    ));
    assert(spec_runs(tail, 0, 1, drawn, stride) == Ok::<Seq<u8>, DecodeError>(drawn));
    assert forall|budget: int| 8 <= budget <= 10 implies #[trigger] spec_runs(
        runs,
        budget,
        0,
        out,
        stride,
    ) == Err::<Seq<u8>, DecodeError>(DecodeError::MalformedStream) by {
        assert(spec_runs(tail, budget - 7, 1, drawn, stride) == Err::<Seq<u8>, DecodeError>(
            DecodeError::MalformedStream,
        ));
    }
}

/// Writes `n` opaque pixels from pixel `i` on.
fn copy_pixels(r: &mut Reader, n: u16, i: u64, output: &mut [u8], stride: usize) -> (res: Result<
    (),
    DecodeError,
>)
    requires
        stride >= 128,
        i <= 0x4000_0000,
    ensures
        match spec_pixels(old(r)@, n as int, i as int, old(output)@, stride as int) {
            Ok((out, rest)) => res is Ok && final(output)@ == out && final(r)@ == rest,
            Err(e) => res == Err::<(), DecodeError>(e),
        },
{
    let ghost goal = spec_pixels(r@, n as int, i as int, output@, stride as int);
    let mut done: u16 = 0;
    while done < n
        invariant
            done <= n,
            stride >= 128,
            i <= 0x4000_0000,
            spec_pixels(r@, n - done, i + done, output@, stride as int) == goal,
            goal == spec_pixels(old(r)@, n as int, i as int, old(output)@, stride as int),
        decreases n - done,
    {
        let at = i + done as u64;
        let row = at / ROW;
        let column = at % ROW;
        let len = output.len();
        if row > (len / stride) as u64 {
            assert(pixel_offset(at as int, stride as int) + 4 > len) by (nonlinear_arith)
                requires
                    row == at / 32,
                    row > len / stride,
                    stride >= 128,
                    at >= 0,
            ;
            return Err(DecodeError::MalformedStream);
        }
        assert(row * stride <= len) by (nonlinear_arith)
            requires
                row <= len / stride,
                stride >= 128,
                row >= 0,
        ;
        let base = (row as usize) * stride;
        let within = (column as usize) * 4;
        if len - base < within + 4 {
            return Err(DecodeError::MalformedStream);
        }
        let p = base + within;
        let colour = r.read_bytes(3)?;
        output[p] = colour[0];
        output[p + 1] = colour[1];
        output[p + 2] = colour[2];
        output[p + 3] = 255;
        done = done + 1;
    }
    Ok(())
}

impl<'a> SpriteContainer<'a> {
    /// Reads the directory of a sprite file.
    pub fn new(f: &'a [u8]) -> (res: Result<SpriteContainer<'a>, DecodeError>)
        ensures
            match spec_directory(f@) {
                Ok(directory) => res matches Ok(c) && c.f@ == f@ && c.signature
                    == directory.signature && c.num_sprites == directory.num_sprites
                    && c.offsets@ == directory.offsets,
                Err(e) => res matches Err(g) && g == e,
            },
    {
        let mut r = Reader::new(f);
        let signature = r.read_u32()?;
        let num_sprites = r.read_u32()?;
        let ghost table = f@.skip(8);
        if num_sprites as usize > r.remaining() / 4 {
            return Err(DecodeError::UnexpectedEnd);
        }
        let mut offsets: Vec<u32> = Vec::new();
        let mut i: u32 = 0;
        while i < num_sprites
            invariant
                i <= num_sprites,
                4 * num_sprites <= table.len(),
                r@ == table.skip(4 * i),
                offsets@ == spec_u32s(table, i as int),
            decreases num_sprites - i,
        {
            let offset = r.read_u32()?;
            offsets.push(offset);
            i = i + 1;
        }
        Ok(SpriteContainer { f, signature, num_sprites, offsets })
    }

    /// Draws sprite `idx` into `output`, whose rows are `output_stride` bytes apart. Pixels
    /// that the sprite leaves transparent are not touched.
    pub fn get_sprite(&self, idx: u32, output: &mut [u8], output_stride: usize) -> (res: Result<
        (),
        DecodeError,
    >)
        requires
            1 <= idx <= self.offsets@.len(),
            output_stride >= 128,
        ensures
            match spec_sprite(
                self.f@,
                self.offsets@[idx - 1] as int,
                old(output)@,
                output_stride as int,
            ) {
                Ok(out) => res is Ok && final(output)@ == out,
                Err(e) => res == Err::<(), DecodeError>(e),
            },
    {
        let offset = self.offsets[idx as usize - 1] as usize;
        if offset > self.f.len() || self.f.len() - offset < 5 {
            return Err(DecodeError::UnexpectedEnd);
        }
        let mut r = Reader::new(slice_subrange(self.f, offset, self.f.len()));
        let _colour_key = r.read_bytes(3)?;
        let mut size = r.read_u16()?;
        assert(r@ == self.f@.skip(offset + 5));
        let ghost budget = size;
        let mut i: u64 = 0;
        let ghost goal = spec_runs(r@, size as int, 0, output@, output_stride as int);
        while size > 0
            invariant
                output_stride >= 128,
                size <= budget,
                i <= 16384 * (budget - size),
                spec_runs(r@, size as int, i as int, output@, output_stride as int) == goal,
                goal == spec_sprite(
                    self.f@,
                    self.offsets@[idx - 1] as int,
                    old(output)@,
                    output_stride as int,
                ),
            decreases size,
        {
            if size < 4 {
                return Err(DecodeError::MalformedStream);
            }
            let ghost s = r@;
            let transparent = r.read_u16()?;
            let pixels = r.read_u16()?;
            assert(r@ == s.skip(4));
            let cost: u32 = 4 + 3 * (pixels as u32);
            if cost > size as u32 {
                return Err(DecodeError::MalformedStream);
            }
            i = i + transparent as u64;
            copy_pixels(&mut r, pixels, i, output, output_stride)?;
            i = i + pixels as u64;
            size = size - cost as u16;
        }
        Ok(())
    }
}

} // verus!
