//! The loading buffer of the sprite atlas: a sprite of 32 by 32 pixels inside a frame of one
//! pixel, which repeats the edge of the sprite so that sampling between pixels stays inside it.

use vstd::prelude::*;

verus! {

/// The pixels of a row of the buffer.
pub const SIDE: usize = 34;

/// The bytes of the buffer.
pub const BUFFER: usize = 4624;

/// Where the byte `channel` of the pixel at column `x` and row `y` lies.
pub open spec fn at(x: int, y: int, channel: int) -> int {
    y * 136 + x * 4 + channel
}

/// The nearest coordinate inside the sprite.
pub open spec fn inside(v: int) -> int {
    if v < 1 {
        1
    } else if v > 32 {
        32
    } else {
        v
    }
}

/// Copies the pixel at column `fx`, row `fy` to column `tx`, row `ty`.
pub fn copy_pixel(buf: &mut [u8], tx: usize, ty: usize, fx: usize, fy: usize)
    requires
        old(buf)@.len() == BUFFER,
        tx < SIDE,
        ty < SIDE,
        fx < SIDE,
        fy < SIDE,
    ensures
        final(buf)@.len() == BUFFER,
        forall|k: int|
            0 <= k < BUFFER ==> (#[trigger] final(buf)@[k]) == (if at(tx as int, ty as int, 0) <= k
                < at(tx as int, ty as int, 4) {
                old(buf)@[k - at(tx as int, ty as int, 0) + at(fx as int, fy as int, 0)]
            } else {
                old(buf)@[k]
            }),
{
    let to = ty * 34 * 4 + tx * 4;
    let from = fy * 34 * 4 + fx * 4;
    let mut i: usize = 0;
    while i < 4
        invariant
            i <= 4,
            buf@.len() == BUFFER,
            to == at(tx as int, ty as int, 0),
            from == at(fx as int, fy as int, 0),
            to + 4 <= BUFFER,
            from + 4 <= BUFFER,
            to == from || to + 4 <= from || from + 4 <= to,
            forall|k: int|
                0 <= k < BUFFER ==> (#[trigger] buf@[k]) == (if to <= k < to + i {
                    old(buf)@[k - to + from]
                } else {
                    old(buf)@[k]
                }),
        decreases 4 - i,
    {
        let byte = buf[from + i];
        buf[to + i] = byte;
        i = i + 1;
    }
}

/// Fills the frame: every pixel of the frame takes the colour of the nearest pixel of the
/// sprite.
pub fn copy_borders(buf: &mut [u8])
    requires
        old(buf)@.len() == BUFFER,
    ensures
        final(buf)@.len() == BUFFER,
        forall|x: int, y: int, c: int|
            0 <= x < 34 && 0 <= y < 34 && 0 <= c < 4 ==> (#[trigger] final(buf)@[at(x, y, c)])
                == old(buf)@[at(inside(x), inside(y), c)],
{
    // top and bottom rows
    let mut k: usize = 0;
    while k < 136
        invariant
            k <= 136,
            buf@.len() == BUFFER,
            forall|j: int|
                0 <= j < BUFFER ==> (#[trigger] buf@[j]) == (if j < k {
                    old(buf)@[j + 136]
                } else if 33 * 136 <= j < 33 * 136 + k {
                    old(buf)@[j - 136]
                } else {
                    old(buf)@[j]
                }),
        decreases 136 - k,
    {
        let top = buf[136 + k];
        buf[k] = top;
        let bottom = buf[32 * 136 + k];
        buf[33 * 136 + k] = bottom;
        k = k + 1;
    }
    let ghost rows = buf@;
    // left and right columns
    let mut i: usize = 0;
    while i < 34
        invariant
            i <= 34,
            buf@.len() == BUFFER,
            forall|x: int, y: int, c: int|
                0 <= x < 34 && 0 <= y < 34 && 0 <= c < 4 ==> (#[trigger] buf@[at(x, y, c)]) == (
                if y < i {
                    rows[at(inside(x), y, c)]
                } else {
                    rows[at(x, y, c)]
                }),
        decreases 34 - i,
    {
        copy_pixel(buf, 0, i, 1, i);
        copy_pixel(buf, 33, i, 32, i);
        i = i + 1;
    }
}

} // verus!
