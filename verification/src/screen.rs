//! Which pixels of the simulator's screen a buffer of characters lights:
//! each character is an 8 by 8 *pixelmap* of the charmap, drawn in a grid
//! of 40 characters per line.
use vstd::prelude::*;

use crate::peripherals::Color;

verus! {

/// Pixels per side of a character.
pub const CHAR_SIZE_PIXELS: usize = 8;

/// Entries of the charmap per side of a character.
pub const CHARMAP_DEPTH: usize = 8;

/// Characters per line of the screen.
pub const SCREEN_COLUMNS: usize = 40;

/// A lit pixel: its column and line on the screen, in pixels, and its colour.
pub type Pixel = (usize, usize, Color);

/// The pixels lit by the entries `k..64` of the pixelmap that starts at
/// `base` in `charmap`, for the character in cell `cell`: entry `k` is lit
/// when it holds `1`, at column `8 * (cell % 40) + k % 8` and line
/// `8 * (cell / 40) + k / 8`.
pub open spec fn cell_pixels(charmap: Seq<u8>, base: nat, cell: nat, color: Color, k: nat) -> Seq<
    Pixel,
>
    decreases 64 - k,
{
    if k >= 64 {
        Seq::empty()
    } else {
        let rest = cell_pixels(charmap, base, cell, color, k + 1);
        if charmap[(base + k) as int] == 1 {
            seq![
                (
                    (8 * (cell % 40) + k % 8) as usize,
                    (8 * (cell / 40) + k / 8) as usize,
                    color,
                ),
            ] + rest
        } else {
            rest
        }
    }
}

/// The pixels lit by the first `n` cells of `buf`, cell after cell.
pub open spec fn buffer_pixels(buf: Seq<(u8, Color)>, charmap: Seq<u8>, n: nat) -> Seq<Pixel>
    decreases n,
{
    if n == 0 {
        Seq::empty()
    } else {
        let c = buf[n - 1];
        buffer_pixels(buf, charmap, (n - 1) as nat) + cell_pixels(
            charmap,
            (c.0 as nat) * 64,
            (n - 1) as nat,
            c.1,
            0,
        )
    }
}

/// Every character of `buf` has its whole pixelmap in `charmap`; drawing
/// a character whose pixelmap runs past its end is not defined.
pub open spec fn charmap_covers(buf: Seq<(u8, Color)>, charmap: Seq<u8>) -> bool {
    forall|i: int| 0 <= i < buf.len() ==> (#[trigger] buf[i]).0 as int * 64 + 64 <= charmap.len()
}

/// The pixels that drawing `buf` with `charmap` lights, in drawing order
/// (see [`buffer_pixels`]).
pub fn lit_pixels(buf: &[(u8, Color)], charmap: &[u8]) -> (px: Vec<Pixel>)
    requires
        charmap_covers(buf@, charmap@),
    ensures
        px@ == buffer_pixels(buf@, charmap@, buf@.len()),
{
    let mut px: Vec<Pixel> = Vec::new();
    let mut i: usize = 0;
    while i < buf.len()
        invariant
            i <= buf@.len(),
            charmap_covers(buf@, charmap@),
            px@ == buffer_pixels(buf@, charmap@, i as nat),
        decreases buf.len() - i,
    {
        let (ch, color) = buf[i];
        assert(buf@[i as int].0 as int * 64 + 64 <= charmap@.len());
        let base: usize = (ch as usize) * 64;
        let ghost before = px@;
        let mut k: usize = 64;
        let mut tail: Vec<Pixel> = Vec::new();
        while k > 0
            invariant
                k <= 64,
                base + 64 <= charmap@.len(),
                base == (ch as nat) * 64,
                i < buf@.len(),
                tail@ == cell_pixels(charmap@, base as nat, i as nat, color, k as nat),
            decreases k,
        {
            k -= 1;
            if charmap[base + k] == 1 {
                let p: Pixel = (8 * (i % 40) + k % 8, 8 * (i / 40) + k / 8, color);
                let mut one: Vec<Pixel> = Vec::new();
                one.push(p);
                one.append(&mut tail);
                tail = one;
            }
        }
        px.append(&mut tail);
        i += 1;
    }
    px
}

} // verus!
