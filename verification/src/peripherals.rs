//! A simple screen peripheral: a buffer of characters with their colours.
use vstd::prelude::*;

verus! {

/// Colours of the screen peripheral.
#[derive(Debug, Clone, Copy, PartialEq, Eq, Structural)]
pub enum Color {
    Black,
    White,
    Red,
    Green,
    Blue,
}

/// A screen of `width` by `height` characters.
pub struct Video {
    width: usize,
    height: usize,
    /// Character code and colour of each position, line by line.
    pub buffer: Vec<(u8, Color)>,
}

impl Video {
    /// Width of the screen, in characters.
    pub closed spec fn width_spec(&self) -> usize {
        self.width
    }

    /// Height of the screen, in characters.
    pub closed spec fn height_spec(&self) -> usize {
        self.height
    }

    /// Character code and colour of each position.
    pub closed spec fn cells(&self) -> Seq<(u8, Color)> {
        self.buffer@
    }

    /// Creates a screen of `width` by `height` positions, each holding
    /// character 0 in black.
    pub fn new(width: usize, height: usize) -> (v: Self)
        requires
            width * height <= usize::MAX,
        ensures
            v.width_spec() == width,
            v.height_spec() == height,
            v.cells() == Seq::new((width * height) as nat, |i: int| (0u8, Color::Black)),
    {
        let n: usize = width * height;
        let mut buf: Vec<(u8, Color)> = Vec::with_capacity(n);
        let mut k: usize = 0;
        while k < n
            invariant
                k <= n,
                buf@ == Seq::new(k as nat, |i: int| (0u8, Color::Black)),
            decreases n - k,
        {
            buf.push((0, Color::Black));
            k += 1;
            assert(buf@ =~= Seq::new(k as nat, |i: int| (0u8, Color::Black)));
        }
        Self { width, height, buffer: buf }
    }

    /// Writes character `ch` in colour `color` at position `pos`, which must
    /// be a position of the screen.
    pub fn set_pixel(&mut self, pos: usize, ch: u8, color: Color)
        requires
            pos < old(self).cells().len(),
        ensures
            final(self).cells() == old(self).cells().update(pos as int, (ch, color)),
            final(self).width_spec() == old(self).width_spec(),
            final(self).height_spec() == old(self).height_spec(),
    {
        self.buffer.set(pos, (ch, color));
    }
}

} // verus!
