//! The video module of the processor: a buffer of character cells, each
//! holding the code of a *pixelmap* and its colour.
use vstd::prelude::*;

use crate::text::{decimal, decimal_string};

verus! {

/// Number of character cells of the screen (40 columns by 30 lines).
pub const VIDEO_BUFFER_LENGHT: usize = 1200;

/// Colours that a character can be drawn with.
#[derive(Debug, Clone, Copy, PartialEq, Eq, Structural)]
pub enum Color {
    Black,
    White,
    Red,
    Green,
    Blue,
    Brown,
    Olive,
    Navy,
    Purple,
    Teal,
    Silver,
    Gray,
    Lime,
    Yellow,
    Fuchsia,
    Aqua,
}

/// The colour with code `n`, as given in the documentation of `OUTCHAR`
/// (the high byte of the character word).
pub open spec fn color_of_code(n: usize) -> Option<Color> {
    if n == 0 { Some(Color::White) }
    else if n == 1 { Some(Color::Brown) }
    else if n == 2 { Some(Color::Green) }
    else if n == 3 { Some(Color::Olive) }
    else if n == 4 { Some(Color::Navy) }
    else if n == 5 { Some(Color::Purple) }
    else if n == 6 { Some(Color::Teal) }
    else if n == 7 { Some(Color::Silver) }
    else if n == 8 { Some(Color::Gray) }
    else if n == 9 { Some(Color::Red) }
    else if n == 10 { Some(Color::Lime) }
    else if n == 11 { Some(Color::Yellow) }
    else if n == 12 { Some(Color::Blue) }
    else if n == 13 { Some(Color::Fuchsia) }
    else if n == 14 { Some(Color::Aqua) }
    else if n == 15 { Some(Color::Black) }
    else { None }
}

impl Color {
    /// The colour with code `n`, or `None` when `n` names no colour.
    pub fn color(n: usize) -> (c: Option<Self>)
        ensures
            c == color_of_code(n),
    {
        match n {
            0 => Some(Self::White),
            1 => Some(Self::Brown),
            2 => Some(Self::Green),
            3 => Some(Self::Olive),
            4 => Some(Self::Navy),
            5 => Some(Self::Purple),
            6 => Some(Self::Teal),
            7 => Some(Self::Silver),
            8 => Some(Self::Gray),
            9 => Some(Self::Red),
            10 => Some(Self::Lime),
            11 => Some(Self::Yellow),
            12 => Some(Self::Blue),
            13 => Some(Self::Fuchsia),
            14 => Some(Self::Aqua),
            15 => Some(Self::Black),
            _ => None,
        }
    }
}

/// Code of a character's *pixelmap* and its colour.
pub type Pixelmap = (u8, Color);

/// Errors of the video module.
#[derive(Clone, Copy, Debug, PartialEq, Eq, Structural)]
pub enum VideoError {
    InvalidColor(usize),
    InvalidMap(usize),
    InvalidIndex(usize),
}

/// Video module: the screen as a buffer of character cells.
pub struct VideoModule {
    /// Width of the screen, in cells.
    width: u16,
    /// Height of the screen, in cells.
    height: u16,
    /// The *pixelmap* code and colour of each cell.
    buffer: Vec<Pixelmap>,
    updated: bool,
}

/// The state of a [`VideoModule`].
pub struct VideoModuleView {
    pub width: u16,
    pub height: u16,
    pub buffer: Seq<Pixelmap>,
    pub updated: bool,
}

impl View for VideoModule {
    type V = VideoModuleView;

    closed spec fn view(&self) -> VideoModuleView {
        VideoModuleView {
            width: self.width,
            height: self.height,
            buffer: self.buffer@,
            updated: self.updated,
        }
    }
}

impl VideoModule {
    /// Creates a video module of `width` by `height` cells, every cell holding
    /// *pixelmap* 0 in [`Color::Black`]. The number of cells must fit in 16 bits.
    pub fn new(width: u16, height: u16) -> (v: Self)
        requires
            width * height <= u16::MAX,
        ensures
            v@.width == width,
            v@.height == height,
            v@.buffer == Seq::new((width * height) as nat, |i: int| (0u8, Color::Black)),
            v@.updated,
    {
        let n: u16 = width * height;
        let len: usize = n as usize;
        let mut buffer: Vec<Pixelmap> = Vec::with_capacity(len);
        let mut k: usize = 0;
        while k < len
            invariant
                k <= len,
                len == width * height,
                buffer@ == Seq::new(k as nat, |i: int| (0u8, Color::Black)),
            decreases len - k,
        {
            buffer.push((0, Color::Black));
            k += 1;
            assert(buffer@ =~= Seq::new(k as nat, |i: int| (0u8, Color::Black)));
        }
        Self { width, height, buffer, updated: true }
    }

    /// Number of cells of the buffer.
    pub fn buffer_len(&self) -> (n: usize)
        ensures
            n == self@.buffer.len(),
    {
        self.buffer.len()
    }

    /// Width of the screen, in cells.
    pub fn width(&self) -> (w: u16)
        ensures
            w == self@.width,
    {
        self.width
    }

    /// Height of the screen, in cells.
    pub fn height(&self) -> (h: u16)
        ensures
            h == self@.height,
    {
        self.height
    }

    /// Whether the buffer changed since the module was created.
    pub fn updated(&self) -> (u: bool)
        ensures
            u == self@.updated,
    {
        self.updated
    }

    /// The *pixelmap* of cell `index`, or `None` when there is no such cell.
    pub fn pixelmap(&self, index: usize) -> (p: Option<&Pixelmap>)
        ensures
            index < self@.buffer.len() ==> p == Some(&self@.buffer[index as int]),
            index >= self@.buffer.len() ==> p is None,
    {
        if index < self.buffer.len() {
            Some(&self.buffer[index])
        } else {
            None
        }
    }

    /// Stores `pixelmap` in cell `index` and marks the module updated.
    ///
    /// # Errors
    ///
    /// [`VideoError::InvalidIndex`] when there is no cell `index`; nothing changes then.
    pub fn set_pixelmap(&mut self, index: usize, pixelmap: Pixelmap) -> (r: Result<(), VideoError>)
        ensures
            index < old(self)@.buffer.len() ==> {
                &&& r == Ok::<(), VideoError>(())
                &&& final(self)@.buffer == old(self)@.buffer.update(index as int, pixelmap)
                &&& final(self)@.updated
                &&& final(self)@.width == old(self)@.width
                &&& final(self)@.height == old(self)@.height
            },
            index >= old(self)@.buffer.len() ==> {
                &&& r == Err::<(), VideoError>(VideoError::InvalidIndex(index))
                &&& final(self)@ == old(self)@
            },
    {
        if index < self.buffer.len() {
            self.updated = true;
            self.buffer.set(index, pixelmap);
            Ok(())
        } else {
            Err(VideoError::InvalidIndex(index))
        }
    }
}

impl VideoError {
    /// The message of the error, as it is displayed.
    pub fn to_string(&self) -> (s: String)
        ensures
            s@ == (match *self {
                VideoError::InvalidColor(c) => "Cor inválida: "@ + decimal(c as nat),
                VideoError::InvalidMap(c) => "Pixelmap inválido: "@ + decimal(c as nat),
                VideoError::InvalidIndex(i) => "Índice inválido: "@ + decimal(i as nat),
            }),
    {
        let (prefix, n): (&str, usize) = match self {
            VideoError::InvalidColor(c) => ("Cor inválida: ", *c),
            VideoError::InvalidMap(c) => ("Pixelmap inválido: ", *c),
            VideoError::InvalidIndex(i) => ("Índice inválido: ", *i),
        };
        let mut s = String::from_str(prefix);
        let d = decimal_string(n);
        s.append(d.as_str());
        s
    }
}

} // verus!
