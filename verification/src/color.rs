//! Colours and frames: a frame is one colour per light, in light order.

use vstd::prelude::*;

verus! {

/// An 8-bit RGB colour.
#[derive(Clone, Copy, Debug, PartialEq, Eq, Structural)]
pub struct Color {
    pub r: u8,
    pub g: u8,
    pub b: u8,
}

impl Color {
    pub fn rgb(r: u8, g: u8, b: u8) -> (c: Color)
        ensures
            c == (Color { r, g, b }),
    {
        Color { r, g, b }
    }

    pub fn black() -> (c: Color)
        ensures
            c == (Color { r: 0, g: 0, b: 0 }),
    {
        Color { r: 0, g: 0, b: 0 }
    }

    pub fn white() -> (c: Color)
        ensures
            c == (Color { r: 255, g: 255, b: 255 }),
    {
        Color { r: 255, g: 255, b: 255 }
    }

    pub fn gray(level: u8) -> (c: Color)
        ensures
            c == (Color { r: level, g: level, b: level }),
    {
        Color { r: level, g: level, b: level }
    }
}

/// The black colour as a spec value.
pub open spec fn black() -> Color {
    Color { r: 0, g: 0, b: 0 }
}

/// The white colour as a spec value.
pub open spec fn white() -> Color {
    Color { r: 255, g: 255, b: 255 }
}

/// One colour per light.
pub struct Frame {
    pub pixels: Vec<Color>,
}

impl View for Frame {
    type V = Seq<Color>;

    open spec fn view(&self) -> Seq<Color> {
        self.pixels@
    }
}

impl Frame {
    /// A frame of `len` lights, all of colour `color`.
    pub fn new(len: usize, color: Color) -> (f: Frame)
        ensures
            f@ == Seq::new(len as nat, |_i: int| color),
    {
        let mut pixels: Vec<Color> = Vec::new();
        let mut i: usize = 0;
        while i < len
            invariant
                i <= len,
                pixels@ == Seq::new(i as nat, |_i: int| color),
            decreases len - i,
        {
            pixels.push(color);
            i = i + 1;
        }
        Frame { pixels }
    }

    /// A frame of `len` lights, all off.
    pub fn new_black(len: usize) -> (f: Frame)
        ensures
            f@ == Seq::new(len as nat, |_i: int| black()),
    {
        Frame::new(len, Color::black())
    }

    /// The same frame with light `index` set to `color`; a frame with no
    /// light at `index` is returned unchanged.
    pub fn with_pixel(self, index: usize, color: Color) -> (f: Frame)
        ensures
            index < self@.len() ==> f@ == self@.update(index as int, color),
            index >= self@.len() ==> f@ == self@,
    {
        let mut pixels = self.pixels;
        if index < pixels.len() {
            pixels.set(index, color);
        }
        Frame { pixels }
    }

    pub fn len(&self) -> (n: usize)
        ensures
            n == self@.len(),
    {
        self.pixels.len()
    }
}

} // verus!
