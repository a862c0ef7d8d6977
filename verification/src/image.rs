//! An 8x8 image of RGB pixels for an LED matrix: constructors, row access,
//! a gradient pattern, and the framing decision of the byte-stream image
//! receiver.

use vstd::prelude::*;
use vstd::pervasive::VecAdditionalExecFns;

use crate::gamma::{gamma_correct, gamma_of};

verus! {

/// An RGB color with 8-bit channels.
#[derive(Copy, Clone, Debug, PartialEq, Eq, Structural)]
pub struct Color {
    pub r: u8,
    pub g: u8,
    pub b: u8,
}

impl Color {
    /// Apply gamma correction to each channel.
    pub fn gamma_correct(&self) -> (c: Color)
        ensures
            c.r == gamma_of(self.r),
            c.g == gamma_of(self.g),
            c.b == gamma_of(self.b),
    {
        Color { r: gamma_correct(self.r), g: gamma_correct(self.g), b: gamma_correct(self.b) }
    }
}

impl Default for Color {
    /// The default color is black.
    fn default() -> (c: Color)
        ensures
            c == (Color { r: 0, g: 0, b: 0 }),
    {
        Color { r: 0, g: 0, b: 0 }
    }
}

/// One channel value scaled down by the integer factor `f`, rounded to the
/// nearest integer (halves away from zero): the effect of dividing a color
/// by `f`.
pub open spec fn channel_div(c: u8, f: int) -> u8 {
    ((2 * c + f) / (2 * f)) as u8
}

/// The pixel of the gradient pattern at row `r` and column `c`: the base
/// color divided by `1 + r * r + c`.
pub open spec fn gradient_pixel(color: Color, r: int, c: int) -> Color {
    let f = 1 + r * r + c;
    Color { r: channel_div(color.r, f), g: channel_div(color.g, f), b: channel_div(color.b, f) }
}

/// An 8x8 image, stored row-major: the pixel at row `r` and column `c` is
/// element `r * 8 + c` of the view.
pub struct Image {
    pixels: Vec<Color>,
}

impl View for Image {
    type V = Seq<Color>;

    closed spec fn view(&self) -> Seq<Color> {
        self.pixels@
    }
}

impl Image {
    /// An image always holds exactly its 64 pixels.
    pub open spec fn wf(&self) -> bool {
        self@.len() == 64
    }

    /// Create an image from a raw 8x8 buffer.
    pub fn new_im(buffer: [Color; 64]) -> (im: Image)
        ensures
            im.wf(),
            im@ == buffer@,
    {
        let mut pixels: Vec<Color> = Vec::new();
        let mut i: usize = 0;
        while i < 64
            invariant
                i <= 64,
                pixels@ == buffer@.take(i as int),
            decreases 64 - i,
        {
            pixels.push(buffer[i]);
            proof {
                assert(pixels@ =~= buffer@.take(i + 1));
            }
            i = i + 1;
        }
        proof {
            assert(buffer@.take(64) =~= buffer@);
        }
        Image { pixels }
    }

    /// Create a solid-color image.
    pub fn new_solid(color: Color) -> (im: Image)
        ensures
            im.wf(),
            forall|i: int| 0 <= i < 64 ==> im@[i] == color,
    {
        let mut pixels: Vec<Color> = Vec::new();
        let mut i: usize = 0;
        while i < 64
            invariant
                i <= 64,
                pixels@.len() == i,
                forall|j: int| 0 <= j < i ==> pixels@[j] == color,
            decreases 64 - i,
        {
            pixels.push(color);
            i = i + 1;
        }
        Image { pixels }
    }

    /// Borrow one row (0 to 7) as a slice of its 8 pixels.
    pub fn row(&self, row: usize) -> (r: &[Color])
        requires
            self.wf(),
            row <= 7,
        ensures
            r@ == self@.subrange(row * 8, row * 8 + 8),
            r@.len() == 8,
    {
        &self.pixels.as_slice()[row * 8..row * 8 + 8]
    }

    /// The pixel at row `row` and column `col`, both 0 to 7.
    pub fn get(&self, row: usize, col: usize) -> (c: Color)
        requires
            self.wf(),
            row <= 7,
            col <= 7,
        ensures
            c == self@[row * 8 + col],
    {
        self.pixels[row * 8 + col]
    }

    /// Replace the pixel at row `row` and column `col`, both 0 to 7.
    pub fn set(&mut self, row: usize, col: usize, color: Color)
        requires
            old(self).wf(),
            row <= 7,
            col <= 7,
        ensures
            final(self).wf(),
            final(self)@ == old(self)@.update(row * 8 + col, color),
    {
        self.pixels.set(row * 8 + col, color);
    }

    /// The gradient pattern: the base color scaled down by `1 + row * row +
    /// col` at each position.
    pub fn gradient(color: Color) -> (im: Image)
        ensures
            im.wf(),
            forall|r: int, c: int| 0 <= r < 8 && 0 <= c < 8 ==>
                im@[r * 8 + c] == gradient_pixel(color, r, c),
    {
        let mut im: Image = Image::default();
        let mut row: usize = 0;
        while row < 8
            invariant
                im.wf(),
                row <= 8,
                forall|r: int, c: int| 0 <= r < row && 0 <= c < 8 ==>
                    im@[r * 8 + c] == gradient_pixel(color, r, c),
            decreases 8 - row,
        {
            let mut col: usize = 0;
            while col < 8
                invariant
                    im.wf(),
                    row < 8,
                    col <= 8,
                    forall|r: int, c: int| 0 <= r < row && 0 <= c < 8 ==>
                        im@[r * 8 + c] == gradient_pixel(color, r, c),
                    forall|c: int| 0 <= c < col ==>
                        im@[row * 8 + c] == gradient_pixel(color, row as int, c),
                decreases 8 - col,
            {
                assert(row * row <= 49) by (nonlinear_arith)
                    requires
                        row < 8,
                ;
                let f: u32 = 1 + (row * row + col) as u32;
                let pixel = Color {
                    r: channel_scale(color.r, f),
                    g: channel_scale(color.g, f),
                    b: channel_scale(color.b, f),
                };
                assert(pixel == gradient_pixel(color, row as int, col as int));
                im.set(row, col, pixel);
                col = col + 1;
            }
            row = row + 1;
        }
        im
    }
}

impl Default for Image {
    /// The default image is all black.
    fn default() -> (im: Image)
        ensures
            im.wf(),
            forall|i: int| 0 <= i < 64 ==> im@[i] == (Color { r: 0, g: 0, b: 0 }),
    {
        Image::new_solid(Color { r: 0, g: 0, b: 0 })
    }
}

/// One channel value scaled down by the factor `f`, rounding to nearest.
fn channel_scale(c: u8, f: u32) -> (r: u8)
    requires
        1 <= f <= 64,
    ensures
        r == channel_div(c, f as int),
{
    let y: u32 = (2 * (c as u32) + f) / (2 * f);
    assert(y <= 255) by (nonlinear_arith)
        requires
            1 <= f && c <= 255 && y == (2 * c + f) / (2 * f),
    ;
    y as u8
}

/// The framing decision of the serial image receiver: the position of the
/// first `0xFF` marker byte in `buf`, if there is one.
pub fn marker_position(buf: &[u8]) -> (r: Option<usize>)
    ensures
        r is None ==> forall|i: int| 0 <= i < buf@.len() ==> buf@[i] != 0xFF,
        r matches Some(k) ==> k < buf@.len() && buf@[k as int] == 0xFF
            && forall|i: int| 0 <= i < k ==> buf@[i] != 0xFF,
{
    let mut i: usize = 0;
    while i < buf.len()
        invariant
            i <= buf@.len(),
            forall|j: int| 0 <= j < i ==> buf@[j] != 0xFF,
        decreases buf@.len() - i,
    {
        if buf[i] == 0xFF {
            return Some(i);
        }
        i = i + 1;
    }
    None
}

} // verus!
