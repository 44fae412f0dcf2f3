//! Integer raster canvas for SOL Shell surfaces, and the built-in bitmap face.
//!
//! The Shell's surfaces are composited from shared memory, so something has to
//! hold the bytes. [`Canvas`] is that buffer: premultiplied RGBA8, row-major,
//! never larger than a Shell surface may plausibly be. Colors arrive already
//! premultiplied; the token-to-byte conversion and the coverage of shapes are
//! computed by the native painter, which hands this canvas whole pixels.

use vstd::prelude::*;
use crate::text::{ascii_upper, to_ascii_upper};

verus! {

/// Bytes one canvas pixel occupies.
pub const BYTES_PER_PIXEL: usize = 4;

/// Largest canvas side a Shell surface may allocate.
///
/// A guard against a malformed configure rather than against a hostile
/// caller: a Shell that tries to allocate an absurd surface should fail the
/// frame, not the session.
pub const MAX_DIMENSION: u32 = 16384;

/// A premultiplied RGBA8 surface the Shell paints into.
#[derive(Debug, PartialEq, Eq)]
pub struct Canvas {
    width: u32,
    height: u32,
    pixels: Vec<u8>,
}

/// Offset of the first byte of pixel `(x, y)` in a canvas `width` wide.
pub open spec fn pixel_offset(width: int, x: int, y: int) -> int {
    (y * width + x) * 4
}

/// A pixel lies inside a canvas, and its four bytes inside the buffer.
proof fn lemma_pixel_in_bounds(width: int, height: int, x: int, y: int)
    requires
        0 <= x < width <= 16384,
        0 <= y < height <= 16384,
    ensures
        0 <= pixel_offset(width, x, y),
        pixel_offset(width, x, y) + 4 <= width * height * 4,
        y * width + x < 268435456,
        0 <= y * width <= 268435456,
{
    assert(width * height <= 16384 * 16384) by (nonlinear_arith)
        requires
            0 <= width <= 16384,
            0 <= height <= 16384,
    ;
    assert(y * width + x < width * height) by (nonlinear_arith)
        requires
            0 <= x < width,
            0 <= y < height,
    ;
    assert(0 <= y * width) by (nonlinear_arith)
        requires
            0 <= y,
            0 <= width,
    ;
}

impl Clone for Canvas {
    fn clone(&self) -> (copy: Self)
        ensures
            copy.width_spec() == self.width_spec(),
            copy.height_spec() == self.height_spec(),
            copy.bytes() == self.bytes(),
    {
        proof {
            use_type_invariant(self);
        }
        let pixels = self.pixels.clone();
        proof {
            assert(pixels@ =~= self.pixels@);
        }
        Canvas { width: self.width, height: self.height, pixels }
    }
}

impl Canvas {
    #[verifier::type_invariant]
    spec fn well_formed(self) -> bool {
        &&& 1 <= self.width <= MAX_DIMENSION
        &&& 1 <= self.height <= MAX_DIMENSION
        &&& self.pixels@.len() == self.width * self.height * 4
    }

    /// Width in pixels.
    pub closed spec fn width_spec(&self) -> nat {
        self.width as nat
    }

    /// Height in pixels.
    pub closed spec fn height_spec(&self) -> nat {
        self.height as nat
    }

    /// The premultiplied RGBA8 bytes, row-major.
    pub closed spec fn bytes(&self) -> Seq<u8> {
        self.pixels@
    }

    /// The four bytes of pixel `(x, y)`.
    pub open spec fn pixel_spec(&self, x: int, y: int) -> Seq<u8> {
        self.bytes().subrange(
            pixel_offset(self.width_spec() as int, x, y),
            pixel_offset(self.width_spec() as int, x, y) + 4,
        )
    }

    /// Allocate a fully transparent canvas.
    ///
    /// Returns `None` for a degenerate or implausible extent rather than
    /// attempting the allocation.
    pub fn new(width: u32, height: u32) -> (canvas: Option<Self>)
        ensures
            canvas is None <==> (width == 0 || height == 0 || width > MAX_DIMENSION || height
                > MAX_DIMENSION),
            canvas matches Some(c) ==> c.width_spec() == width && c.height_spec() == height
                && c.bytes().len() == width * height * 4 && forall|i: int|
                0 <= i < c.bytes().len() ==> #[trigger] c.bytes()[i] == 0,
    {
        if width == 0 || height == 0 || width > MAX_DIMENSION || height > MAX_DIMENSION {
            return None;
        }
        proof {
            assert(width * height <= 16384 * 16384) by (nonlinear_arith)
                requires
                    width <= 16384,
                    height <= 16384,
            ;
        }
        let length = (width as usize) * (height as usize) * BYTES_PER_PIXEL;
        let mut pixels: Vec<u8> = Vec::new();
        while pixels.len() < length
            invariant
                pixels@.len() <= length,
                forall|i: int| 0 <= i < pixels@.len() ==> #[trigger] pixels@[i] == 0,
            decreases length - pixels@.len(),
        {
            pixels.push(0);
        }
        Some(Canvas { width, height, pixels })
    }

    /// Width in pixels.
    pub fn width(&self) -> (width: u32)
        ensures
            width == self.width_spec(),
            1 <= width <= MAX_DIMENSION,
    {
        proof {
            use_type_invariant(self);
        }
        self.width
    }

    /// Height in pixels.
    pub fn height(&self) -> (height: u32)
        ensures
            height == self.height_spec(),
            1 <= height <= MAX_DIMENSION,
    {
        proof {
            use_type_invariant(self);
        }
        self.height
    }

    /// Consume the canvas, yielding premultiplied RGBA8 bytes.
    pub fn into_pixels(self) -> (pixels: Vec<u8>)
        ensures
            pixels@ == self.bytes(),
            pixels@.len() == self.width_spec() * self.height_spec() * 4,
    {
        proof {
            use_type_invariant(&self);
        }
        self.pixels
    }

    /// Read one pixel as premultiplied RGBA8; `None` outside the canvas.
    pub fn pixel(&self, x: u32, y: u32) -> (pixel: Option<[u8; 4]>)
        ensures
            pixel is None <==> (x >= self.width_spec() || y >= self.height_spec()),
            pixel matches Some(p) ==> p@ == self.pixel_spec(x as int, y as int),
    {
        proof {
            use_type_invariant(self);
        }
        if x >= self.width || y >= self.height {
            return None;
        }
        proof {
            lemma_pixel_in_bounds(self.width as int, self.height as int, x as int, y as int);
        }
        let index = (y as usize * self.width as usize + x as usize) * BYTES_PER_PIXEL;
        let p = [
            self.pixels[index],
            self.pixels[index + 1],
            self.pixels[index + 2],
            self.pixels[index + 3],
        ];
        proof {
            assert(p@ =~= self.pixel_spec(x as int, y as int));
        }
        Some(p)
    }

    /// Replace every pixel with one premultiplied color.
    pub fn clear(&mut self, value: [u8; 4])
        ensures
            final(self).width_spec() == old(self).width_spec(),
            final(self).height_spec() == old(self).height_spec(),
            final(self).bytes().len() == old(self).bytes().len(),
            forall|i: int| 0 <= i < final(self).bytes().len() ==> #[trigger] final(self).bytes()[i]
                == value@[i % 4],
    {
        proof {
            use_type_invariant(&*self);
        }
        let length = self.pixels.len();
        let mut pixels: Vec<u8> = Vec::new();
        while pixels.len() < length
            invariant
                pixels@.len() <= length,
                length % 4 == 0,
                pixels@.len() % 4 == 0,
                forall|i: int| 0 <= i < pixels@.len() ==> #[trigger] pixels@[i] == value@[i % 4],
            decreases length - pixels@.len(),
        {
            let ghost start = pixels@.len();
            pixels.push(value[0]);
            pixels.push(value[1]);
            pixels.push(value[2]);
            pixels.push(value[3]);
            proof {
                assert forall|i: int| 0 <= i < pixels@.len() implies #[trigger] pixels@[i]
                    == value@[i % 4] by {
                    if i >= start {
                        assert((i - start) % 4 == i % 4) by {
                            vstd::arithmetic::div_mod::lemma_mod_sub_multiples_vanish(i, 4);
                            assert(start % 4 == 0);
                            vstd::arithmetic::div_mod::lemma_fundamental_div_mod(start as int, 4);
                            vstd::arithmetic::div_mod::lemma_mod_multiples_vanish(
                                (start as int) / 4,
                                i - start,
                                4,
                            );
                        }
                    }
                }
            }
        }
        self.pixels = pixels;
    }

    /// Composite one premultiplied color over pixel `(x, y)` with the
    /// source-over equation, rounding to the nearest byte; a pixel outside the
    /// canvas is left alone.
    pub fn blend_pixel(&mut self, x: u32, y: u32, source: [u8; 4])
        ensures
            final(self).width_spec() == old(self).width_spec(),
            final(self).height_spec() == old(self).height_spec(),
            (x >= old(self).width_spec() || y >= old(self).height_spec()) ==> final(self).bytes()
                == old(self).bytes(),
            (x < old(self).width_spec() && y < old(self).height_spec()) ==> {
                let at = pixel_offset(old(self).width_spec() as int, x as int, y as int);
                &&& final(self).bytes().len() == old(self).bytes().len()
                &&& forall|i: int|
                    0 <= i < old(self).bytes().len() && !(at <= i < at + 4)
                        ==> #[trigger] final(self).bytes()[i] == old(self).bytes()[i]
                &&& forall|c: int|
                    0 <= c < 4 ==> #[trigger] final(self).bytes()[at + c] == over(
                        source@[c],
                        source@[3],
                        old(self).bytes()[at + c],
                    )
            },
    {
        proof {
            use_type_invariant(&*self);
        }
        if x >= self.width || y >= self.height {
            return;
        }
        proof {
            lemma_pixel_in_bounds(self.width as int, self.height as int, x as int, y as int);
        }
        let index = (y as usize * self.width as usize + x as usize) * BYTES_PER_PIXEL;
        let mut pixels = self.pixels.clone();
        proof {
            assert(pixels@ =~= self.pixels@);
        }
        let mut channel: usize = 0;
        while channel < 4
            invariant
                channel <= 4,
                index + 4 <= pixels@.len(),
                index < 1073741824,
                pixels@.len() == self.pixels@.len(),
                forall|i: int|
                    0 <= i < pixels@.len() && !(index <= i < index + channel) ==> #[trigger] pixels@[i]
                        == self.pixels@[i],
                forall|c: int|
                    0 <= c < channel ==> #[trigger] pixels@[index + c] == over(
                        source@[c],
                        source@[3],
                        self.pixels@[index + c],
                    ),
            decreases 4 - channel,
        {
            let blended = blend_channel(source[channel], source[3], pixels[index + channel]);
            pixels.set(index + channel, blended);
            channel = channel + 1;
        }
        self.pixels = pixels;
    }
}

/// One channel of premultiplied source-over: the source plus the destination
/// scaled by the source's transparency, rounded, and saturated at 255.
pub open spec fn over(source: u8, source_alpha: u8, destination: u8) -> u8 {
    let scaled = (destination * (255 - source_alpha) + 127) / 255;
    if source + scaled > 255 {
        255
    } else {
        (source + scaled) as u8
    }
}

fn blend_channel(source: u8, source_alpha: u8, destination: u8) -> (out: u8)
    ensures
        out == over(source, source_alpha, destination),
{
    let inverse = 255u32 - source_alpha as u32;
    proof {
        assert(destination as u32 * inverse <= 255 * 255) by (nonlinear_arith)
            requires
                destination <= 255,
                inverse <= 255,
        ;
    }
    let scaled = (destination as u32 * inverse + 127) / 255;
    let sum = source as u32 + scaled;
    if sum > 255 {
        255
    } else {
        sum as u8
    }
}

// ---------------------------------------------------------------------------
// The built-in 5x7 bitmap face.

/// Columns in a glyph cell.
pub const GLYPH_WIDTH: usize = 5;

/// Rows in a glyph cell.
pub const GLYPH_HEIGHT: usize = 7;

/// The rows of a character the face draws, top to bottom; bit 4 of a row is
/// its leftmost column. `None` for a character outside the face.
pub open spec fn font_rows(character: char) -> Option<Seq<u8>> {
    match character {
        ' ' => Some(seq![0u8, 0, 0, 0, 0, 0, 0]),
        '0' => Some(seq![0b01110u8, 0b10001, 0b10011, 0b10101, 0b11001, 0b10001, 0b01110]),
        '1' => Some(seq![0b00100u8, 0b01100, 0b00100, 0b00100, 0b00100, 0b00100, 0b01110]),
        '2' => Some(seq![0b01110u8, 0b10001, 0b00001, 0b00010, 0b00100, 0b01000, 0b11111]),
        '3' => Some(seq![0b11111u8, 0b00010, 0b00100, 0b00010, 0b00001, 0b10001, 0b01110]),
        '4' => Some(seq![0b00010u8, 0b00110, 0b01010, 0b10010, 0b11111, 0b00010, 0b00010]),
        '5' => Some(seq![0b11111u8, 0b10000, 0b11110, 0b00001, 0b00001, 0b10001, 0b01110]),
        '6' => Some(seq![0b00110u8, 0b01000, 0b10000, 0b11110, 0b10001, 0b10001, 0b01110]),
        '7' => Some(seq![0b11111u8, 0b00001, 0b00010, 0b00100, 0b01000, 0b01000, 0b01000]),
        '8' => Some(seq![0b01110u8, 0b10001, 0b10001, 0b01110, 0b10001, 0b10001, 0b01110]),
        '9' => Some(seq![0b01110u8, 0b10001, 0b10001, 0b01111, 0b00001, 0b00010, 0b01100]),
        'A' => Some(seq![0b01110u8, 0b10001, 0b10001, 0b11111, 0b10001, 0b10001, 0b10001]),
        'B' => Some(seq![0b11110u8, 0b10001, 0b10001, 0b11110, 0b10001, 0b10001, 0b11110]),
        'C' => Some(seq![0b01110u8, 0b10001, 0b10000, 0b10000, 0b10000, 0b10001, 0b01110]),
        'D' => Some(seq![0b11100u8, 0b10010, 0b10001, 0b10001, 0b10001, 0b10010, 0b11100]),
        'E' => Some(seq![0b11111u8, 0b10000, 0b10000, 0b11110, 0b10000, 0b10000, 0b11111]),
        'F' => Some(seq![0b11111u8, 0b10000, 0b10000, 0b11110, 0b10000, 0b10000, 0b10000]),
        'G' => Some(seq![0b01110u8, 0b10001, 0b10000, 0b10111, 0b10001, 0b10001, 0b01111]),
        'H' => Some(seq![0b10001u8, 0b10001, 0b10001, 0b11111, 0b10001, 0b10001, 0b10001]),
        'I' => Some(seq![0b01110u8, 0b00100, 0b00100, 0b00100, 0b00100, 0b00100, 0b01110]),
        'J' => Some(seq![0b00111u8, 0b00010, 0b00010, 0b00010, 0b00010, 0b10010, 0b01100]),
        'K' => Some(seq![0b10001u8, 0b10010, 0b10100, 0b11000, 0b10100, 0b10010, 0b10001]),
        'L' => Some(seq![0b10000u8, 0b10000, 0b10000, 0b10000, 0b10000, 0b10000, 0b11111]),
        'M' => Some(seq![0b10001u8, 0b11011, 0b10101, 0b10101, 0b10001, 0b10001, 0b10001]),
        'N' => Some(seq![0b10001u8, 0b10001, 0b11001, 0b10101, 0b10011, 0b10001, 0b10001]),
        'O' => Some(seq![0b01110u8, 0b10001, 0b10001, 0b10001, 0b10001, 0b10001, 0b01110]),
        'P' => Some(seq![0b11110u8, 0b10001, 0b10001, 0b11110, 0b10000, 0b10000, 0b10000]),
        'Q' => Some(seq![0b01110u8, 0b10001, 0b10001, 0b10001, 0b10101, 0b10010, 0b01101]),
        'R' => Some(seq![0b11110u8, 0b10001, 0b10001, 0b11110, 0b10100, 0b10010, 0b10001]),
        'S' => Some(seq![0b01111u8, 0b10000, 0b10000, 0b01110, 0b00001, 0b00001, 0b11110]),
        'T' => Some(seq![0b11111u8, 0b00100, 0b00100, 0b00100, 0b00100, 0b00100, 0b00100]),
        'U' => Some(seq![0b10001u8, 0b10001, 0b10001, 0b10001, 0b10001, 0b10001, 0b01110]),
        'V' => Some(seq![0b10001u8, 0b10001, 0b10001, 0b10001, 0b10001, 0b01010, 0b00100]),
        'W' => Some(seq![0b10001u8, 0b10001, 0b10001, 0b10101, 0b10101, 0b11011, 0b10001]),
        'X' => Some(seq![0b10001u8, 0b10001, 0b01010, 0b00100, 0b01010, 0b10001, 0b10001]),
        'Y' => Some(seq![0b10001u8, 0b10001, 0b01010, 0b00100, 0b00100, 0b00100, 0b00100]),
        'Z' => Some(seq![0b11111u8, 0b00001, 0b00010, 0b00100, 0b01000, 0b10000, 0b11111]),
        '.' => Some(seq![0u8, 0, 0, 0, 0, 0b01100, 0b01100]),
        ',' => Some(seq![0u8, 0, 0, 0, 0b00110, 0b00110, 0b00100]),
        ':' => Some(seq![0u8, 0b01100, 0b01100, 0, 0b01100, 0b01100, 0]),
        ';' => Some(seq![0u8, 0b01100, 0b01100, 0, 0b01100, 0b00100, 0b01000]),
        '-' => Some(seq![0u8, 0, 0, 0b01110, 0, 0, 0]),
        '_' => Some(seq![0u8, 0, 0, 0, 0, 0, 0b11111]),
        '+' => Some(seq![0u8, 0b00100, 0b00100, 0b11111, 0b00100, 0b00100, 0]),
        '=' => Some(seq![0u8, 0, 0b11111, 0, 0b11111, 0, 0]),
        '/' => Some(seq![0b00001u8, 0b00010, 0b00010, 0b00100, 0b01000, 0b01000, 0b10000]),
        '%' => Some(seq![0b11001u8, 0b11010, 0b00010, 0b00100, 0b01000, 0b01011, 0b10011]),
        '!' => Some(seq![0b00100u8, 0b00100, 0b00100, 0b00100, 0b00100, 0, 0b00100]),
        '?' => Some(seq![0b01110u8, 0b10001, 0b00001, 0b00010, 0b00100, 0, 0b00100]),
        '(' => Some(seq![0b00010u8, 0b00100, 0b01000, 0b01000, 0b01000, 0b00100, 0b00010]),
        ')' => Some(seq![0b01000u8, 0b00100, 0b00010, 0b00010, 0b00010, 0b00100, 0b01000]),
        '[' => Some(seq![0b01110u8, 0b01000, 0b01000, 0b01000, 0b01000, 0b01000, 0b01110]),
        ']' => Some(seq![0b01110u8, 0b00010, 0b00010, 0b00010, 0b00010, 0b00010, 0b01110]),
        '#' => Some(seq![0b01010u8, 0b01010, 0b11111, 0b01010, 0b11111, 0b01010, 0b01010]),
        '@' => Some(seq![0b01110u8, 0b10001, 0b10111, 0b10101, 0b10111, 0b10000, 0b01110]),
        '*' => Some(seq![0u8, 0b10101, 0b01110, 0b11111, 0b01110, 0b10101, 0]),
        '<' => Some(seq![0b00010u8, 0b00100, 0b01000, 0b10000, 0b01000, 0b00100, 0b00010]),
        '>' => Some(seq![0b01000u8, 0b00100, 0b00010, 0b00001, 0b00010, 0b00100, 0b01000]),
        '\'' => Some(seq![0b00100u8, 0b00100, 0, 0, 0, 0, 0]),
        '"' => Some(seq![0b01010u8, 0b01010, 0, 0, 0, 0, 0]),
        '&' => Some(seq![0b01100u8, 0b10010, 0b10100, 0b01000, 0b10101, 0b10010, 0b01101]),
        _ => None,
    }
}

/// The mark drawn for a character outside the built-in face: a hollow box.
pub open spec fn tofu() -> Seq<u8> {
    seq![0b11111u8, 0b10001, 0b10001, 0b10001, 0b10001, 0b10001, 0b11111]
}

/// What the face draws for a character: lowercase folds to uppercase, and a
/// character the face lacks is drawn as the missing-glyph box rather than
/// silently dropped.
pub open spec fn glyph_rows(character: char) -> Seq<u8> {
    match font_rows(ascii_upper(character)) {
        Some(rows) => rows,
        None => tofu(),
    }
}

fn font_glyph(character: char) -> (rows: Option<[u8; 7]>)
    ensures
        match rows {
            Some(r) => font_rows(character) == Some(r@),
            None => font_rows(character) is None,
        },
{
    match character {
        ' ' => Some([0u8, 0, 0, 0, 0, 0, 0]),
        '0' => Some([0b01110u8, 0b10001, 0b10011, 0b10101, 0b11001, 0b10001, 0b01110]),
        '1' => Some([0b00100u8, 0b01100, 0b00100, 0b00100, 0b00100, 0b00100, 0b01110]),
        '2' => Some([0b01110u8, 0b10001, 0b00001, 0b00010, 0b00100, 0b01000, 0b11111]),
        '3' => Some([0b11111u8, 0b00010, 0b00100, 0b00010, 0b00001, 0b10001, 0b01110]),
        '4' => Some([0b00010u8, 0b00110, 0b01010, 0b10010, 0b11111, 0b00010, 0b00010]),
        '5' => Some([0b11111u8, 0b10000, 0b11110, 0b00001, 0b00001, 0b10001, 0b01110]),
        '6' => Some([0b00110u8, 0b01000, 0b10000, 0b11110, 0b10001, 0b10001, 0b01110]),
        '7' => Some([0b11111u8, 0b00001, 0b00010, 0b00100, 0b01000, 0b01000, 0b01000]),
        '8' => Some([0b01110u8, 0b10001, 0b10001, 0b01110, 0b10001, 0b10001, 0b01110]),
        '9' => Some([0b01110u8, 0b10001, 0b10001, 0b01111, 0b00001, 0b00010, 0b01100]),
        'A' => Some([0b01110u8, 0b10001, 0b10001, 0b11111, 0b10001, 0b10001, 0b10001]),
        'B' => Some([0b11110u8, 0b10001, 0b10001, 0b11110, 0b10001, 0b10001, 0b11110]),
        'C' => Some([0b01110u8, 0b10001, 0b10000, 0b10000, 0b10000, 0b10001, 0b01110]),
        'D' => Some([0b11100u8, 0b10010, 0b10001, 0b10001, 0b10001, 0b10010, 0b11100]),
        'E' => Some([0b11111u8, 0b10000, 0b10000, 0b11110, 0b10000, 0b10000, 0b11111]),
        'F' => Some([0b11111u8, 0b10000, 0b10000, 0b11110, 0b10000, 0b10000, 0b10000]),
        'G' => Some([0b01110u8, 0b10001, 0b10000, 0b10111, 0b10001, 0b10001, 0b01111]),
        'H' => Some([0b10001u8, 0b10001, 0b10001, 0b11111, 0b10001, 0b10001, 0b10001]),
        'I' => Some([0b01110u8, 0b00100, 0b00100, 0b00100, 0b00100, 0b00100, 0b01110]),
        'J' => Some([0b00111u8, 0b00010, 0b00010, 0b00010, 0b00010, 0b10010, 0b01100]),
        'K' => Some([0b10001u8, 0b10010, 0b10100, 0b11000, 0b10100, 0b10010, 0b10001]),
        'L' => Some([0b10000u8, 0b10000, 0b10000, 0b10000, 0b10000, 0b10000, 0b11111]),
        'M' => Some([0b10001u8, 0b11011, 0b10101, 0b10101, 0b10001, 0b10001, 0b10001]),
        'N' => Some([0b10001u8, 0b10001, 0b11001, 0b10101, 0b10011, 0b10001, 0b10001]),
        'O' => Some([0b01110u8, 0b10001, 0b10001, 0b10001, 0b10001, 0b10001, 0b01110]),
        'P' => Some([0b11110u8, 0b10001, 0b10001, 0b11110, 0b10000, 0b10000, 0b10000]),
        'Q' => Some([0b01110u8, 0b10001, 0b10001, 0b10001, 0b10101, 0b10010, 0b01101]),
        'R' => Some([0b11110u8, 0b10001, 0b10001, 0b11110, 0b10100, 0b10010, 0b10001]),
        'S' => Some([0b01111u8, 0b10000, 0b10000, 0b01110, 0b00001, 0b00001, 0b11110]),
        'T' => Some([0b11111u8, 0b00100, 0b00100, 0b00100, 0b00100, 0b00100, 0b00100]),
        'U' => Some([0b10001u8, 0b10001, 0b10001, 0b10001, 0b10001, 0b10001, 0b01110]),
        'V' => Some([0b10001u8, 0b10001, 0b10001, 0b10001, 0b10001, 0b01010, 0b00100]),
        'W' => Some([0b10001u8, 0b10001, 0b10001, 0b10101, 0b10101, 0b11011, 0b10001]),
        'X' => Some([0b10001u8, 0b10001, 0b01010, 0b00100, 0b01010, 0b10001, 0b10001]),
        'Y' => Some([0b10001u8, 0b10001, 0b01010, 0b00100, 0b00100, 0b00100, 0b00100]),
        'Z' => Some([0b11111u8, 0b00001, 0b00010, 0b00100, 0b01000, 0b10000, 0b11111]),
        '.' => Some([0u8, 0, 0, 0, 0, 0b01100, 0b01100]),
        ',' => Some([0u8, 0, 0, 0, 0b00110, 0b00110, 0b00100]),
        ':' => Some([0u8, 0b01100, 0b01100, 0, 0b01100, 0b01100, 0]),
        ';' => Some([0u8, 0b01100, 0b01100, 0, 0b01100, 0b00100, 0b01000]),
        '-' => Some([0u8, 0, 0, 0b01110, 0, 0, 0]),
        '_' => Some([0u8, 0, 0, 0, 0, 0, 0b11111]),
        '+' => Some([0u8, 0b00100, 0b00100, 0b11111, 0b00100, 0b00100, 0]),
        '=' => Some([0u8, 0, 0b11111, 0, 0b11111, 0, 0]),
        '/' => Some([0b00001u8, 0b00010, 0b00010, 0b00100, 0b01000, 0b01000, 0b10000]),
        '%' => Some([0b11001u8, 0b11010, 0b00010, 0b00100, 0b01000, 0b01011, 0b10011]),
        '!' => Some([0b00100u8, 0b00100, 0b00100, 0b00100, 0b00100, 0, 0b00100]),
        '?' => Some([0b01110u8, 0b10001, 0b00001, 0b00010, 0b00100, 0, 0b00100]),
        '(' => Some([0b00010u8, 0b00100, 0b01000, 0b01000, 0b01000, 0b00100, 0b00010]),
        ')' => Some([0b01000u8, 0b00100, 0b00010, 0b00010, 0b00010, 0b00100, 0b01000]),
        '[' => Some([0b01110u8, 0b01000, 0b01000, 0b01000, 0b01000, 0b01000, 0b01110]),
        ']' => Some([0b01110u8, 0b00010, 0b00010, 0b00010, 0b00010, 0b00010, 0b01110]),
        '#' => Some([0b01010u8, 0b01010, 0b11111, 0b01010, 0b11111, 0b01010, 0b01010]),
        '@' => Some([0b01110u8, 0b10001, 0b10111, 0b10101, 0b10111, 0b10000, 0b01110]),
        '*' => Some([0u8, 0b10101, 0b01110, 0b11111, 0b01110, 0b10101, 0]),
        '<' => Some([0b00010u8, 0b00100, 0b01000, 0b10000, 0b01000, 0b00100, 0b00010]),
        '>' => Some([0b01000u8, 0b00100, 0b00010, 0b00001, 0b00010, 0b00100, 0b01000]),
        '\'' => Some([0b00100u8, 0b00100, 0, 0, 0, 0, 0]),
        '"' => Some([0b01010u8, 0b01010, 0, 0, 0, 0, 0]),
        '&' => Some([0b01100u8, 0b10010, 0b10100, 0b01000, 0b10101, 0b10010, 0b01101]),
        _ => None,
    }
}

/// The seven rows the face draws for `character`.
pub fn glyph(character: char) -> (rows: [u8; 7])
    ensures
        rows@ == glyph_rows(character),
{
    match font_glyph(to_ascii_upper(character)) {
        Some(rows) => rows,
        None => [0b11111, 0b10001, 0b10001, 0b10001, 0b10001, 0b10001, 0b11111],
    }
}

/// Every row of every glyph fits the five-column cell.
pub proof fn lemma_glyph_rows_fit(character: char)
    ensures
        glyph_rows(character).len() == 7,
        forall|r: int| 0 <= r < 7 ==> #[trigger] glyph_rows(character)[r] < 32,
{
}

/// A character outside the face is still drawn with ink.
pub proof fn lemma_missing_glyph_has_ink(character: char)
    requires
        font_rows(ascii_upper(character)) is None,
    ensures
        exists|r: int| 0 <= r < 7 && #[trigger] glyph_rows(character)[r] != 0,
{
    assert(glyph_rows(character)[0] != 0);
}

} // verus!
