//! The pixel raster that a glyph sheet is painted on.
//!
//! The raster itself lives in an `image::RgbaImage`. The verifier cannot look
//! inside that type, so this module names what such an image holds
//! ([`canvas_dimensions`], [`canvas_pixels`]) and states, without proof, what
//! the handful of `image` methods used here do to it. Everything else in the
//! crate is proved on top of those statements.

use vstd::prelude::*;

verus! {

/// One RGBA pixel value, eight bits per channel.
#[derive(Clone, Copy, Debug, PartialEq, Eq, Structural)]
pub struct Color {
    pub red: u8,
    pub green: u8,
    pub blue: u8,
    pub alpha: u8,
}

impl Color {
    /// Opaque white.
    pub open spec fn spec_white() -> Color {
        Color { red: 255, green: 255, blue: 255, alpha: 255 }
    }

    /// Fully transparent black.
    pub open spec fn spec_transparent() -> Color {
        Color { red: 0, green: 0, blue: 0, alpha: 0 }
    }

    /// Opaque white, the colour of a lit glyph pixel.
    #[verifier::when_used_as_spec(spec_white)]
    pub fn white() -> (color: Color)
        ensures
            color == Color::white(),
    {
        Color { red: 255, green: 255, blue: 255, alpha: 255 }
    }

    /// Fully transparent black, the colour of every untouched pixel.
    #[verifier::when_used_as_spec(spec_transparent)]
    pub fn transparent() -> (color: Color)
        ensures
            color == Color::transparent(),
    {
        Color { red: 0, green: 0, blue: 0, alpha: 0 }
    }
}

/// An RGBA raster, eight bits per channel, held in an `image::RgbaImage`.
///
/// Trusted: the verifier does not see the field. All it knows of a canvas is
/// what [`canvas_dimensions`] and [`canvas_pixels`] say of it.
#[verifier::external_body]
#[derive(Debug)]
pub struct Canvas {
    image: image::RgbaImage,
}

/// Width and height of a canvas, in pixels.
pub uninterp spec fn canvas_dimensions(canvas: Canvas) -> (u32, u32);

/// The colour at each position `(x, y)` of a canvas, `x` counting columns from
/// the left and `y` rows from the top. The domain is exactly the positions
/// inside the canvas.
pub uninterp spec fn canvas_pixels(canvas: Canvas) -> Map<(int, int), Color>;

/// The positions inside a `width` by `height` raster.
pub open spec fn positions(width: int, height: int) -> Set<(int, int)> {
    Set::new(|p: (int, int)| 0 <= p.0 < width && 0 <= p.1 < height)
}

/// The pixels of a `width` by `height` raster that nothing was painted on.
pub open spec fn blank(width: int, height: int) -> Map<(int, int), Color> {
    Map::new(
        |p: (int, int)| positions(width, height).contains(p),
        |p: (int, int)| Color::transparent(),
    )
}

/// The bytes of a raster in row-major order, four per pixel: red, green, blue,
/// alpha.
pub open spec fn channel_bytes(width: int, height: int, pixels: Map<(int, int), Color>) -> Seq<
    u8,
> {
    Seq::new(
        (4 * (width * height)) as nat,
        |i: int|
            {
                let p = ((i / 4) % width, (i / 4) / width);
                if i % 4 == 0 {
                    pixels[p].red
                } else if i % 4 == 1 {
                    pixels[p].green
                } else if i % 4 == 2 {
                    pixels[p].blue
                } else {
                    pixels[p].alpha
                }
            },
    )
}

impl Canvas {
    /// Trusted wrapper of `image::ImageBuffer::new`.
    ///
    /// Claims that the new image has the size asked for and that each of its
    /// pixels is `(0, 0, 0, 0)`. `new` computes the byte length in two checked
    /// steps, four times `width` and then times `height`, and panics when
    /// either overflows `usize`; the `Vec` behind it panics when the length
    /// exceeds `isize::MAX`. The precondition leaves all three out. Running
    /// out of memory is not modelled.
    #[verifier::external_body]
    pub(crate) fn allocate(width: u32, height: u32) -> (canvas: Canvas)
        requires
            4 * width <= usize::MAX,
            4 * (width * height) <= isize::MAX,
        ensures
            canvas_dimensions(canvas) == (width, height),
            canvas_pixels(canvas) == blank(width as int, height as int),
    {
        Canvas { image: image::RgbaImage::new(width, height) }
    }

    /// Trusted wrapper of `image::ImageBuffer::put_pixel`.
    ///
    /// Claims that the pixel at `(x, y)` becomes `color` and that nothing else
    /// changes. `put_pixel` panics outside the image; the precondition leaves
    /// that out.
    #[verifier::external_body]
    pub(crate) fn paint(&mut self, x: u32, y: u32, color: Color)
        requires
            x < canvas_dimensions(*old(self)).0,
            y < canvas_dimensions(*old(self)).1,
        ensures
            canvas_dimensions(*final(self)) == canvas_dimensions(*old(self)),
            canvas_pixels(*final(self)) == canvas_pixels(*old(self)).insert(
                (x as int, y as int),
                color,
            ),
    {
        self.image.put_pixel(x, y, image::Rgba([color.red, color.green, color.blue, color.alpha]));
    }

    /// Trusted wrapper of `image::ImageBuffer::dimensions`.
    #[verifier::external_body]
    pub(crate) fn dimensions(&self) -> (size: (u32, u32))
        ensures
            size == canvas_dimensions(*self),
    {
        self.image.dimensions()
    }

    /// Trusted wrapper of `image::ImageBuffer::get_pixel`.
    ///
    /// Claims that the four channels read at `(x, y)` are those of the pixel
    /// there. `get_pixel` panics outside the image; the precondition leaves
    /// that out.
    #[verifier::external_body]
    pub(crate) fn read(&self, x: u32, y: u32) -> (color: Color)
        requires
            x < canvas_dimensions(*self).0,
            y < canvas_dimensions(*self).1,
        ensures
            color == canvas_pixels(*self)[(x as int, y as int)],
    {
        let pixel = self.image.get_pixel(x, y);
        Color { red: pixel.0[0], green: pixel.0[1], blue: pixel.0[2], alpha: pixel.0[3] }
    }

    /// Trusted wrapper of `image::ImageBuffer::into_raw`.
    ///
    /// Claims that the buffer of an image made by [`Canvas::allocate`] holds
    /// the pixels row by row and nothing after them, four bytes each.
    #[verifier::external_body]
    pub(crate) fn raw(self) -> (bytes: Vec<u8>)
        ensures
            bytes@ == channel_bytes(
                canvas_dimensions(self).0 as int,
                canvas_dimensions(self).1 as int,
                canvas_pixels(self),
            ),
    {
        self.image.into_raw()
    }

    /// A canvas of the given size with every pixel transparent, or `None`
    /// where the bytes of one row, four per pixel, are more than `usize`
    /// counts, or those of all rows more than can be allocated.
    pub fn new(width: u32, height: u32) -> (made: Option<Canvas>)
        ensures
            made is Some <==> 4 * width <= usize::MAX && 4 * (width * height) <= isize::MAX,
            made matches Some(canvas) ==> {
                &&& canvas.width() == width
                &&& canvas.height() == height
                &&& canvas_pixels(canvas) == blank(width as int, height as int)
            },
    {
        assert(width * height <= u64::MAX) by (nonlinear_arith)
            requires
                width <= u32::MAX,
                height <= u32::MAX,
        ;
        let row_fits = width as u64 <= usize::MAX as u64 / 4;
        let all_fits = width as u64 * height as u64 <= isize::MAX as u64 / 4;
        if row_fits && all_fits {
            Some(Canvas::allocate(width, height))
        } else {
            None
        }
    }

    /// Width in pixels.
    pub open spec fn spec_width(&self) -> u32 {
        canvas_dimensions(*self).0
    }

    /// Height in pixels.
    pub open spec fn spec_height(&self) -> u32 {
        canvas_dimensions(*self).1
    }

    /// Width in pixels.
    #[verifier::when_used_as_spec(spec_width)]
    pub fn width(&self) -> (width: u32)
        ensures
            width == canvas_dimensions(*self).0,
    {
        self.dimensions().0
    }

    /// Height in pixels.
    #[verifier::when_used_as_spec(spec_height)]
    pub fn height(&self) -> (height: u32)
        ensures
            height == canvas_dimensions(*self).1,
    {
        self.dimensions().1
    }

    /// The colour at `(x, y)`, or `None` outside the canvas.
    pub fn pixel(&self, x: u32, y: u32) -> (found: Option<Color>)
        ensures
            found == if x < self.width() && y < self.height() {
                Some(canvas_pixels(*self)[(x as int, y as int)])
            } else {
                None
            },
    {
        let (width, height) = self.dimensions();
        if x < width && y < height {
            Some(self.read(x, y))
        } else {
            None
        }
    }

    /// Gives up the canvas for its bytes: row by row from the top, each row
    /// from the left, four bytes per pixel in the order red, green, blue,
    /// alpha.
    pub fn into_raw(self) -> (bytes: Vec<u8>)
        ensures
            bytes@ == channel_bytes(self.width() as int, self.height() as int, canvas_pixels(self)),
    {
        self.raw()
    }
}

} // verus!
