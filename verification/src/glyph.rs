//! Glyph bitmaps.

use vstd::prelude::*;
use vstd::arithmetic::div_mod::lemma_fundamental_div_mod_converse;

verus! {

/// What a glyph is, mathematically: a `width` by `height` rectangle and the
/// set of positions `(x, y)` in it that carry ink.
pub ghost struct Bitmap {
    pub width: nat,
    pub height: nat,
    pub on: Set<(int, int)>,
}

impl Bitmap {
    /// The sides fit in `u32` and every lit position lies inside the
    /// rectangle.
    pub open spec fn wf(self) -> bool {
        &&& self.width <= u32::MAX
        &&& self.height <= u32::MAX
        &&& forall|p: (int, int)| #[trigger]
            self.on.contains(p) ==> 0 <= p.0 < self.width && 0 <= p.1 < self.height
    }

    /// Whether the pixel in column `x` of row `y` is part of the glyph's mark.
    pub open spec fn lit(self, x: int, y: int) -> bool {
        self.on.contains((x, y))
    }

    /// The bitmap of the given size with no ink on it.
    pub open spec fn blank(width: nat, height: nat) -> Bitmap {
        Bitmap { width, height, on: Set::empty() }
    }

    /// This bitmap with the pixel at `(x, y)` switched on or off.
    pub open spec fn with_pixel(self, x: int, y: int, value: bool) -> Bitmap {
        Bitmap {
            width: self.width,
            height: self.height,
            on: if value {
                self.on.insert((x, y))
            } else {
                self.on.remove((x, y))
            },
        }
    }
}

/// A rectangular one-bit-per-pixel glyph.
#[derive(Debug)]
pub struct Glyph {
    width: u32,
    height: u32,
    /// One entry per pixel, row by row from the top.
    bits: Vec<bool>,
}

/// In a grid `width` wide, the cell in column `x` of row `y` is the only one
/// with row-major index `y * width + x`.
proof fn lemma_row_major(width: int, height: int, x: int, y: int)
    requires
        0 <= x < width,
        0 <= y < height,
    ensures
        0 <= y * width + x < width * height,
        (y * width + x) % width == x,
        (y * width + x) / width == y,
{
    assert(0 <= y * width && y * width + width <= width * height) by (nonlinear_arith)
        requires
            0 <= y < height,
            0 < width,
    ;
    lemma_fundamental_div_mod_converse(y * width + x, width, y, x);
}

impl View for Glyph {
    type V = Bitmap;

    closed spec fn view(&self) -> Bitmap {
        Bitmap {
            width: self.width as nat,
            height: self.height as nat,
            on: Set::new(
                |p: (int, int)|
                    0 <= p.0 < self.width && 0 <= p.1 < self.height && self.bits@[p.1 * self.width
                        + p.0],
            ),
        }
    }
}

impl Glyph {
    #[verifier::type_invariant]
    spec fn inv(self) -> bool {
        self.bits.len() == self.width * self.height
    }

    /// Whatever a glyph holds, its model is well formed.
    pub proof fn lemma_view_wf(self)
        ensures
            self@.wf(),
    {
    }

    /// A glyph of the given size with every pixel off, or `None` where
    /// `width * height` pixels are more than a vector can hold.
    pub fn new(width: u32, height: u32) -> (made: Option<Glyph>)
        ensures
            made is Some <==> width * height <= isize::MAX,
            made matches Some(glyph) ==> glyph@ == Bitmap::blank(width as nat, height as nat),
    {
        assert(width * height <= u64::MAX) by (nonlinear_arith)
            requires
                width <= u32::MAX,
                height <= u32::MAX,
        ;
        let area: u64 = width as u64 * height as u64;
        if area > isize::MAX as u64 {
            return None;
        }
        let bits: Vec<bool> = vec![false; area as usize];
        assert forall|i: int| 0 <= i < bits@.len() implies !bits@[i] by {
            assert(cloned(false, bits@[i]));
        }
        let glyph = Glyph { width, height, bits };
        assert(glyph@.on =~= Set::empty()) by {
            assert forall|p: (int, int)| !glyph@.on.contains(p) by {
                if 0 <= p.0 < width && 0 <= p.1 < height {
                    lemma_row_major(width as int, height as int, p.0, p.1);
                }
            }
        }
        Some(glyph)
    }

    /// Columns in pixels.
    pub fn width(&self) -> (width: u32)
        ensures
            width == self@.width,
    {
        self.width
    }

    /// Rows in pixels.
    pub fn height(&self) -> (height: u32)
        ensures
            height == self@.height,
    {
        self.height
    }

    /// Whether the pixel in column `x` of row `y` is on.
    pub fn get(&self, x: u32, y: u32) -> (value: bool)
        requires
            x < self@.width,
            y < self@.height,
        ensures
            value == self@.lit(x as int, y as int),
    {
        proof {
            use_type_invariant(self);
            lemma_row_major(self.width as int, self.height as int, x as int, y as int);
        }
        self.bits[y as usize * self.width as usize + x as usize]
    }

    /// Switches the pixel in column `x` of row `y` on or off.
    pub fn set(&mut self, x: u32, y: u32, value: bool)
        requires
            x < old(self)@.width,
            y < old(self)@.height,
        ensures
            final(self)@ == old(self)@.with_pixel(x as int, y as int, value),
    {
        proof {
            use_type_invariant(&*self);
            lemma_row_major(self.width as int, self.height as int, x as int, y as int);
        }
        let index = y as usize * self.width as usize + x as usize;
        self.bits[index] = value;
        proof {
            let width = self.width as int;
            let height = self.height as int;
            assert forall|p: (int, int)|
                self@.on.contains(p) == old(self)@.with_pixel(
                    x as int,
                    y as int,
                    value,
                ).on.contains(p) by {
                if 0 <= p.0 < width && 0 <= p.1 < height {
                    lemma_row_major(width, height, p.0, p.1);
                }
            }
            assert(self@.on =~= old(self)@.with_pixel(x as int, y as int, value).on);
        }
    }
}

} // verus!
