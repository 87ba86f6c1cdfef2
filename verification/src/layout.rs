//! Where each glyph goes on the sheet.
//!
//! The sheet is a grid of [`COLUMNS`] by [`ROWS`] equal cells. The printable
//! ASCII code points, space to tilde, fill it row by row from the top left;
//! the last cell stays empty.

use crate::glyph::Bitmap;
use vstd::prelude::*;

verus! {

/// Cells per row of the sheet.
pub const COLUMNS: u32 = 16;

/// Rows of cells on the sheet.
pub const ROWS: u32 = 6;

/// Cells on the sheet.
pub const CELLS: u32 = 96;

/// The first code point on the sheet, the space.
pub const FIRST: u8 = 0x20;

/// The last code point on the sheet, the tilde.
pub const LAST: u8 = 0x7E;

/// Whether `code` has a cell on the sheet.
pub open spec fn printable(code: char) -> bool {
    FIRST <= code as u32 <= LAST
}

/// Position of `code` among the printable code points, counting from zero.
pub open spec fn index_of(code: char) -> int {
    code as u32 - FIRST
}

/// The grid column of the cell of `code`.
pub open spec fn column_of(code: char) -> int {
    index_of(code) % (COLUMNS as int)
}

/// The grid row of the cell of `code`.
pub open spec fn row_of(code: char) -> int {
    index_of(code) / (COLUMNS as int)
}

/// Width of every cell: that of the space glyph.
pub open spec fn cell_width(font: Map<char, Bitmap>) -> nat {
    font[' '].width
}

/// Height of every cell: that of the space glyph.
pub open spec fn cell_height(font: Map<char, Bitmap>) -> nat {
    font[' '].height
}

/// The sheet position of pixel `(dx, dy)` of the glyph of `code`.
pub open spec fn cell_position(font: Map<char, Bitmap>, code: char, dx: int, dy: int) -> (
    int,
    int,
) {
    (cell_width(font) * column_of(code) + dx, cell_height(font) * row_of(code) + dy)
}

/// Whether a sheet for `width` by `height` glyphs can be addressed and
/// allocated: its sides fit in `u32`, the bytes of one of its rows, four per
/// pixel, in `usize`, and the bytes of all of them in `isize`.
pub open spec fn sheet_fits(width: nat, height: nat) -> bool {
    &&& COLUMNS * width <= u32::MAX
    &&& ROWS * height <= u32::MAX
    &&& 4 * (COLUMNS * width) <= usize::MAX
    &&& 4 * (CELLS * (width * height)) <= isize::MAX
}

/// The pixels of a sheet are those of its cells.
pub proof fn lemma_sheet_area(width: int, height: int)
    ensures
        (COLUMNS * width) * (ROWS * height) == CELLS * (width * height),
{
    assert((16 * width) * (6 * height) == 96 * (width * height)) by (nonlinear_arith);
}

/// Glyphs of up to 2048 by 2048 pixels fit on a sheet, whatever the machine.
pub proof fn lemma_small_glyphs_fit(width: nat, height: nat)
    requires
        width <= 2048,
        height <= 2048,
    ensures
        sheet_fits(width, height),
{
    assert(width * height <= 2048 * 2048) by (nonlinear_arith)
        requires
            width <= 2048,
            height <= 2048,
    ;
}

/// Whether a sheet for `width` by `height` glyphs can be addressed and
/// allocated.
pub fn fits(width: u32, height: u32) -> (ok: bool)
    ensures
        ok == sheet_fits(width as nat, height as nat),
{
    if width > u32::MAX / COLUMNS || height > u32::MAX / ROWS {
        return false;
    }
    let sheet_width = (COLUMNS * width) as u64;
    let sheet_height = (ROWS * height) as u64;
    proof {
        lemma_sheet_area(width as int, height as int);
        assert(sheet_width * sheet_height <= u64::MAX) by (nonlinear_arith)
            requires
                sheet_width <= u32::MAX,
                sheet_height <= u32::MAX,
        ;
    }
    sheet_width <= usize::MAX as u64 / 4 && sheet_width * sheet_height <= isize::MAX as u64 / 4
}

/// Two printable code points that share a cell are one.
pub proof fn lemma_cells_differ(a: char, b: char)
    requires
        printable(a),
        printable(b),
        column_of(a) == column_of(b),
        row_of(a) == row_of(b),
    ensures
        a == b,
{
}

/// Cell `a` of a row of `cells` cells, each `size` wide, lies inside the row.
pub proof fn lemma_cell_inside(size: int, cells: int, a: int)
    requires
        0 <= a < cells,
        0 <= size,
    ensures
        0 <= size * a,
        size * a + size <= cells * size,
{
    assert(0 <= size * a && size * a + size <= cells * size) by (nonlinear_arith)
        requires
            0 <= a < cells,
            0 <= size,
    ;
}

/// Offsets `r` and `s` inside cells `a` and `b` of a row of cells `size` wide
/// name the same place only if the cells and the offsets are the same.
pub proof fn lemma_same_cell(size: int, a: int, r: int, b: int, s: int)
    requires
        0 <= r < size,
        0 <= s < size,
        size * a + r == size * b + s,
    ensures
        a == b,
        r == s,
{
    assert(a == b) by (nonlinear_arith)
        requires
            0 <= r < size,
            0 <= s < size,
            size * a + r == size * b + s,
    ;
}

} // verus!
