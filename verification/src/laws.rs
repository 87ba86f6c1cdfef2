//! What holds of every glyph sheet.

use crate::canvas::Color;
use crate::error::ConvertError;
use crate::glyph::Bitmap;
use crate::layout::{
    cell_height, cell_position, cell_width, column_of, index_of, lemma_cell_inside,
    lemma_cells_differ, lemma_same_cell, printable, row_of, COLUMNS, ROWS,
};
use crate::sheet::{complete, conforms, failure, inked, inked_by, lemma_first_failure, sheet};
use vstd::prelude::*;

verus! {

/// Whether the model of every glyph of the font is well formed.
pub open spec fn glyphs_wf(font: Map<char, Bitmap>) -> bool {
    forall|code: char| #[trigger] font.contains_key(code) ==> font[code].wf()
}

/// Whether two glyphs have the same width and the same height.
pub open spec fn same_size(a: Bitmap, b: Bitmap) -> bool {
    a.width == b.width && a.height == b.height
}

/// The colour that shows whether a pixel carries ink.
pub open spec fn tone(lit: bool) -> Color {
    if lit {
        Color::white()
    } else {
        Color::transparent()
    }
}

/// The glyph read back from cell `code` of a sheet of `width` by `height`
/// cells: the cell's pixels, on where the sheet is opaque white.
pub open spec fn sliced(pixels: Map<(int, int), Color>, width: nat, height: nat, code: char)
    -> Bitmap {
    Bitmap {
        width,
        height,
        on: Set::new(
            |q: (int, int)|
                0 <= q.0 < width && 0 <= q.1 < height && pixels[(
                    width * column_of(code) + q.0,
                    height * row_of(code) + q.1,
                )] == Color::white(),
        ),
    }
}

/// Every pixel of a sheet is either fully transparent or opaque white.
pub proof fn lemma_two_tones(font: Map<char, Bitmap>)
    ensures
        forall|p: (int, int)| #[trigger]
            sheet(font).contains_key(p) ==> sheet(font)[p] == Color::transparent() || sheet(
                font,
            )[p] == Color::white(),
{
}

/// A sheet pixel that no glyph has ink on is transparent.
pub proof fn lemma_blank_outside_ink(font: Map<char, Bitmap>)
    ensures
        forall|p: (int, int)| #[trigger]
            sheet(font).contains_key(p) && !inked(font, p.0, p.1) ==> sheet(font)[p]
                == Color::transparent(),
{
}

/// Pixel `(dx, dy)` of the cell of a printable code point is on the sheet, and
/// it is white exactly if that pixel of the code point's glyph is lit.
pub proof fn lemma_cell_shows_glyph(font: Map<char, Bitmap>, code: char, dx: int, dy: int)
    requires
        glyphs_wf(font),
        complete(font),
        printable(code),
        0 <= dx < cell_width(font),
        0 <= dy < cell_height(font),
    ensures
        sheet(font).contains_key(cell_position(font, code, dx, dy)),
        sheet(font)[cell_position(font, code, dx, dy)] == tone(font[code].lit(dx, dy)),
{
    let width = cell_width(font) as int;
    let height = cell_height(font) as int;
    let p = cell_position(font, code, dx, dy);
    lemma_cell_inside(width, COLUMNS as int, column_of(code));
    lemma_cell_inside(height, ROWS as int, row_of(code));
    assert(inked_by(font, code, p.0, p.1) == font[code].lit(dx, dy));
    if inked(font, p.0, p.1) {
        let other = choose|other: char| printable(other) && #[trigger] inked_by(
            font,
            other,
            p.0,
            p.1,
        );
        assert(conforms(font, other));
        assert(font[other].wf());
        let ox = p.0 - width * column_of(other);
        let oy = p.1 - height * row_of(other);
        assert(font[other].on.contains((ox, oy)));
        lemma_same_cell(width, column_of(code), dx, column_of(other), ox);
        lemma_same_cell(height, row_of(code), dy, row_of(other), oy);
        lemma_cells_differ(code, other);
    }
}

/// The cell of a printable code point whose glyph has no lit pixel is
/// transparent throughout.
pub proof fn lemma_blank_glyph_cell_clear(font: Map<char, Bitmap>, code: char, dx: int, dy: int)
    requires
        glyphs_wf(font),
        complete(font),
        printable(code),
        forall|x: int, y: int| !#[trigger] font[code].lit(x, y),
        0 <= dx < cell_width(font),
        0 <= dy < cell_height(font),
    ensures
        sheet(font).contains_key(cell_position(font, code, dx, dy)),
        sheet(font)[cell_position(font, code, dx, dy)] == Color::transparent(),
{
    lemma_cell_shows_glyph(font, code, dx, dy);
    assert(!font[code].lit(dx, dy));
}

/// The last cell of the sheet, which no code point has, is transparent
/// throughout.
pub proof fn lemma_spare_cell_clear(font: Map<char, Bitmap>, dx: int, dy: int)
    requires
        glyphs_wf(font),
        complete(font),
        0 <= dx < cell_width(font),
        0 <= dy < cell_height(font),
    ensures
        sheet(font).contains_key(
            (
                cell_width(font) * (COLUMNS - 1) + dx,
                cell_height(font) * (ROWS - 1) + dy,
            ),
        ),
        sheet(font)[(
            cell_width(font) * (COLUMNS - 1) + dx,
            cell_height(font) * (ROWS - 1) + dy,
        )] == Color::transparent(),
{
    let width = cell_width(font) as int;
    let height = cell_height(font) as int;
    let p = (width * (COLUMNS - 1) + dx, height * (ROWS - 1) + dy);
    lemma_cell_inside(width, COLUMNS as int, COLUMNS - 1);
    lemma_cell_inside(height, ROWS as int, ROWS - 1);
    if inked(font, p.0, p.1) {
        let other = choose|other: char| printable(other) && #[trigger] inked_by(
            font,
            other,
            p.0,
            p.1,
        );
        assert(conforms(font, other));
        assert(font[other].wf());
        let ox = p.0 - width * column_of(other);
        let oy = p.1 - height * row_of(other);
        assert(font[other].on.contains((ox, oy)));
        lemma_same_cell(width, COLUMNS - 1, dx, column_of(other), ox);
        lemma_same_cell(height, ROWS - 1, dy, row_of(other), oy);
    }
}

/// Cutting a sheet back into its cells and reading white as on gives back each
/// printable glyph of the font, pixel for pixel.
pub proof fn lemma_sheet_round_trip(font: Map<char, Bitmap>, code: char)
    requires
        glyphs_wf(font),
        complete(font),
        printable(code),
    ensures
        sliced(sheet(font), cell_width(font), cell_height(font), code) == font[code],
{
    let read = sliced(sheet(font), cell_width(font), cell_height(font), code);
    assert(conforms(font, code));
    assert(font[code].wf());
    assert forall|q: (int, int)| read.on.contains(q) == font[code].on.contains(q) by {
        if 0 <= q.0 < cell_width(font) && 0 <= q.1 < cell_height(font) {
            lemma_cell_shows_glyph(font, code, q.0, q.1);
        }
    }
    assert(read.on =~= font[code].on);
}

/// A font whose printable glyphs are of one size, and which lacks the glyph of
/// exactly one printable code point, fails with that code point reported
/// missing.
pub proof fn lemma_one_glyph_missing(font: Map<char, Bitmap>, code: char)
    requires
        printable(code),
        forall|other: char|
            printable(other) ==> (#[trigger] font.contains_key(other) <==> other != code),
        forall|a: char, b: char|
            printable(a) && printable(b) && a != code && b != code ==> #[trigger] same_size(
                font[a],
                font[b],
            ),
    ensures
        failure(font) == Some(ConvertError::GlyphMissing(code)),
{
    assert(!font.contains_key(code));
    assert forall|earlier: char|
        printable(earlier) && index_of(earlier) < index_of(code) implies #[trigger] conforms(
        font,
        earlier,
    ) by {
        assert(printable(' '));
        assert(font.contains_key(earlier));
        assert(same_size(font[earlier], font[' ']));
    }
    lemma_first_failure(font, code);
}

} // verus!
