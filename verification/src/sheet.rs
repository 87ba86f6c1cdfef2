//! Composing the glyph sheet.

use crate::canvas::{canvas_dimensions, canvas_pixels, positions, Canvas, Color};
use crate::error::ConvertError;
use crate::font::{lemma_code_numbers_differ, Font};
use crate::glyph::{Bitmap, Glyph};
use crate::laws::lemma_cell_shows_glyph;
use crate::layout::{
    cell_height, cell_position, cell_width, column_of, fits, index_of, lemma_cell_inside,
    lemma_sheet_area, printable, row_of, sheet_fits, COLUMNS, FIRST, LAST, ROWS,
};
use vstd::prelude::*;

verus! {

/// Whether the font has a glyph for `code` of the size of its space glyph.
pub open spec fn conforms(font: Map<char, Bitmap>, code: char) -> bool {
    &&& font.contains_key(code)
    &&& font[code].width == cell_width(font)
    &&& font[code].height == cell_height(font)
}

/// Whether the font has a glyph of one size for every printable code point.
pub open spec fn complete(font: Map<char, Bitmap>) -> bool {
    forall|code: char| printable(code) ==> #[trigger] conforms(font, code)
}

/// Whether `code` is the first printable code point, in ascending order, whose
/// glyph is missing or of another size than the space glyph.
pub open spec fn fails_first_at(font: Map<char, Bitmap>, code: char) -> bool {
    &&& printable(code)
    &&& !conforms(font, code)
    &&& forall|earlier: char|
        printable(earlier) && index_of(earlier) < index_of(code) ==> #[trigger] conforms(
            font,
            earlier,
        )
}

/// What is wrong with the glyph of `code`, given that something is.
pub open spec fn failure_at(font: Map<char, Bitmap>, code: char) -> ConvertError {
    if font.contains_key(code) {
        ConvertError::GeometryMismatch {
            code,
            got: (font[code].width as u32, font[code].height as u32),
            expected: (cell_width(font) as u32, cell_height(font) as u32),
        }
    } else {
        ConvertError::GlyphMissing(code)
    }
}

/// The error that stops the conversion of `font`, if any does: the fault of the
/// first printable code point that has one.
pub open spec fn failure(font: Map<char, Bitmap>) -> Option<ConvertError> {
    if complete(font) {
        None
    } else {
        Some(failure_at(font, choose|code: char| fails_first_at(font, code)))
    }
}

/// Whether the glyph of `code`, placed in its cell, has ink at sheet position
/// `(x, y)`.
pub open spec fn inked_by(font: Map<char, Bitmap>, code: char, x: int, y: int) -> bool {
    font[code].lit(x - cell_width(font) * column_of(code), y - cell_height(font) * row_of(code))
}

/// Whether any printable glyph, placed in its cell, has ink at sheet position
/// `(x, y)`.
pub open spec fn inked(font: Map<char, Bitmap>, x: int, y: int) -> bool {
    exists|code: char| printable(code) && #[trigger] inked_by(font, code, x, y)
}

/// The pixels of the glyph sheet of `font`: opaque white where a glyph has ink,
/// transparent everywhere else.
pub open spec fn sheet(font: Map<char, Bitmap>) -> Map<(int, int), Color> {
    Map::new(
        |p: (int, int)| positions(COLUMNS * cell_width(font), ROWS * cell_height(font)).contains(p),
        |p: (int, int)|
            if inked(font, p.0, p.1) {
                Color::white()
            } else {
                Color::transparent()
            },
    )
}

/// A code point names the first fault of a font only if no other does.
pub proof fn lemma_first_failure(font: Map<char, Bitmap>, code: char)
    requires
        fails_first_at(font, code),
    ensures
        failure(font) == Some(failure_at(font, code)),
{
    let found = choose|code: char| fails_first_at(font, code);
    assert(conforms(font, found) || index_of(found) >= index_of(code));
    assert(conforms(font, code) || index_of(code) >= index_of(found));
    lemma_code_numbers_differ(found, code);
}

/// The ink of a glyph whose top left pixel sits at `(x0, y0)`: opaque white at
/// each position that one of its lit pixels falls on.
pub open spec fn ink(glyph: Bitmap, x0: int, y0: int) -> Map<(int, int), Color> {
    Map::new(|p: (int, int)| glyph.lit(p.0 - x0, p.1 - y0), |p: (int, int)| Color::white())
}

/// The part of [`ink`] that comes from the first `rows` rows of the glyph and
/// the first `columns` pixels of the row after them.
spec fn ink_so_far(glyph: Bitmap, x0: int, y0: int, rows: int, columns: int) -> Map<
    (int, int),
    Color,
> {
    Map::new(
        |p: (int, int)|
            glyph.lit(p.0 - x0, p.1 - y0) && (p.1 - y0 < rows || (p.1 - y0 == rows && p.0 - x0
                < columns)),
        |p: (int, int)| Color::white(),
    )
}

/// Paints the lit pixels of `glyph` white, its top left pixel at `(x0, y0)`.
/// Nothing else on the canvas changes.
pub fn stamp(canvas: &mut Canvas, glyph: &Glyph, x0: u32, y0: u32)
    requires
        x0 + glyph@.width <= old(canvas).width(),
        y0 + glyph@.height <= old(canvas).height(),
    ensures
        canvas_dimensions(*final(canvas)) == canvas_dimensions(*old(canvas)),
        canvas_pixels(*final(canvas)) == canvas_pixels(*old(canvas)).union_prefer_right(
            ink(glyph@, x0 as int, y0 as int),
        ),
{
    let width = glyph.width();
    let height = glyph.height();
    let ghost before = canvas_pixels(*canvas);
    proof {
        glyph.lemma_view_wf();
        assert(before.union_prefer_right(ink_so_far(glyph@, x0 as int, y0 as int, 0, 0))
            =~= before);
    }
    let mut dy: u32 = 0;
    while dy < height
        invariant
            dy <= height,
            width == glyph@.width,
            height == glyph@.height,
            glyph@.wf(),
            canvas_dimensions(*canvas) == canvas_dimensions(*old(canvas)),
            x0 + width <= canvas.width(),
            y0 + height <= canvas.height(),
            canvas_pixels(*canvas) == before.union_prefer_right(
                ink_so_far(glyph@, x0 as int, y0 as int, dy as int, 0),
            ),
        decreases height - dy,
    {
        let mut dx: u32 = 0;
        while dx < width
            invariant
                dx <= width,
                dy < height,
                width == glyph@.width,
                height == glyph@.height,
                glyph@.wf(),
                canvas_dimensions(*canvas) == canvas_dimensions(*old(canvas)),
                x0 + width <= canvas.width(),
                y0 + height <= canvas.height(),
                canvas_pixels(*canvas) == before.union_prefer_right(
                    ink_so_far(glyph@, x0 as int, y0 as int, dy as int, dx as int),
                ),
            decreases width - dx,
        {
            if glyph.get(dx, dy) {
                canvas.paint(x0 + dx, y0 + dy, Color::white());
            }
            proof {
                let now = ink_so_far(glyph@, x0 as int, y0 as int, dy as int, dx as int);
                let next = ink_so_far(glyph@, x0 as int, y0 as int, dy as int, dx + 1);
                let here = ((x0 + dx) as int, (y0 + dy) as int);
                assert(here.0 - x0 == dx && here.1 - y0 == dy);
                if glyph@.lit(dx as int, dy as int) {
                    assert(next =~= now.insert(here, Color::white()));
                    assert(before.union_prefer_right(next) =~= before.union_prefer_right(
                        now,
                    ).insert(here, Color::white()));
                } else {
                    assert(next =~= now);
                }
            }
            dx += 1;
        }
        proof {
            assert(ink_so_far(glyph@, x0 as int, y0 as int, dy as int, width as int)
                =~= ink_so_far(glyph@, x0 as int, y0 as int, dy + 1, 0));
        }
        dy += 1;
    }
    proof {
        assert(ink_so_far(glyph@, x0 as int, y0 as int, height as int, 0) =~= ink(
            glyph@,
            x0 as int,
            y0 as int,
        ));
    }
}

/// Whether one of the first `count` printable glyphs, placed in its cell, has
/// ink at sheet position `(x, y)`.
spec fn inked_among(font: Map<char, Bitmap>, count: int, x: int, y: int) -> bool {
    exists|code: char|
        printable(code) && index_of(code) < count && #[trigger] inked_by(font, code, x, y)
}

/// The sheet with only the first `count` printable glyphs on it.
spec fn sheet_so_far(font: Map<char, Bitmap>, count: int) -> Map<(int, int), Color> {
    Map::new(
        |p: (int, int)| positions(COLUMNS * cell_width(font), ROWS * cell_height(font)).contains(p),
        |p: (int, int)|
            if inked_among(font, count, p.0, p.1) {
                Color::white()
            } else {
                Color::transparent()
            },
    )
}

/// Stamping the glyph of `code` into its cell adds it to the sheet.
proof fn lemma_next_glyph(font: Map<char, Bitmap>, code: char)
    requires
        printable(code),
        conforms(font, code),
        font[code].wf(),
    ensures
        sheet_so_far(font, index_of(code)).union_prefer_right(
            ink(
                font[code],
                cell_width(font) * column_of(code),
                cell_height(font) * row_of(code),
            ),
        ) == sheet_so_far(font, index_of(code) + 1),
{
    let count = index_of(code);
    let x0 = cell_width(font) * column_of(code);
    let y0 = cell_height(font) * row_of(code);
    let stamped = sheet_so_far(font, count).union_prefer_right(ink(font[code], x0, y0));
    let next = sheet_so_far(font, count + 1);
    assert forall|p: (int, int)| stamped.contains_key(p) == next.contains_key(p) by {
        if inked_by(font, code, p.0, p.1) {
            lemma_cell_inside(cell_width(font) as int, COLUMNS as int, column_of(code));
            lemma_cell_inside(cell_height(font) as int, ROWS as int, row_of(code));
        }
    }
    assert forall|p: (int, int)| next.contains_key(p) implies stamped[p] == next[p] by {
        let before = inked_among(font, count, p.0, p.1);
        let after = inked_among(font, count + 1, p.0, p.1);
        let here = inked_by(font, code, p.0, p.1);
        assert(here == ink(font[code], x0, y0).contains_key(p));
        if after {
            let other = choose|other: char|
                printable(other) && index_of(other) < count + 1 && #[trigger] inked_by(
                    font,
                    other,
                    p.0,
                    p.1,
                );
            lemma_code_numbers_differ(other, code);
            assert(before || here);
        }
        assert(after == (before || here));
    }
    assert(stamped =~= next);
}

/// Lays the printable ASCII glyphs of `font` out on a sheet of 16 by 6 cells,
/// each the size of the space glyph: code point `0x20 + i` in column
/// `i % 16` of row `i / 16`. Lit glyph pixels come out opaque white, all other
/// pixels transparent.
///
/// Fails at the first code point, from the space up to the tilde, that has no
/// glyph or one of another size than the space glyph.
///
/// The sheet must be small enough to address and allocate; [`try_convert`]
/// tests that first.
pub fn convert(font: Font) -> (result: Result<Canvas, ConvertError>)
    requires
        font@.contains_key(' ') ==> sheet_fits(cell_width(font@), cell_height(font@)),
    ensures
        result is Ok <==> complete(font@),
        result matches Err(error) ==> failure(font@) == Some(error),
        result matches Ok(canvas) ==> {
            &&& canvas.width() == COLUMNS * cell_width(font@)
            &&& canvas.height() == ROWS * cell_height(font@)
            &&& canvas_pixels(canvas) == sheet(font@)
        },
        // No colour but the two.
        result matches Ok(canvas) ==> forall|p: (int, int)| #[trigger]
            canvas_pixels(canvas).contains_key(p) ==> canvas_pixels(canvas)[p]
                == Color::transparent() || canvas_pixels(canvas)[p] == Color::white(),
        // Each cell shows its glyph.
        result matches Ok(canvas) ==> forall|code: char, dx: int, dy: int|
            printable(code) && 0 <= dx < cell_width(font@) && 0 <= dy < cell_height(font@)
                ==> (canvas_pixels(canvas)[#[trigger] cell_position(font@, code, dx, dy)]
                == Color::white() <==> font@[code].lit(dx, dy)),
        // Where no glyph has ink, nothing is painted.
        result matches Ok(canvas) ==> forall|p: (int, int)| #[trigger]
            canvas_pixels(canvas).contains_key(p) && !inked(font@, p.0, p.1) ==> canvas_pixels(
                canvas,
            )[p] == Color::transparent(),
{
    let space = match font.get(' ') {
        Some(glyph) => glyph,
        None => {
            proof {
                lemma_first_failure(font@, ' ');
            }
            return Err(ConvertError::GlyphMissing(' '));
        },
    };
    let width = space.width();
    let height = space.height();
    proof {
        lemma_sheet_area(width as int, height as int);
    }
    let mut canvas = Canvas::allocate(COLUMNS * width, ROWS * height);
    proof {
        font.lemma_view_wf();
        assert(canvas_pixels(canvas) =~= sheet_so_far(font@, 0));
    }
    let mut number: u8 = FIRST;
    while number <= LAST
        invariant
            FIRST <= number <= LAST + 1,
            font@.contains_key(' '),
            width == cell_width(font@),
            height == cell_height(font@),
            sheet_fits(cell_width(font@), cell_height(font@)),
            forall|code: char| #[trigger] font@.contains_key(code) ==> font@[code].wf(),
            canvas.width() == COLUMNS * width,
            canvas.height() == ROWS * height,
            forall|earlier: char|
                printable(earlier) && index_of(earlier) < number - FIRST ==> #[trigger] conforms(
                    font@,
                    earlier,
                ),
            canvas_pixels(canvas) == sheet_so_far(font@, number - FIRST),
        decreases LAST + 1 - number,
    {
        let code = number as char;
        let index = (number - FIRST) as u32;
        proof {
            lemma_cell_inside(width as int, COLUMNS as int, column_of(code));
            lemma_cell_inside(height as int, ROWS as int, row_of(code));
        }
        let x0 = width * (index % COLUMNS);
        let y0 = height * (index / COLUMNS);
        let glyph = match font.get(code) {
            Some(glyph) => glyph,
            None => {
                proof {
                    lemma_first_failure(font@, code);
                }
                return Err(ConvertError::GlyphMissing(code));
            },
        };
        if glyph.width() != width || glyph.height() != height {
            proof {
                lemma_first_failure(font@, code);
            }
            return Err(
                ConvertError::GeometryMismatch {
                    code,
                    got: (glyph.width(), glyph.height()),
                    expected: (width, height),
                },
            );
        }
        stamp(&mut canvas, glyph, x0, y0);
        proof {
            lemma_next_glyph(font@, code);
            assert forall|earlier: char|
                printable(earlier) && index_of(earlier) < number + 1 - FIRST implies conforms(
                font@,
                earlier,
            ) by {
                lemma_code_numbers_differ(earlier, code);
            }
        }
        number += 1;
    }
    proof {
        assert(sheet_so_far(font@, LAST + 1 - FIRST) =~= sheet(font@)) by {
            assert forall|p: (int, int)|
                inked_among(font@, LAST + 1 - FIRST, p.0, p.1) == inked(font@, p.0, p.1) by {}
        }
        assert forall|code: char, dx: int, dy: int|
            printable(code) && 0 <= dx < cell_width(font@) && 0 <= dy < cell_height(
                font@,
            ) implies (sheet(font@)[#[trigger] cell_position(font@, code, dx, dy)]
            == Color::white() <==> font@[code].lit(dx, dy)) by {
            lemma_cell_shows_glyph(font@, code, dx, dy);
        }
    }
    Ok(canvas)
}

/// [`convert`] for any font: `None` where the font has a space glyph and the
/// sheet for glyphs of its size would be too large to address or allocate,
/// and otherwise what `convert` gives.
pub fn try_convert(font: Font) -> (result: Option<Result<Canvas, ConvertError>>)
    ensures
        result is None <==> font@.contains_key(' ') && !sheet_fits(
            cell_width(font@),
            cell_height(font@),
        ),
        result matches Some(outcome) ==> {
            &&& outcome is Ok <==> complete(font@)
            &&& outcome matches Err(error) ==> failure(font@) == Some(error)
            &&& outcome matches Ok(canvas) ==> {
                &&& canvas.width() == COLUMNS * cell_width(font@)
                &&& canvas.height() == ROWS * cell_height(font@)
                &&& canvas_pixels(canvas) == sheet(font@)
            }
        },
{
    match font.get(' ') {
        Some(space) => {
            if !fits(space.width(), space.height()) {
                return None;
            }
        },
        None => {},
    }
    Some(convert(font))
}

} // verus!
