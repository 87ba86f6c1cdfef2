use bdf_to_image::canvas::{Canvas, Color};
use bdf_to_image::error::ConvertError;
use bdf_to_image::font::Font;
use bdf_to_image::glyph::Glyph;
use bdf_to_image::sheet::{convert, stamp, try_convert};

const WHITE: Color = Color { red: 255, green: 255, blue: 255, alpha: 255 };
const CLEAR: Color = Color { red: 0, green: 0, blue: 0, alpha: 0 };

fn glyph_of(width: u32, height: u32, lit: &dyn Fn(u32, u32) -> bool) -> Glyph {
    let mut glyph = Glyph::new(width, height).unwrap();
    for y in 0..height {
        for x in 0..width {
            if lit(x, y) {
                glyph.set(x, y, true);
            }
        }
    }
    glyph
}

fn font_of(width: u32, height: u32, lit: &dyn Fn(char, u32, u32) -> bool) -> Font {
    let mut font = Font::new();
    for code in ' '..='~' {
        font.insert(code, glyph_of(width, height, &|x, y| lit(code, x, y)));
    }
    font
}

fn font_without(width: u32, height: u32, missing: char) -> Font {
    let mut font = Font::new();
    for code in ' '..='~' {
        if code != missing {
            font.insert(code, glyph_of(width, height, &|_, _| true));
        }
    }
    font
}

fn speckled(code: char, x: u32, y: u32) -> bool {
    (code as u32 * 7 + x * 3 + y * 5) % 4 < 2
}

fn origin(code: char, width: u32, height: u32) -> (u32, u32) {
    let index = code as u32 - 0x20;
    (width * (index % 16), height * (index / 16))
}

fn assert_cell_shows(
    canvas: &Canvas,
    code: char,
    width: u32,
    height: u32,
    lit: &dyn Fn(char, u32, u32) -> bool,
) {
    let (x0, y0) = origin(code, width, height);
    for dy in 0..height {
        for dx in 0..width {
            let expected = if lit(code, dx, dy) { WHITE } else { CLEAR };
            assert_eq!(canvas.pixel(x0 + dx, y0 + dy), Some(expected));
        }
    }
}

#[test]
fn all_on_font_gives_an_all_white_canvas() {
    let canvas = convert(font_of(5, 7, &|_, _, _| true)).unwrap();
    assert_eq!((canvas.width(), canvas.height()), (80, 42));
    for y in 0..42 {
        for x in 0..75 {
            assert_eq!(canvas.pixel(x, y), Some(WHITE));
        }
    }
    for y in 0..35 {
        for x in 75..80 {
            assert_eq!(canvas.pixel(x, y), Some(WHITE));
        }
    }
}

#[test]
fn all_on_font_leaves_only_the_spare_cell_clear() {
    let canvas = convert(font_of(5, 7, &|_, _, _| true)).unwrap();
    for y in 0..42 {
        for x in 0..80 {
            let spare = x >= 75 && y >= 35;
            assert_eq!(canvas.pixel(x, y), Some(if spare { CLEAR } else { WHITE }));
        }
    }
}

#[test]
fn blank_space_leaves_the_top_left_cell_clear() {
    let lit = |code: char, x: u32, y: u32| code != ' ' && speckled(code, x, y);
    let canvas = convert(font_of(8, 16, &lit)).unwrap();
    assert_eq!((canvas.width(), canvas.height()), (128, 96));
    for y in 0..16 {
        for x in 0..8 {
            assert_eq!(canvas.pixel(x, y), Some(CLEAR));
        }
    }
    for code in '!'..='~' {
        assert_cell_shows(&canvas, code, 8, 16, &lit);
    }
}

#[test]
fn missing_capital_a_is_reported() {
    let error = convert(font_without(5, 7, 'A')).unwrap_err();
    assert_eq!(error, ConvertError::GlyphMissing('A'));
    assert_eq!(error.code(), 'A');
}

#[test]
fn wider_capital_z_is_reported() {
    let mut font = font_of(5, 7, &|_, _, _| true);
    font.insert('Z', Glyph::new(6, 7).unwrap());
    let error = convert(font).unwrap_err();
    assert_eq!(
        error,
        ConvertError::GeometryMismatch { code: 'Z', got: (6, 7), expected: (5, 7) }
    );
    assert_eq!(error.code(), 'Z');
}

#[test]
fn taller_glyph_is_reported() {
    let mut font = font_of(5, 7, &|_, _, _| false);
    font.insert('~', Glyph::new(5, 8).unwrap());
    assert_eq!(
        convert(font).unwrap_err(),
        ConvertError::GeometryMismatch { code: '~', got: (5, 8), expected: (5, 7) }
    );
}

#[test]
fn transposed_glyph_is_reported() {
    let mut font = font_of(5, 7, &|_, _, _| false);
    font.insert('!', Glyph::new(7, 5).unwrap());
    assert_eq!(
        convert(font).unwrap_err(),
        ConvertError::GeometryMismatch { code: '!', got: (7, 5), expected: (5, 7) }
    );
}

#[test]
fn single_lit_pixel_lands_in_its_cell() {
    let canvas = convert(font_of(5, 7, &|code, x, y| code == '!' && (x, y) == (2, 1))).unwrap();
    assert_eq!((canvas.width(), canvas.height()), (80, 42));
    assert_eq!(canvas.pixel(7, 1), Some(WHITE));
    for y in 0..7 {
        for x in 5..10 {
            if (x, y) != (7, 1) {
                assert_eq!(canvas.pixel(x, y), Some(CLEAR));
            }
        }
    }
    for y in 0..42 {
        for x in 0..80 {
            assert_eq!(canvas.pixel(x, y) == Some(WHITE), (x, y) == (7, 1));
        }
    }
}

#[test]
fn one_pixel_glyphs_give_a_16_by_6_canvas() {
    let canvas = convert(font_of(1, 1, &|code, _, _| code as u32 % 2 == 1)).unwrap();
    assert_eq!((canvas.width(), canvas.height()), (16, 6));
    for index in 0..96u32 {
        let lit = index < 95 && (0x20 + index) % 2 == 1;
        assert_eq!(canvas.pixel(index % 16, index / 16), Some(if lit { WHITE } else { CLEAR }));
    }
}

#[test]
fn blank_tilde_leaves_the_bottom_right_clear() {
    let canvas = convert(font_of(5, 7, &|code, _, _| code != '~')).unwrap();
    for y in 35..42 {
        for x in 70..80 {
            assert_eq!(canvas.pixel(x, y), Some(CLEAR));
        }
        for x in 0..70 {
            assert_eq!(canvas.pixel(x, y), Some(WHITE));
        }
    }
}

#[test]
fn any_single_missing_code_point_is_reported() {
    for missing in ' '..='~' {
        let error = convert(font_without(3, 2, missing)).unwrap_err();
        assert_eq!(error, ConvertError::GlyphMissing(missing));
    }
}

#[test]
fn empty_font_misses_the_space() {
    assert_eq!(convert(Font::new()).unwrap_err(), ConvertError::GlyphMissing(' '));
}

#[test]
fn font_without_space_misses_the_space_whatever_else_is_wrong() {
    let mut font = font_without(5, 7, ' ');
    font.insert('!', Glyph::new(9, 9).unwrap());
    assert_eq!(convert(font).unwrap_err(), ConvertError::GlyphMissing(' '));
}

#[test]
fn first_fault_in_code_point_order_is_reported() {
    let mut font = font_without(5, 7, 'B');
    font.insert('A', Glyph::new(4, 7).unwrap());
    assert_eq!(
        convert(font).unwrap_err(),
        ConvertError::GeometryMismatch { code: 'A', got: (4, 7), expected: (5, 7) }
    );

    let mut other = font_without(5, 7, 'A');
    other.insert('B', Glyph::new(4, 7).unwrap());
    assert_eq!(convert(other).unwrap_err(), ConvertError::GlyphMissing('A'));
}

#[test]
fn glyphs_beyond_the_tilde_do_not_matter() {
    let mut font = font_of(3, 3, &speckled);
    font.insert('\u{7F}', Glyph::new(9, 9).unwrap());
    font.insert('\u{1F}', Glyph::new(1, 1).unwrap());
    font.insert('\u{E9}', glyph_of(4, 4, &|_, _| true));
    let canvas = convert(font).unwrap();
    assert_eq!((canvas.width(), canvas.height()), (48, 18));
    for code in ' '..='~' {
        assert_cell_shows(&canvas, code, 3, 3, &speckled);
    }
    for y in 15..18 {
        for x in 45..48 {
            assert_eq!(canvas.pixel(x, y), Some(CLEAR));
        }
    }
}

#[test]
fn canvas_is_sixteen_cells_wide_and_six_high() {
    let sizes: [(u32, u32); 5] = [(1, 1), (3, 4), (5, 7), (8, 16), (12, 1)];
    for (width, height) in sizes {
        let canvas = convert(font_of(width, height, &speckled)).unwrap();
        assert_eq!(canvas.width(), 16 * width);
        assert_eq!(canvas.height(), 6 * height);
    }
}

#[test]
fn only_clear_and_white_appear() {
    let canvas = convert(font_of(6, 9, &speckled)).unwrap();
    let mut white = 0;
    let mut clear = 0;
    for y in 0..canvas.height() {
        for x in 0..canvas.width() {
            let pixel = canvas.pixel(x, y).unwrap();
            assert!(pixel == WHITE || pixel == CLEAR);
            if pixel == WHITE {
                white += 1;
            } else {
                clear += 1;
            }
        }
    }
    assert!(white > 0);
    assert!(clear > 0);
    assert_eq!(white + clear, 96 * 54);
}

#[test]
fn each_cell_shows_its_glyph() {
    let canvas = convert(font_of(6, 9, &speckled)).unwrap();
    for code in ' '..='~' {
        assert_cell_shows(&canvas, code, 6, 9, &speckled);
    }
}

#[test]
fn pixels_without_ink_stay_clear() {
    let canvas = convert(font_of(4, 4, &|code, x, y| code == 'Q' && x == y)).unwrap();
    let (x0, y0) = origin('Q', 4, 4);
    assert_eq!((x0, y0), (4, 12));
    for y in 0..24 {
        for x in 0..64 {
            let inked = x >= x0 && y >= y0 && x - x0 < 4 && y - y0 < 4 && x - x0 == y - y0;
            assert_eq!(canvas.pixel(x, y), Some(if inked { WHITE } else { CLEAR }));
        }
    }
}

#[test]
fn glyphs_can_be_read_back_from_the_sheet() {
    let canvas = convert(font_of(7, 5, &speckled)).unwrap();
    let font = font_of(7, 5, &speckled);
    for code in ' '..='~' {
        let (x0, y0) = origin(code, 7, 5);
        let mut read = Glyph::new(7, 5).unwrap();
        for dy in 0..5 {
            for dx in 0..7 {
                read.set(dx, dy, canvas.pixel(x0 + dx, y0 + dy) == Some(WHITE));
            }
        }
        let glyph = font.get(code).unwrap();
        for dy in 0..5 {
            for dx in 0..7 {
                assert_eq!(read.get(dx, dy), glyph.get(dx, dy));
            }
        }
    }
}

#[test]
fn zero_width_glyphs_give_an_empty_canvas() {
    let canvas = convert(font_of(0, 7, &|_, _, _| false)).unwrap();
    assert_eq!((canvas.width(), canvas.height()), (0, 42));
    assert_eq!(canvas.pixel(0, 0), None);
    assert!(canvas.into_raw().is_empty());
}

#[test]
fn zero_height_glyphs_give_an_empty_canvas() {
    let canvas = convert(font_of(5, 0, &|_, _, _| false)).unwrap();
    assert_eq!((canvas.width(), canvas.height()), (80, 0));
    assert_eq!(canvas.pixel(0, 0), None);
    assert!(canvas.into_raw().is_empty());
}

#[test]
fn zero_sized_font_still_checks_its_glyphs() {
    let mut font = font_of(0, 0, &|_, _, _| false);
    font.insert('x', Glyph::new(0, 1).unwrap());
    assert_eq!(
        convert(font).unwrap_err(),
        ConvertError::GeometryMismatch { code: 'x', got: (0, 1), expected: (0, 0) }
    );
}

#[test]
fn try_convert_agrees_with_convert_where_the_sheet_fits() {
    let checked = try_convert(font_of(5, 7, &speckled)).unwrap().unwrap();
    let plain = convert(font_of(5, 7, &speckled)).unwrap();
    assert_eq!((checked.width(), checked.height()), (80, 42));
    assert_eq!(checked.into_raw(), plain.into_raw());

    let error = try_convert(font_without(5, 7, 'k')).unwrap().unwrap_err();
    assert_eq!(error, ConvertError::GlyphMissing('k'));
    let error = try_convert(Font::new()).unwrap().unwrap_err();
    assert_eq!(error, ConvertError::GlyphMissing(' '));
}

#[test]
fn try_convert_refuses_a_sheet_too_wide_for_u32() {
    let mut font = Font::new();
    font.insert(' ', Glyph::new(1 << 28, 0).unwrap());
    assert!(try_convert(font).is_none());

    let mut narrower = Font::new();
    narrower.insert(' ', Glyph::new((1 << 28) - 1, 0).unwrap());
    let row_bytes = 4 * 16 * ((1u128 << 28) - 1);
    match try_convert(narrower) {
        Some(outcome) => {
            assert!(row_bytes <= usize::MAX as u128);
            assert_eq!(outcome.unwrap_err(), ConvertError::GlyphMissing('!'));
        }
        None => assert!(row_bytes > usize::MAX as u128),
    }

    let mut narrow = Font::new();
    narrow.insert(' ', Glyph::new((1 << 26) - 1, 0).unwrap());
    assert_eq!(try_convert(narrow).unwrap().unwrap_err(), ConvertError::GlyphMissing('!'));
}

#[test]
fn try_convert_refuses_a_sheet_too_high_for_u32() {
    let mut font = Font::new();
    font.insert(' ', Glyph::new(0, 0x2AAA_AAAB).unwrap());
    assert!(try_convert(font).is_none());
}

#[test]
fn stamp_paints_the_lit_pixels_and_nothing_else() {
    let mut canvas = Canvas::new(32, 12).unwrap();
    let glyph = glyph_of(3, 2, &|x, y| (x + y) % 2 == 0);
    stamp(&mut canvas, &glyph, 10, 5);
    assert_eq!((canvas.width(), canvas.height()), (32, 12));
    for y in 0..12 {
        for x in 0..32 {
            let inked = (10..13).contains(&x) && (5..7).contains(&y) && (x - 10 + y - 5) % 2 == 0;
            assert_eq!(canvas.pixel(x, y), Some(if inked { WHITE } else { CLEAR }));
        }
    }
}

#[test]
fn stamp_keeps_what_was_painted_before() {
    let mut canvas = convert(font_of(2, 2, &|code, _, _| code == ' ')).unwrap();
    let glyph = glyph_of(2, 2, &|x, y| x == 1 && y == 1);
    stamp(&mut canvas, &glyph, 0, 0);
    stamp(&mut canvas, &glyph, 1, 1);
    for y in 0..12 {
        for x in 0..32 {
            let inked = (x < 2 && y < 2) || (x, y) == (2, 2);
            assert_eq!(canvas.pixel(x, y), Some(if inked { WHITE } else { CLEAR }));
        }
    }
}

#[test]
fn stamp_reaches_the_far_corner() {
    let mut canvas = Canvas::new(16, 6).unwrap();
    let glyph = glyph_of(2, 3, &|_, _| true);
    stamp(&mut canvas, &glyph, 14, 3);
    for y in 0..6 {
        for x in 0..16 {
            let inked = x >= 14 && y >= 3;
            assert_eq!(canvas.pixel(x, y), Some(if inked { WHITE } else { CLEAR }));
        }
    }
}
