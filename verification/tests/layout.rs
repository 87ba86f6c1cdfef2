use bdf_to_image::layout::{fits, COLUMNS, FIRST, LAST, ROWS};

fn fits_by_definition(width: u32, height: u32) -> bool {
    let sheet_width = COLUMNS as u128 * width as u128;
    let sheet_height = ROWS as u128 * height as u128;
    sheet_width <= u32::MAX as u128
        && sheet_height <= u32::MAX as u128
        && 4 * sheet_width <= usize::MAX as u128
        && 4 * sheet_width * sheet_height <= isize::MAX as u128
}

#[test]
fn grid_is_sixteen_by_six_from_space_to_tilde() {
    assert_eq!(COLUMNS, 16);
    assert_eq!(ROWS, 6);
    assert_eq!(FIRST, b' ');
    assert_eq!(LAST, b'~');
    assert_eq!(LAST - FIRST + 1, 95);
}

#[test]
fn usual_glyph_sizes_fit() {
    assert!(fits(5, 7));
    assert!(fits(8, 16));
    assert!(fits(1, 1));
    assert!(fits(0, 0));
    assert!(fits(0, 7));
    assert!(fits(5, 0));
}

#[test]
fn sheet_width_must_fit_in_u32() {
    assert_eq!(fits(0x0FFF_FFFF, 0), 0xFFFF_FFF0u128 * 4 <= usize::MAX as u128);
    assert!(!fits(0x1000_0000, 0));
    assert!(!fits(u32::MAX, 0));
}

#[test]
fn sheet_height_must_fit_in_u32() {
    assert!(fits(0, 0x2AAA_AAAA));
    assert!(!fits(0, 0x2AAA_AAAB));
    assert!(!fits(0, u32::MAX));
}

#[test]
fn sheet_bytes_must_fit_in_isize() {
    let cases: [(u32, u32); 8] = [
        (0x0FFF_FFFF, 0x2AAA_AAAA),
        (0x0FFF_FFFF, 1),
        (1, 0x2AAA_AAAA),
        (1 << 20, 1 << 20),
        (1 << 14, 1 << 14),
        (1 << 13, 1 << 12),
        (74898, 1 << 12),
        (74899, 1 << 12),
    ];
    for (width, height) in cases {
        assert_eq!(fits(width, height), fits_by_definition(width, height));
    }
    assert!(!fits(0x0FFF_FFFF, 0x2AAA_AAAA));
}

#[test]
fn sheet_row_bytes_must_fit_in_usize() {
    let widths: [u32; 6] = [0x03FF_FFFF, 0x0400_0000, 0x0400_0001, 0x0800_0000, 0x0FFF_FFFF, 1];
    for width in widths {
        let row_bytes = 4 * 16 * width as u128;
        assert_eq!(fits(width, 0), row_bytes <= usize::MAX as u128);
        assert_eq!(fits(width, 0), fits_by_definition(width, 0));
    }
    assert!(fits(0x03FF_FFFF, 0));
}
