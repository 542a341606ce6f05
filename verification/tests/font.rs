use mono_lcd::font::{glyph, is_printable, ASCII, FIRST, LAST, WIDTH};

#[test]
fn printable_range_is_space_to_tilde() {
    assert_eq!(FIRST, 0x20);
    assert_eq!(LAST, 0x7e);
    assert!(is_printable(0x20));
    assert!(is_printable(0x7e));
    assert!(!is_printable(0x1f));
    assert!(!is_printable(0x7f));
    assert!(!is_printable(0x00));
    assert!(!is_printable(0xff));
}

#[test]
fn glyphs_are_looked_up_by_code() {
    assert_eq!(glyph(b' '), Some([0x00, 0x00, 0x00, 0x00, 0x00]));
    assert_eq!(glyph(b'A'), Some([0x7e, 0x11, 0x11, 0x11, 0x7e]));
    assert_eq!(glyph(b'A'), Some(ASCII[33]));
    assert_eq!(glyph(b'~'), Some(ASCII[94]));
    assert_eq!(glyph(b'0'), Some([0x3e, 0x51, 0x49, 0x45, 0x3e]));
}

#[test]
fn codes_without_a_glyph_have_none() {
    assert_eq!(glyph(0x1f), None);
    assert_eq!(glyph(0x7f), None);
    assert_eq!(glyph(b'\n'), None);
    assert_eq!(glyph(0x80), None);
}

#[test]
fn every_printable_code_has_a_glyph_of_five_columns() {
    assert_eq!(WIDTH, 5);
    assert_eq!(ASCII.len(), 95);
    for c in 0..=255u8 {
        match glyph(c) {
            Some(g) => {
                assert!(is_printable(c));
                assert_eq!(g.len(), WIDTH);
                assert_eq!(g, ASCII[(c - FIRST) as usize]);
            }
            None => assert!(!is_printable(c)),
        }
    }
}
