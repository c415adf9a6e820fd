use shell_use::render::svg::Color;
use shell_use::xterm::{
    attrs, clamp_cursor, color, decode_rows, underline, UnderlineStyle, BG_PALETTE, FG_PALETTE,
    FG_RGB,
};

#[test]
fn colors_decode_by_mode_bits() {
    assert_eq!(color(0x00ab_cdef, FG_RGB, FG_PALETTE, FG_RGB), Some(Color::Rgb(0xab, 0xcd, 0xef)));
    assert_eq!(color(300, FG_PALETTE, FG_PALETTE, FG_RGB), Some(Color::Idx(44)));
    assert_eq!(color(5, FG_PALETTE | FG_RGB, FG_PALETTE, FG_RGB), Some(Color::Idx(5)));
    assert_eq!(color(5, 0, FG_PALETTE, FG_RGB), None);
}

#[test]
fn underline_and_attrs_decode() {
    assert_eq!(underline(3), UnderlineStyle::Curly);
    assert_eq!(underline(0), UnderlineStyle::Off);
    assert_eq!(underline(9), UnderlineStyle::Off);
    let a = attrs(1 | 8 | 64);
    assert!(a.bold && a.inverse && a.blink);
    assert!(!a.dim && !a.italic && !a.invisible && !a.strike);
}

#[test]
fn rows_are_cut_at_the_column_count() {
    // Five cells at two columns: two full rows; the fifth cell is dropped.
    let chars = "a\0\0b\0c\0d";
    let mut meta = Vec::new();
    for i in 0..5 {
        let width = if i == 2 { 0 } else { 1 };
        meta.extend_from_slice(&[width, 1, 2, 0, 1, FG_PALETTE | BG_PALETTE | 2]);
    }
    meta.push(7); // a partial sixth cell
    let rows = decode_rows(chars, &meta, 2);
    assert_eq!(rows.len(), 2);
    assert!(rows.iter().all(|r| r.len() == 2));
    assert_eq!(rows[0][0].ch, "a");
    assert_eq!(rows[0][1].ch, " ");
    assert_eq!(rows[1][0].ch, "");
    assert_eq!(rows[1][1].ch, "c");
    assert_eq!(rows[0][0].fg, Some(Color::Idx(1)));
    assert_eq!(rows[0][0].bg, Some(Color::Idx(2)));
    assert_eq!(rows[0][0].underline, UnderlineStyle::Single);
    assert!(rows[0][0].attrs.dim);
}

#[test]
fn cells_past_the_text_render_blank() {
    let meta = vec![1, 0, 0, 0, 0, 0, 1, 0, 0, 0, 0, 0];
    let rows = decode_rows("x", &meta, 2);
    assert_eq!(rows[0][0].ch, "x");
    assert_eq!(rows[0][1].ch, " ");
    assert!(decode_rows("", &[], 0).is_empty());
}

#[test]
fn cursor_is_clamped_to_the_screen() {
    assert_eq!(clamp_cursor(5, 2, 80, 24), (5, 2));
    assert_eq!(clamp_cursor(-3, 100, 80, 24), (0, 23));
    assert_eq!(clamp_cursor(70_000, 1, 80, 24), (79, 1));
    assert_eq!(clamp_cursor(65_540, 1, 80, 24), (4, 1));
    assert_eq!(clamp_cursor(3, 3, 0, 0), (0, 0));
}
