use shell_use::render::svg::{dim, escape, hex, render_svg, Color, EmuCell};

fn cell(ch: &str, fg: Color, bg: Color) -> EmuCell {
    let mut c = EmuCell::blank();
    c.ch = ch.to_string();
    c.fg = fg;
    c.bg = bg;
    c
}

#[test]
fn emits_valid_svg_with_text_and_color() {
    let rows = vec![vec![
        cell("h", Color::Idx(1), Color::Default),
        cell("i", Color::Idx(1), Color::Default),
    ]];
    let svg = render_svg(&rows, 2);
    assert!(svg.starts_with("<svg"));
    assert!(svg.ends_with("</svg>"));
    assert!(svg.contains("textLength"));
    assert!(svg.contains(&hex((232, 131, 136))));
    assert!(svg.contains(">hi</text>"));
}

#[test]
fn emits_window_chrome() {
    let svg = render_svg(&[vec![cell(" ", Color::Default, Color::Default)]], 1);
    assert!(svg.contains("<circle"));
    assert!(svg.contains("#ff5f56"));
    assert!(svg.contains("#ffbd2e"));
    assert!(svg.contains("#27c93f"));
}

#[test]
fn escapes_markup_characters() {
    let rows = vec![vec![cell("<", Color::Default, Color::Default)]];
    let svg = render_svg(&rows, 1);
    assert!(svg.contains("&lt;"));
    assert!(!svg.contains("><</text>"));
}

#[test]
fn background_run_emitted_for_non_default_bg() {
    let rows = vec![vec![cell(" ", Color::Default, Color::Idx(4))]];
    let svg = render_svg(&rows, 1);
    assert!(svg.contains(&hex((113, 190, 242))));
}

#[test]
fn whole_document_for_one_styled_cell() {
    let mut c = cell("a", Color::Rgb(1, 2, 3), Color::Idx(196));
    c.bold = true;
    c.underline = true;
    c.strike = true;
    let svg = render_svg(&[vec![c]], 2);
    let expected = [
        r##"<svg xmlns="http://www.w3.org/2000/svg" width="50" height="73" viewBox="0 0 50 73" font-family="'Cascadia Code','JetBrains Mono','Fira Code',Menlo,Consolas,'DejaVu Sans Mono',monospace" font-size="17px">"##,
        r##"<rect width="50" height="73" rx="8" fill="#282d35"/>"##,
        r##"<circle cx="20.0" cy="19.0" r="7.0" fill="#ff5f56"/><circle cx="40.0" cy="19.0" r="7.0" fill="#ffbd2e"/><circle cx="60.0" cy="19.0" r="7.0" fill="#27c93f"/>"##,
        r##"<rect x="15.00" y="38.00" width="10.00" height="21.00" fill="#ff0000"/>"##,
        r##"<text x="15.00" y="51.26" fill="#010203" font-weight="bold" text-decoration="underline line-through" textLength="10.00" lengthAdjust="spacingAndGlyphs" xml:space="preserve">a</text>"##,
        "</svg>",
    ]
    .join("");
    assert_eq!(svg, expected);
}

#[test]
fn runs_merge_equal_cells_and_blank_runs_draw_no_text() {
    let rows = vec![
        vec![
            cell("a", Color::Default, Color::Idx(2)),
            cell("b", Color::Default, Color::Idx(2)),
            cell("", Color::Default, Color::Default),
        ],
        vec![],
    ];
    let svg = render_svg(&rows, 3);
    assert!(svg.contains(r##"<rect x="15.00" y="38.00" width="20.00" height="21.00" fill="#a8cc8c"/>"##));
    assert!(svg.contains(">ab </text>"));
    assert_eq!(svg.matches("<text").count(), 1);
    assert!(svg.contains(r#"height="94""#));
}

#[test]
fn an_empty_grid_still_has_one_row_of_height() {
    let svg = render_svg(&[], 4);
    assert!(svg.contains(r#"width="70" height="73""#));
    assert!(!svg.contains("<text"));
}

#[test]
fn inverse_dim_and_invisible_cells() {
    let mut inv = cell("x", Color::Idx(1), Color::Default);
    inv.inverse = true;
    let mut dimmed = cell("y", Color::Rgb(200, 100, 50), Color::Default);
    dimmed.dim = true;
    let mut hidden = cell("z", Color::Default, Color::Default);
    hidden.invisible = true;
    let svg = render_svg(&[vec![inv, dimmed, hidden]], 3);
    // The inverse cell draws its foreground as background and vice versa.
    assert!(svg.contains(r##"fill="#e88388"/>"##));
    assert!(svg.contains(r##"fill="#282d35" textLength"##));
    assert!(svg.contains(r##"fill="#783c1e""##));
    assert!(!svg.contains(">z<"));
}

#[test]
fn palette_cube_and_gray_ramp() {
    let svg = render_svg(&[vec![cell(" ", Color::Default, Color::Idx(244))]], 1);
    assert!(svg.contains("#808080"));
    let svg = render_svg(&[vec![cell(" ", Color::Default, Color::Idx(16 + 36 + 12 + 3))]], 1);
    assert!(svg.contains("#5f87af"));
}

#[test]
fn escape_replaces_markup_only() {
    assert_eq!(escape("a<b>&c\"'"), "a&lt;b&gt;&amp;c\"'");
    assert_eq!(escape(""), "");
}

#[test]
fn dim_matches_the_sixty_percent_float_scale() {
    for v in 0..=255u8 {
        assert_eq!(dim((v, v, v)).0, (v as f32 * 0.6) as u8);
    }
}

#[test]
fn vertical_layout_matches_single_precision_on_tall_screens() {
    let n = 1_000_000usize;
    let marked: Vec<usize> = (0..300)
        .chain(6235..6250)
        .chain(50_000..50_010)
        .chain([131_000, 400_003, 798_915, 798_916, 999_999])
        .collect();
    let mut rows: Vec<Vec<EmuCell>> = (0..n).map(|_| Vec::new()).collect();
    for &y in &marked {
        rows[y] = vec![cell("x", Color::Default, Color::Idx(1))];
    }
    let svg = render_svg(&rows, 1);
    let height = 38.0f32 + 14.0 + n.max(1) as f32 * 21.0;
    assert!(svg.contains(&format!(r#" height="{height:.0}" viewBox"#)));
    for &y in &marked {
        let top = 38.0f32 + y as f32 * 21.0;
        let baseline = 38.0f32 + y as f32 * 21.0 + 17.0f32 * 0.78;
        assert!(svg.contains(&format!(r#"<rect x="15.00" y="{top:.2}" "#)), "row {y} top");
        assert!(svg.contains(&format!(r#"<text x="15.00" y="{baseline:.2}" "#)), "row {y} baseline");
    }
    // Past 6240 rows single precision no longer holds the exact baseline.
    assert!(svg.contains(r#"y="131091.27""#));
}

#[test]
fn the_text_of_invisible_cells_is_not_drawn() {
    let mut a = cell("secret", Color::Idx(3), Color::Default);
    a.invisible = true;
    let mut b = cell("x", Color::Idx(3), Color::Default);
    b.invisible = true;
    let visible = cell("v", Color::Default, Color::Default);
    let one = render_svg(&[vec![a, visible.clone()]], 2);
    let two = render_svg(&[vec![b, visible]], 2);
    assert_eq!(one, two);
    assert!(!one.contains("secret"));
}
