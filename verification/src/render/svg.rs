//! Crisp, full-color SVG screenshot of a terminal grid: a rounded window
//! panel with macOS-style controls, one `<rect>` per run of same-background
//! cells and one `<text>` per run of same-styled cells. Each text run is
//! forced to its exact column width via `textLength`, so alignment does not
//! depend on the font that renders it.
//!
//! Cells are 10x21 units and the font is 17 units. Horizontal coordinates
//! are whole numbers and exact. Vertical ones (row tops, text baselines
//! 17 * 0.78 units below them, and the document height) are computed in
//! single-precision floating point, as `render::layout` describes, and
//! printed with the fixed decimals of the format.
use vstd::prelude::*;

use crate::backend::contains;
use crate::render::layout::{
    doc_height, doc_height_exec, fixed0, fixed2, push_fixed0, push_fixed2, row_baseline,
    row_baseline_exec, row_top, row_top_exec,
};
use crate::text::{
    all_ws, dec, hex_byte, is_whitespace, is_ws, push_char, push_dec, push_hex_byte, push_str_chars,
};

verus! {

/// An RGB triple.
pub type Rgb = (u8, u8, u8);

/// A cell color as the emulator reports it.
#[derive(Debug, Clone, Copy, PartialEq, Eq, Structural)]
pub enum Color {
    /// The terminal's default foreground or background.
    Default,
    /// An entry of the 256-color palette.
    Idx(u8),
    /// A direct 24-bit color.
    Rgb(u8, u8, u8),
}

/// One cell of a terminal grid.
#[derive(Debug, Clone)]
pub struct EmuCell {
    pub ch: String,
    pub fg: Color,
    pub bg: Color,
    pub bold: bool,
    pub dim: bool,
    pub italic: bool,
    pub underline: bool,
    pub inverse: bool,
    pub invisible: bool,
    pub strike: bool,
}

impl EmuCell {
    /// Whether this is the blank cell: no text, default colors, no attributes.
    pub open spec fn is_blank(&self) -> bool {
        &&& self.ch@.len() == 0
        &&& self.fg == Color::Default
        &&& self.bg == Color::Default
        &&& !self.bold && !self.dim && !self.italic && !self.underline
        &&& !self.inverse && !self.invisible && !self.strike
    }

    /// The cell that stands for every position past the end of a row.
    pub fn blank() -> (c: EmuCell)
        ensures
            c.is_blank(),
    {
        EmuCell {
            ch: String::new(),
            fg: Color::Default,
            bg: Color::Default,
            bold: false,
            dim: false,
            italic: false,
            underline: false,
            inverse: false,
            invisible: false,
            strike: false,
        }
    }
}

/// Default foreground of the screenshot theme.
pub open spec fn default_fg() -> Rgb {
    (185, 191, 202)
}

/// Default background of the screenshot theme.
pub open spec fn default_bg() -> Rgb {
    (40, 45, 53)
}

/// The sixteen base colors of the screenshot theme.
pub open spec fn palette_color(i: int) -> Rgb {
    if i == 0 { (40, 45, 53) }
    else if i == 1 { (232, 131, 136) }
    else if i == 2 { (168, 204, 140) }
    else if i == 3 { (219, 171, 121) }
    else if i == 4 { (113, 190, 242) }
    else if i == 5 { (210, 144, 228) }
    else if i == 6 { (102, 194, 205) }
    else if i == 7 { (185, 191, 202) }
    else if i == 8 { (111, 119, 131) }
    else if i == 9 { (232, 131, 136) }
    else if i == 10 { (168, 204, 140) }
    else if i == 11 { (219, 171, 121) }
    else if i == 12 { (115, 190, 243) }
    else if i == 13 { (210, 144, 227) }
    else if i == 14 { (102, 194, 205) }
    else { (255, 255, 255) }
}

/// One level of the 6x6x6 color cube of the 256-color palette.
pub open spec fn cube_level(k: int) -> u8 {
    if k == 0 { 0 } else { (55 + 40 * k) as u8 }
}

/// The xterm 256-color palette above the sixteen base colors: a 6x6x6 color
/// cube (16..=231) followed by a 24-step gray ramp (232..=255).
pub open spec fn ansi256(i: u8) -> Rgb {
    if i < 232 {
        let n = i - 16;
        (cube_level(n / 36), cube_level((n / 6) % 6), cube_level(n % 6))
    } else {
        let v = (8 + 10 * (i - 232)) as u8;
        (v, v, v)
    }
}

fn cube_level_exec(k: u8) -> (v: u8)
    requires
        k < 6,
    ensures
        v == cube_level(k as int),
{
    if k == 0 {
        0
    } else {
        55 + 40 * k
    }
}

/// Maps a palette index at or above 16 to its RGB value.
pub fn ansi256_to_rgb(i: u8) -> (c: Rgb)
    requires
        i >= 16,
    ensures
        c == ansi256(i),
{
    if i < 232 {
        let n = i - 16;
        (cube_level_exec(n / 36), cube_level_exec((n / 6) % 6), cube_level_exec(n % 6))
    } else {
        let v = 8 + 10 * (i - 232);
        (v, v, v)
    }
}

/// What a color resolves to in the screenshot theme, as foreground or background.
pub open spec fn resolve_color(color: Color, is_fg: bool) -> Rgb {
    match color {
        Color::Default => if is_fg { default_fg() } else { default_bg() },
        Color::Idx(i) => if i < 16 { palette_color(i as int) } else { ansi256(i) },
        Color::Rgb(r, g, b) => (r, g, b),
    }
}

struct Theme {
    default_fg: Rgb,
    default_bg: Rgb,
}

impl Theme {
    fn palette(i: u8) -> (c: Rgb)
        requires
            i < 16,
        ensures
            c == palette_color(i as int),
    {
        match i {
            0 => (40, 45, 53),
            1 => (232, 131, 136),
            2 => (168, 204, 140),
            3 => (219, 171, 121),
            4 => (113, 190, 242),
            5 => (210, 144, 228),
            6 => (102, 194, 205),
            7 => (185, 191, 202),
            8 => (111, 119, 131),
            9 => (232, 131, 136),
            10 => (168, 204, 140),
            11 => (219, 171, 121),
            12 => (115, 190, 243),
            13 => (210, 144, 227),
            14 => (102, 194, 205),
            _ => (255, 255, 255),
        }
    }

    fn new() -> (t: Theme)
        ensures
            t.default_fg == default_fg(),
            t.default_bg == default_bg(),
    {
        Theme { default_fg: (185, 191, 202), default_bg: (40, 45, 53) }
    }

    fn resolve(&self, color: Color, is_fg: bool) -> (c: Rgb)
        requires
            self.default_fg == default_fg(),
            self.default_bg == default_bg(),
        ensures
            c == resolve_color(color, is_fg),
    {
        match color {
            Color::Default => {
                if is_fg {
                    self.default_fg
                } else {
                    self.default_bg
                }
            },
            Color::Idx(i) => {
                if i < 16 {
                    Self::palette(i)
                } else {
                    ansi256_to_rgb(i)
                }
            },
            Color::Rgb(r, g, b) => (r, g, b),
        }
    }
}

/// `#rrggbb` in lowercase hex.
pub open spec fn hex_spec(c: Rgb) -> Seq<char> {
    seq!['#'] + hex_byte(c.0) + hex_byte(c.1) + hex_byte(c.2)
}

/// Formats a color as `#rrggbb` (lowercase).
pub fn hex(c: Rgb) -> (s: String)
    ensures
        s@ == hex_spec(c),
{
    let mut s = String::new();
    push_char(&mut s, '#');
    push_hex_byte(&mut s, c.0);
    push_hex_byte(&mut s, c.1);
    push_hex_byte(&mut s, c.2);
    assert(s@ =~= hex_spec(c));
    s
}

/// A color dimmed to 60% of each channel, rounded down.
pub open spec fn dim_spec(c: Rgb) -> Rgb {
    ((c.0 * 3 / 5) as u8, (c.1 * 3 / 5) as u8, (c.2 * 3 / 5) as u8)
}

/// Dims a color to 60% of each channel, rounded down.
pub fn dim(c: Rgb) -> (d: Rgb)
    ensures
        d == dim_spec(c),
{
    (((c.0 as u16) * 3 / 5) as u8, ((c.1 as u16) * 3 / 5) as u8, ((c.2 as u16) * 3 / 5) as u8)
}


/// The resolved background of a cell, honoring `inverse`.
pub open spec fn bg_spec(cell: EmuCell) -> Rgb {
    if cell.inverse { resolve_color(cell.fg, true) } else { resolve_color(cell.bg, false) }
}

/// How a run of text is drawn.
#[derive(Debug, Clone, Copy)]
pub struct Style {
    pub fg: Rgb,
    pub bold: bool,
    pub italic: bool,
    pub underline: bool,
    pub strike: bool,
    pub invisible: bool,
}

/// The text style of a cell: its resolved foreground (the background when
/// inverse, then dimmed when dim) and its bold/italic/underline/strike/
/// invisible attributes.
pub open spec fn style_spec(cell: EmuCell) -> Style {
    let fg0 = if cell.inverse { resolve_color(cell.bg, false) } else { resolve_color(cell.fg, true) };
    let fg = if cell.dim { dim_spec(fg0) } else { fg0 };
    Style {
        fg,
        bold: cell.bold,
        italic: cell.italic,
        underline: cell.underline,
        strike: cell.strike,
        invisible: cell.invisible,
    }
}

/// The text a cell contributes to a run: its characters, or one space when
/// nothing was printed to it.
pub open spec fn cell_text(cell: EmuCell) -> Seq<char> {
    if cell.ch@.len() == 0 { seq![' '] } else { cell.ch@ }
}

/// The style of the blank cell.
pub open spec fn blank_style() -> Style {
    Style { fg: default_fg(), bold: false, italic: false, underline: false, strike: false, invisible: false }
}

/// Background at column `x` of a row; past the end of the row the cell is blank.
pub open spec fn bg_at(row: Seq<EmuCell>, x: int) -> Rgb {
    if 0 <= x < row.len() { bg_spec(row[x]) } else { default_bg() }
}

/// Style at column `x` of a row; past the end of the row the cell is blank.
pub open spec fn style_at(row: Seq<EmuCell>, x: int) -> Style {
    if 0 <= x < row.len() { style_spec(row[x]) } else { blank_style() }
}

/// Text at column `x` of a row; past the end of the row the cell is blank.
pub open spec fn text_at(row: Seq<EmuCell>, x: int) -> Seq<char> {
    if 0 <= x < row.len() { cell_text(row[x]) } else { seq![' '] }
}

/// The cell at column `x`, or `blank` past the end of the row.
fn cell_at<'a>(row: &'a [EmuCell], x: usize, blank: &'a EmuCell) -> (c: &'a EmuCell)
    ensures
        c == (if x < row@.len() { row@[x as int] } else { *blank }),
{
    if x < row.len() {
        &row[x]
    } else {
        blank
    }
}

fn rgb_eq(a: Rgb, b: Rgb) -> (r: bool)
    ensures
        r == (a == b),
{
    a.0 == b.0 && a.1 == b.1 && a.2 == b.2
}

/// Resolved background color for a cell (honoring inverse).
fn bg_of(cell: &EmuCell, theme: &Theme) -> (c: Rgb)
    requires
        theme.default_fg == default_fg(),
        theme.default_bg == default_bg(),
    ensures
        c == bg_spec(*cell),
{
    let bg = theme.resolve(cell.bg, false);
    let fg = theme.resolve(cell.fg, true);
    if cell.inverse {
        fg
    } else {
        bg
    }
}

fn style_of(cell: &EmuCell, theme: &Theme) -> (s: Style)
    requires
        theme.default_fg == default_fg(),
        theme.default_bg == default_bg(),
    ensures
        s == style_spec(*cell),
{
    let mut fg = theme.resolve(cell.fg, true);
    let bg = theme.resolve(cell.bg, false);
    if cell.inverse {
        fg = bg;
    }
    if cell.dim {
        fg = dim(fg);
    }
    Style {
        fg,
        bold: cell.bold,
        italic: cell.italic,
        underline: cell.underline,
        strike: cell.strike,
        invisible: cell.invisible,
    }
}

fn same_style(a: &Style, b: &Style) -> (r: bool)
    ensures
        r == (*a == *b),
{
    rgb_eq(a.fg, b.fg) && a.bold == b.bold && a.italic == b.italic && a.underline == b.underline
        && a.strike == b.strike && a.invisible == b.invisible
}

/// XML escaping of one character: `&`, `<` and `>` become entities.
pub open spec fn escape_char(c: char) -> Seq<char> {
    if c == '&' {
        "&amp;"@
    } else if c == '<' {
        "&lt;"@
    } else if c == '>' {
        "&gt;"@
    } else {
        seq![c]
    }
}

/// XML escaping of a character sequence, character by character.
pub open spec fn escape_spec(s: Seq<char>) -> Seq<char>
    decreases s.len(),
{
    if s.len() == 0 {
        seq![]
    } else {
        escape_spec(s.drop_last()) + escape_char(s.last())
    }
}

fn push_escaped(out: &mut String, c: char)
    ensures
        final(out)@ == old(out)@ + escape_char(c),
{
    if c == '&' {
        out.append("&amp;");
    } else if c == '<' {
        out.append("&lt;");
    } else if c == '>' {
        out.append("&gt;");
    } else {
        push_char(out, c);
        assert(out@ =~= old(out)@ + escape_char(c));
    }
}

fn push_escaped_chars(out: &mut String, s: &Vec<char>)
    ensures
        final(out)@ == old(out)@ + escape_spec(s@),
{
    let n = s.len();
    let mut i: usize = 0;
    while i < n
        invariant
            n == s@.len(),
            i <= n,
            out@ == old(out)@ + escape_spec(s@.take(i as int)),
        decreases n - i,
    {
        push_escaped(out, s[i]);
        assert(s@.take(i + 1).drop_last() =~= s@.take(i as int));
        assert(out@ =~= old(out)@ + escape_spec(s@.take(i + 1)));
        i += 1;
    }
    assert(s@.take(n as int) =~= s@);
}

/// Escapes `&`, `<` and `>` for use in XML text.
pub fn escape(s: &str) -> (r: String)
    ensures
        r@ == escape_spec(s@),
{
    let mut chars: Vec<char> = Vec::new();
    push_str_chars(&mut chars, s);
    let mut out = String::new();
    push_escaped_chars(&mut out, &chars);
    assert(out@ =~= escape_spec(s@));
    out
}

/// True when every character is whitespace.
fn is_blank_text(v: &Vec<char>) -> (r: bool)
    ensures
        r == all_ws(v@),
{
    let n = v.len();
    let mut i: usize = 0;
    while i < n
        invariant
            n == v@.len(),
            i <= n,
            forall|j: int| 0 <= j < i ==> #[trigger] is_ws(v@[j]),
        decreases n - i,
    {
        if !is_whitespace(v[i]) {
            return false;
        }
        i += 1;
    }
    true
}

// ---------------------------------------------------------------------------
// Runs of equal background and equal style.
// ---------------------------------------------------------------------------

/// The end (exclusive) of the run of cells from `x` that share `x`'s
/// background, scanning from `k`, never past `cols`.
pub open spec fn bg_run_end(row: Seq<EmuCell>, cols: int, x: int, k: int) -> int
    decreases cols - k,
{
    if k < cols && bg_at(row, k) == bg_at(row, x) {
        bg_run_end(row, cols, x, k + 1)
    } else {
        k
    }
}

/// The end (exclusive) of the run of cells from `x` that share `x`'s style,
/// scanning from `k`, never past `cols`.
pub open spec fn style_run_end(row: Seq<EmuCell>, cols: int, x: int, k: int) -> int
    decreases cols - k,
{
    if k < cols && style_at(row, k) == style_at(row, x) {
        style_run_end(row, cols, x, k + 1)
    } else {
        k
    }
}

/// A run end lies between where the scan started and the last column.
pub proof fn lemma_bg_run_end_bounds(row: Seq<EmuCell>, cols: int, x: int, k: int)
    ensures
        bg_run_end(row, cols, x, k) >= k,
        k <= cols ==> bg_run_end(row, cols, x, k) <= cols,
    decreases cols - k,
{
    if k < cols && bg_at(row, k) == bg_at(row, x) {
        lemma_bg_run_end_bounds(row, cols, x, k + 1);
    }
}

/// A run end lies between where the scan started and the last column.
pub proof fn lemma_style_run_end_bounds(row: Seq<EmuCell>, cols: int, x: int, k: int)
    ensures
        style_run_end(row, cols, x, k) >= k,
        k <= cols ==> style_run_end(row, cols, x, k) <= cols,
    decreases cols - k,
{
    if k < cols && style_at(row, k) == style_at(row, x) {
        lemma_style_run_end_bounds(row, cols, x, k + 1);
    }
}

/// The concatenated text of columns `x..k` of a row.
pub open spec fn run_text(row: Seq<EmuCell>, x: int, k: int) -> Seq<char>
    decreases k - x,
{
    if k <= x {
        seq![]
    } else {
        run_text(row, x, k - 1) + text_at(row, k - 1)
    }
}

// ---------------------------------------------------------------------------
// The pieces of the document.
// ---------------------------------------------------------------------------

/// The opening `<svg>` tag and the window panel of width `w` and of the
/// height that the scaled value `h` prints as.
pub open spec fn header_spec(w: nat, h: nat) -> Seq<char> {
    "<svg xmlns=\"http://www.w3.org/2000/svg\" width=\""@ + dec(w) + "\" height=\""@ + fixed0(h)
        + "\" viewBox=\"0 0 "@ + dec(w) + " "@ + fixed0(h)
        + "\" font-family=\"'Cascadia Code','JetBrains Mono','Fira Code',Menlo,Consolas,'DejaVu Sans Mono',monospace\" font-size=\"17px\">"@
        + "<rect width=\""@ + dec(w) + "\" height=\""@ + fixed0(h) + "\" rx=\"8\" fill=\""@
        + hex_spec(default_bg()) + "\"/>"@
        + "<circle cx=\"20.0\" cy=\"19.0\" r=\"7.0\" fill=\"#ff5f56\"/><circle cx=\"40.0\" cy=\"19.0\" r=\"7.0\" fill=\"#ffbd2e\"/><circle cx=\"60.0\" cy=\"19.0\" r=\"7.0\" fill=\"#27c93f\"/>"@
}

/// The background rectangle of a run of `run` cells from column `x` of row `y`.
pub open spec fn rect_spec(x: nat, y: nat, run: nat, c: Rgb) -> Seq<char> {
    "<rect x=\""@ + dec(15 + 10 * x) + ".00\" y=\""@ + fixed2(row_top(y)) + "\" width=\""@
        + dec(10 * run) + ".00\" height=\"21.00\" fill=\""@ + hex_spec(c) + "\"/>"@
}

/// The font-weight attribute of a style.
pub open spec fn weight_spec(st: Style) -> Seq<char> {
    if st.bold { " font-weight=\"bold\""@ } else { seq![] }
}

/// The font-style attribute of a style.
pub open spec fn italic_spec(st: Style) -> Seq<char> {
    if st.italic { " font-style=\"italic\""@ } else { seq![] }
}

/// The text-decoration attribute of a style.
pub open spec fn deco_spec(st: Style) -> Seq<char> {
    if st.underline && st.strike {
        " text-decoration=\"underline line-through\""@
    } else if st.underline {
        " text-decoration=\"underline\""@
    } else if st.strike {
        " text-decoration=\"line-through\""@
    } else {
        seq![]
    }
}

/// The start of a `<text>` element at column `x` of row `y` up to its fill.
/// Its `y` is the row's baseline.
pub open spec fn text_open_spec(x: nat, y: nat, fg: Rgb) -> Seq<char> {
    "<text x=\""@ + dec(15 + 10 * x) + ".00\" y=\""@ + fixed2(row_baseline(y)) + "\" fill=\""@
        + hex_spec(fg) + "\""@
}

/// The styling attributes of a `<text>` element.
pub open spec fn text_attrs_spec(st: Style) -> Seq<char> {
    weight_spec(st) + italic_spec(st) + deco_spec(st)
}

/// The rest of a `<text>` element: its width, its escaped content and the end tag.
pub open spec fn text_close_spec(run: nat, txt: Seq<char>) -> Seq<char> {
    " textLength=\""@ + dec(10 * run)
        + ".00\" lengthAdjust=\"spacingAndGlyphs\" xml:space=\"preserve\">"@ + escape_spec(txt)
        + "</text>"@
}

/// The `<text>` element of a run of `run` cells from column `x` of row `y`.
pub open spec fn text_elem_spec(x: nat, y: nat, run: nat, st: Style, txt: Seq<char>) -> Seq<char> {
    text_open_spec(x, y, st.fg) + text_attrs_spec(st) + text_close_spec(run, txt)
}

/// The background rectangles of row `y`, from column `x` on.
pub open spec fn bg_row(row: Seq<EmuCell>, y: nat, cols: int, x: int) -> Seq<char>
    decreases cols - x,
{
    if x >= cols {
        seq![]
    } else {
        let end = bg_run_end(row, cols, x, x + 1);
        proof {
            lemma_bg_run_end_bounds(row, cols, x, x + 1);
        }
        let c = bg_at(row, x);
        (if c != default_bg() { rect_spec(x as nat, y, (end - x) as nat, c) } else { seq![] })
            + bg_row(row, y, cols, end)
    }
}

/// The text elements of row `y`, from column `x` on.
pub open spec fn text_row(row: Seq<EmuCell>, y: nat, cols: int, x: int) -> Seq<char>
    decreases cols - x,
{
    if x >= cols {
        seq![]
    } else {
        let end = style_run_end(row, cols, x, x + 1);
        proof {
            lemma_style_run_end_bounds(row, cols, x, x + 1);
        }
        let st = style_at(row, x);
        let txt = run_text(row, x, end);
        (if !st.invisible && !all_ws(txt) {
            text_elem_spec(x as nat, y, (end - x) as nat, st, txt)
        } else {
            seq![]
        }) + text_row(row, y, cols, end)
    }
}

/// The background rectangles of the first `n` rows.
pub open spec fn bg_rows(rows: Seq<Vec<EmuCell>>, cols: int, n: int) -> Seq<char>
    decreases n,
{
    if n <= 0 {
        seq![]
    } else {
        bg_rows(rows, cols, n - 1) + bg_row(rows[n - 1]@, (n - 1) as nat, cols, 0)
    }
}

/// The text elements of the first `n` rows.
pub open spec fn text_rows(rows: Seq<Vec<EmuCell>>, cols: int, n: int) -> Seq<char>
    decreases n,
{
    if n <= 0 {
        seq![]
    } else {
        text_rows(rows, cols, n - 1) + text_row(rows[n - 1]@, (n - 1) as nat, cols, 0)
    }
}

/// Width of the document for `cols` columns.
pub open spec fn svg_width(cols: nat) -> nat {
    30 + 10 * cols
}

/// Height of the document for `n` rows (at least one row's worth), as a
/// scaled `f32` value.
pub open spec fn svg_height(n: nat) -> nat {
    doc_height(if n == 0 { 1 } else { n })
}

/// The complete SVG document for a grid: header and window chrome, then all
/// background runs row by row, then all text runs row by row, then `</svg>`.
pub open spec fn svg_spec(rows: Seq<Vec<EmuCell>>, cols: nat) -> Seq<char> {
    header_spec(svg_width(cols), svg_height(rows.len()))
        + bg_rows(rows, cols as int, rows.len() as int)
        + text_rows(rows, cols as int, rows.len() as int) + "</svg>"@
}


// ---------------------------------------------------------------------------
// Writing the document.
// ---------------------------------------------------------------------------

fn push_header(out: &mut String, w: u128, h: u128)
    requires
        h < 0x10000000000000000000000000,
    ensures
        final(out)@ == old(out)@ + header_spec(w as nat, h as nat),
{
    out.append("<svg xmlns=\"http://www.w3.org/2000/svg\" width=\"");
    push_dec(out, w);
    out.append("\" height=\"");
    push_fixed0(out, h);
    out.append("\" viewBox=\"0 0 ");
    push_dec(out, w);
    out.append(" ");
    push_fixed0(out, h);
    out.append(
        "\" font-family=\"'Cascadia Code','JetBrains Mono','Fira Code',Menlo,Consolas,'DejaVu Sans Mono',monospace\" font-size=\"17px\">",
    );
    out.append("<rect width=\"");
    push_dec(out, w);
    out.append("\" height=\"");
    push_fixed0(out, h);
    out.append("\" rx=\"8\" fill=\"");
    let bg = hex((40, 45, 53));
    out.append(bg.as_str());
    out.append("\"/>");
    out.append(
        "<circle cx=\"20.0\" cy=\"19.0\" r=\"7.0\" fill=\"#ff5f56\"/><circle cx=\"40.0\" cy=\"19.0\" r=\"7.0\" fill=\"#ffbd2e\"/><circle cx=\"60.0\" cy=\"19.0\" r=\"7.0\" fill=\"#27c93f\"/>",
    );
    assert(out@ =~= old(out)@ + header_spec(w as nat, h as nat));
}

fn push_rect(out: &mut String, x: usize, y: usize, run: usize, c: Rgb)
    ensures
        final(out)@ == old(out)@ + rect_spec(x as nat, y as nat, run as nat, c),
{
    out.append("<rect x=\"");
    push_dec(out, 15 + 10 * (x as u128));
    out.append(".00\" y=\"");
    push_fixed2(out, row_top_exec(y));
    out.append("\" width=\"");
    push_dec(out, 10 * (run as u128));
    out.append(".00\" height=\"21.00\" fill=\"");
    let h = hex(c);
    out.append(h.as_str());
    out.append("\"/>");
    assert(out@ =~= old(out)@ + rect_spec(x as nat, y as nat, run as nat, c));
}

fn push_text_open(out: &mut String, x: usize, y: usize, fg: Rgb)
    ensures
        final(out)@ == old(out)@ + text_open_spec(x as nat, y as nat, fg),
{
    out.append("<text x=\"");
    push_dec(out, 15 + 10 * (x as u128));
    out.append(".00\" y=\"");
    push_fixed2(out, row_baseline_exec(y));
    out.append("\" fill=\"");
    let h = hex(fg);
    out.append(h.as_str());
    out.append("\"");
    assert(out@ =~= old(out)@ + text_open_spec(x as nat, y as nat, fg));
}

fn push_text_attrs(out: &mut String, st: &Style)
    ensures
        final(out)@ == old(out)@ + text_attrs_spec(*st),
{
    if st.bold {
        out.append(" font-weight=\"bold\"");
    }
    let ghost after_weight = out@;
    assert(after_weight =~= old(out)@ + weight_spec(*st));
    if st.italic {
        out.append(" font-style=\"italic\"");
    }
    let ghost after_italic = out@;
    assert(after_italic =~= after_weight + italic_spec(*st));
    if st.underline && st.strike {
        out.append(" text-decoration=\"underline line-through\"");
    } else if st.underline {
        out.append(" text-decoration=\"underline\"");
    } else if st.strike {
        out.append(" text-decoration=\"line-through\"");
    }
    assert(out@ =~= after_italic + deco_spec(*st));
    assert(out@ =~= old(out)@ + text_attrs_spec(*st));
}

fn push_text_close(out: &mut String, run: usize, txt: &Vec<char>)
    ensures
        final(out)@ == old(out)@ + text_close_spec(run as nat, txt@),
{
    out.append(" textLength=\"");
    push_dec(out, 10 * (run as u128));
    out.append(".00\" lengthAdjust=\"spacingAndGlyphs\" xml:space=\"preserve\">");
    push_escaped_chars(out, txt);
    out.append("</text>");
    assert(out@ =~= old(out)@ + text_close_spec(run as nat, txt@));
}

fn push_text_elem(out: &mut String, x: usize, y: usize, run: usize, st: &Style, txt: &Vec<char>)
    ensures
        final(out)@ == old(out)@ + text_elem_spec(x as nat, y as nat, run as nat, *st, txt@),
{
    push_text_open(out, x, y, st.fg);
    push_text_attrs(out, st);
    push_text_close(out, run, txt);
    assert(out@ =~= old(out)@ + text_elem_spec(x as nat, y as nat, run as nat, *st, txt@));
}

/// The length of the run of cells from `x` that share `x`'s background.
fn bg_run(row: &[EmuCell], x: usize, cols: usize, theme: &Theme, blank: &EmuCell) -> (run: usize)
    requires
        theme.default_fg == default_fg(),
        theme.default_bg == default_bg(),
        blank.is_blank(),
        x < cols,
    ensures
        run >= 1,
        x + run <= cols,
        x + run == bg_run_end(row@, cols as int, x as int, x + 1),
{
    let bg = bg_of(cell_at(row, x, blank), theme);
    let mut run: usize = 1;
    while x + run < cols && rgb_eq(bg_of(cell_at(row, x + run, blank), theme), bg)
        invariant
            theme.default_fg == default_fg(),
            theme.default_bg == default_bg(),
            blank.is_blank(),
            x < cols,
            1 <= run,
            x + run <= cols,
            bg == bg_at(row@, x as int),
            bg_run_end(row@, cols as int, x as int, x + 1) == bg_run_end(
                row@,
                cols as int,
                x as int,
                x + run,
            ),
        decreases cols - x - run,
    {
        run += 1;
    }
    run
}

/// The length of the run of cells from `x` that share `x`'s style.
fn style_run(row: &[EmuCell], x: usize, cols: usize, theme: &Theme, blank: &EmuCell) -> (run: usize)
    requires
        theme.default_fg == default_fg(),
        theme.default_bg == default_bg(),
        blank.is_blank(),
        x < cols,
    ensures
        run >= 1,
        x + run <= cols,
        x + run == style_run_end(row@, cols as int, x as int, x + 1),
{
    let style = style_of(cell_at(row, x, blank), theme);
    let mut run: usize = 1;
    while x + run < cols && same_style(&style_of(cell_at(row, x + run, blank), theme), &style)
        invariant
            theme.default_fg == default_fg(),
            theme.default_bg == default_bg(),
            blank.is_blank(),
            x < cols,
            1 <= run,
            x + run <= cols,
            style == style_at(row@, x as int),
            style_run_end(row@, cols as int, x as int, x + 1) == style_run_end(
                row@,
                cols as int,
                x as int,
                x + run,
            ),
        decreases cols - x - run,
    {
        run += 1;
    }
    run
}

#[verifier::rlimit(40)]
fn push_bg_row(
    out: &mut String,
    row: &[EmuCell],
    y: usize,
    cols: usize,
    theme: &Theme,
    blank: &EmuCell,
)
    requires
        theme.default_fg == default_fg(),
        theme.default_bg == default_bg(),
        blank.is_blank(),
    ensures
        final(out)@ == old(out)@ + bg_row(row@, y as nat, cols as int, 0),
{
    let mut x: usize = 0;
    while x < cols
        invariant
            theme.default_fg == default_fg(),
            theme.default_bg == default_bg(),
            blank.is_blank(),
            x <= cols,
            out@ + bg_row(row@, y as nat, cols as int, x as int) == old(out)@ + bg_row(
                row@,
                y as nat,
                cols as int,
                0,
            ),
        decreases cols - x,
    {
        let bg = bg_of(cell_at(row, x, blank), theme);
        let run = bg_run(row, x, cols, theme, blank);
        proof {
            lemma_bg_run_end_bounds(row@, cols as int, x as int, x + 1);
        }
        let ghost before = out@;
        if !rgb_eq(bg, theme.default_bg) {
            push_rect(out, x, y, run, bg);
        }
        assert(out@ == before + (if bg != default_bg() {
            rect_spec(x as nat, y as nat, run as nat, bg)
        } else {
            seq![]
        }));
        assert(bg_row(row@, y as nat, cols as int, x as int) == (if bg != default_bg() {
            rect_spec(x as nat, y as nat, run as nat, bg)
        } else {
            seq![]
        }) + bg_row(row@, y as nat, cols as int, (x + run) as int));
        x += run;
        assert(out@ + bg_row(row@, y as nat, cols as int, x as int) =~= old(out)@ + bg_row(
            row@,
            y as nat,
            cols as int,
            0,
        ));
    }
    assert(out@ =~= old(out)@ + bg_row(row@, y as nat, cols as int, 0));
}


/// Collects the text of columns `x..end` of a row.
fn collect_run_text(row: &[EmuCell], x: usize, end: usize, blank: &EmuCell) -> (v: Vec<char>)
    requires
        x <= end,
        blank.is_blank(),
    ensures
        v@ == run_text(row@, x as int, end as int),
{
    let mut v: Vec<char> = Vec::new();
    let mut i = x;
    while i < end
        invariant
            x <= i <= end,
            blank.is_blank(),
            v@ == run_text(row@, x as int, i as int),
        decreases end - i,
    {
        let c = cell_at(row, i, blank);
        assert(text_at(row@, i as int) == cell_text(*c));
        let ghost before = v@;
        if c.ch.as_str().is_empty() {
            v.push(' ');
        } else {
            push_str_chars(&mut v, c.ch.as_str());
        }
        assert(v@ =~= before + text_at(row@, i as int));
        i += 1;
    }
    v
}

#[verifier::rlimit(40)]
fn push_text_row(
    out: &mut String,
    row: &[EmuCell],
    y: usize,
    cols: usize,
    theme: &Theme,
    blank: &EmuCell,
)
    requires
        theme.default_fg == default_fg(),
        theme.default_bg == default_bg(),
        blank.is_blank(),
    ensures
        final(out)@ == old(out)@ + text_row(row@, y as nat, cols as int, 0),
{
    let mut x: usize = 0;
    while x < cols
        invariant
            theme.default_fg == default_fg(),
            theme.default_bg == default_bg(),
            blank.is_blank(),
            x <= cols,
            out@ + text_row(row@, y as nat, cols as int, x as int) == old(out)@ + text_row(
                row@,
                y as nat,
                cols as int,
                0,
            ),
        decreases cols - x,
    {
        let style = style_of(cell_at(row, x, blank), theme);
        let run = style_run(row, x, cols, theme, blank);
        proof {
            lemma_style_run_end_bounds(row@, cols as int, x as int, x + 1);
        }
        let ghost before = out@;
        let ghost txt = run_text(row@, x as int, (x + run) as int);
        if !style.invisible {
            let text = collect_run_text(row, x, x + run, blank);
            if !is_blank_text(&text) {
                push_text_elem(out, x, y, run, &style, &text);
            }
        }
        assert(out@ == before + (if !style.invisible && !all_ws(txt) {
            text_elem_spec(x as nat, y as nat, run as nat, style, txt)
        } else {
            seq![]
        }));
        assert(text_row(row@, y as nat, cols as int, x as int) == (if !style.invisible && !all_ws(
            txt,
        ) {
            text_elem_spec(x as nat, y as nat, run as nat, style, txt)
        } else {
            seq![]
        }) + text_row(row@, y as nat, cols as int, (x + run) as int));
        x += run;
        assert(out@ + text_row(row@, y as nat, cols as int, x as int) =~= old(out)@ + text_row(
            row@,
            y as nat,
            cols as int,
            0,
        ));
    }
    assert(out@ =~= old(out)@ + text_row(row@, y as nat, cols as int, 0));
}

/// Renders a grid to a standalone SVG document.
///
/// Columns past the end of a row render as blank cells; rows are drawn
/// exactly as given, `cols` cells wide.
#[verifier::rlimit(40)]
pub fn render_svg(rows: &[Vec<EmuCell>], cols: u16) -> (svg: String)
    ensures
        svg@ == svg_spec(rows@, cols as nat),
{
    let theme = Theme::new();
    let blank = EmuCell::blank();
    let cols = cols as usize;
    let n = rows.len();
    let width: u128 = 30 + 10 * (cols as u128);
    let height: u128 = doc_height_exec(if n == 0 { 1 } else { n });

    let mut out = String::new();
    push_header(&mut out, width, height);
    let ghost head = out@;

    let mut y: usize = 0;
    while y < n
        invariant
            theme.default_fg == default_fg(),
            theme.default_bg == default_bg(),
            blank.is_blank(),
            n == rows@.len(),
            y <= n,
            out@ == head + bg_rows(rows@, cols as int, y as int),
        decreases n - y,
    {
        push_bg_row(&mut out, rows[y].as_slice(), y, cols, &theme, &blank);
        y += 1;
        assert(out@ =~= head + bg_rows(rows@, cols as int, y as int));
    }
    let ghost mid = out@;

    let mut y: usize = 0;
    while y < n
        invariant
            theme.default_fg == default_fg(),
            theme.default_bg == default_bg(),
            blank.is_blank(),
            n == rows@.len(),
            y <= n,
            out@ == mid + text_rows(rows@, cols as int, y as int),
        decreases n - y,
    {
        push_text_row(&mut out, rows[y].as_slice(), y, cols, &theme, &blank);
        y += 1;
        assert(out@ =~= mid + text_rows(rows@, cols as int, y as int));
    }

    out.append("</svg>");
    assert(out@ =~= svg_spec(rows@, cols as nat));
    out
}


// ---------------------------------------------------------------------------
// Properties of the document.
// ---------------------------------------------------------------------------

/// Every screenshot is a standalone SVG document: it starts with `<svg` and
/// ends with `</svg>`, whatever the grid.
pub proof fn lemma_svg_is_framed(rows: Seq<Vec<EmuCell>>, cols: nat)
    ensures
        svg_spec(rows, cols).len() >= 10,
        svg_spec(rows, cols).take(4) == "<svg"@,
        svg_spec(rows, cols).skip(svg_spec(rows, cols).len() - 6) == "</svg>"@,
{
    reveal_strlit("<svg xmlns=\"http://www.w3.org/2000/svg\" width=\"");
    reveal_strlit("<svg");
    reveal_strlit("</svg>");
    let doc = svg_spec(rows, cols);
    let head = header_spec(svg_width(cols), svg_height(rows.len()));
    let first = "<svg xmlns=\"http://www.w3.org/2000/svg\" width=\""@;
    let body = head + bg_rows(rows, cols as int, rows.len() as int) + text_rows(
        rows,
        cols as int,
        rows.len() as int,
    );
    assert(doc == body + "</svg>"@);
    assert(head.take(first.len() as int) =~= first) by {
        assert(head =~= first + head.skip(first.len() as int));
    }
    assert(body.take(first.len() as int) =~= first);
    assert(doc.take(4) =~= "<svg"@);
    assert(doc.skip(doc.len() - 6) =~= "</svg>"@);
}

/// Escaped text never holds a raw `<` or `>`, so cell contents cannot open
/// or close markup.
pub proof fn lemma_escape_has_no_markup(s: Seq<char>)
    ensures
        forall|i: int|
            0 <= i < escape_spec(s).len() ==> #[trigger] escape_spec(s)[i] != '<'
                && escape_spec(s)[i] != '>',
    decreases s.len(),
{
    reveal_strlit("&amp;");
    reveal_strlit("&lt;");
    reveal_strlit("&gt;");
    if s.len() > 0 {
        lemma_escape_has_no_markup(s.drop_last());
        let a = escape_spec(s.drop_last());
        let b = escape_char(s.last());
        assert forall|i: int| 0 <= i < (a + b).len() implies #[trigger] (a + b)[i] != '<' && (a
            + b)[i] != '>' by {
            if i >= a.len() {
                assert((a + b)[i] == b[i - a.len()]);
            } else {
                assert((a + b)[i] == a[i]);
            }
        }
    }
}

/// A text run is stretched to exactly the width of the cells it covers: the
/// `<text>` element of a run of `run` cells carries `textLength` 10 per cell,
/// the same width as the background `<rect>` of that run.
pub proof fn lemma_text_length_is_run_width(
    x: nat,
    y: nat,
    run: nat,
    st: Style,
    txt: Seq<char>,
    c: Rgb,
)
    ensures
        contains(text_elem_spec(x, y, run, st, txt), " textLength=\""@ + dec(run * 10) + ".00\""@),
        contains(rect_spec(x, y, run, c), "\" width=\""@ + dec(10 * run) + ".00\""@),
{
    reveal_strlit(".00\"");
    reveal_strlit(".00\" lengthAdjust=\"spacingAndGlyphs\" xml:space=\"preserve\">");
    reveal_strlit(".00\" height=\"21.00\" fill=\"");
    let w = dec(10 * run);
    let tail = ".00\""@;
    let t_needle = " textLength=\""@ + w + tail;
    let t_head = text_open_spec(x, y, st.fg) + text_attrs_spec(st);
    let t_rest = ".00\" lengthAdjust=\"spacingAndGlyphs\" xml:space=\"preserve\">"@;
    let t = text_elem_spec(x, y, run, st, txt);
    assert(t =~= t_head + (" textLength=\""@ + w + t_rest) + escape_spec(txt) + "</text>"@);
    let ti = t_head.len() as int;
    assert(t.subrange(ti, ti + t_needle.len()) =~= t_needle);
    let r_needle = "\" width=\""@ + w + tail;
    let r_head = "<rect x=\""@ + dec(15 + 10 * x) + ".00\" y=\""@ + fixed2(row_top(y));
    let r_rest = ".00\" height=\"21.00\" fill=\""@;
    let r = rect_spec(x, y, run, c);
    assert(r =~= r_head + ("\" width=\""@ + w + r_rest) + hex_spec(c) + "\"/>"@);
    let ri = r_head.len() as int;
    assert(r.subrange(ri, ri + r_needle.len()) =~= r_needle);
}

/// A style run ends at the last column or at the first cell whose style differs.
proof fn lemma_style_run_is_maximal(row: Seq<EmuCell>, cols: int, x: int, k: int)
    requires
        k <= cols,
    ensures
        style_run_end(row, cols, x, k) == cols || style_at(row, style_run_end(row, cols, x, k))
            != style_at(row, x),
    decreases cols - k,
{
    if k < cols && style_at(row, k) == style_at(row, x) {
        lemma_style_run_is_maximal(row, cols, x, k + 1);
    }
}

/// The first `<text>` element of a row from column `x` covers the maximal run
/// of cells `x..end` that share `x`'s style, and its `textLength` is 10 per
/// cell of that run, `10 * (end - x)`.
pub proof fn lemma_text_row_run_width(row: Seq<EmuCell>, y: nat, cols: int, x: int)
    requires
        0 <= x < cols,
        !style_at(row, x).invisible,
        !all_ws(run_text(row, x, style_run_end(row, cols, x, x + 1))),
    ensures
        ({
            let end = style_run_end(row, cols, x, x + 1);
            &&& x < end <= cols
            &&& forall|i: int| x <= i < end ==> #[trigger] style_at(row, i) == style_at(row, x)
            &&& (end == cols || style_at(row, end) != style_at(row, x))
            &&& text_row(row, y, cols, x).take(
                text_elem_spec(x as nat, y, (end - x) as nat, style_at(row, x), run_text(row, x, end)).len() as int,
            ) == text_elem_spec(x as nat, y, (end - x) as nat, style_at(row, x), run_text(row, x, end))
            &&& contains(
                text_row(row, y, cols, x),
                " textLength=\""@ + dec(10 * (end - x) as nat) + ".00\""@,
            )
        }),
{
    let end = style_run_end(row, cols, x, x + 1);
    lemma_style_run_end_bounds(row, cols, x, x + 1);
    lemma_style_run_is_maximal(row, cols, x, x + 1);
    assert forall|i: int| x <= i < end implies #[trigger] style_at(row, i) == style_at(row, x) by {
        if i > x {
            lemma_style_run_members(row, cols, x, x + 1, i);
        }
    }
    let st = style_at(row, x);
    let txt = run_text(row, x, end);
    let n = (end - x) as nat;
    let elem = text_elem_spec(x as nat, y, n, st, txt);
    let rest = text_row(row, y, cols, end);
    assert(text_row(row, y, cols, x) == elem + rest);
    assert((elem + rest).take(elem.len() as int) =~= elem);
    let needle = " textLength=\""@ + dec(10 * n) + ".00\""@;
    lemma_text_length_is_run_width(x as nat, y, n, st, txt, default_bg());
    let i = choose|i: int|
        0 <= i && i + needle.len() <= elem.len() && #[trigger] elem.subrange(i, i + needle.len())
            == needle;
    assert((elem + rest).subrange(i, i + needle.len()) =~= elem.subrange(i, i + needle.len()));
}

/// Dimming never brightens a channel.
pub proof fn lemma_dim_darkens(c: Rgb)
    ensures
        dim_spec(c).0 <= c.0,
        dim_spec(c).1 <= c.1,
        dim_spec(c).2 <= c.2,
{
}

/// Explicit 24-bit colors are drawn exactly as given, as foreground and as
/// background alike.
pub proof fn lemma_rgb_colors_preserved(r: u8, g: u8, b: u8, is_fg: bool)
    ensures
        resolve_color(Color::Rgb(r, g, b), is_fg) == (r, g, b),
{
}


// ---------------------------------------------------------------------------
// Hidden text does not show.
// ---------------------------------------------------------------------------

/// Everything about a cell that is drawn apart from its text.
pub struct CellLook {
    pub fg: Color,
    pub bg: Color,
    pub bold: bool,
    pub dim: bool,
    pub italic: bool,
    pub underline: bool,
    pub inverse: bool,
    pub invisible: bool,
    pub strike: bool,
}

/// The look of column `x` of a row; past the end of the row the cell is blank.
pub open spec fn look_at(row: Seq<EmuCell>, x: int) -> CellLook {
    if 0 <= x < row.len() {
        let c = row[x];
        CellLook {
            fg: c.fg,
            bg: c.bg,
            bold: c.bold,
            dim: c.dim,
            italic: c.italic,
            underline: c.underline,
            inverse: c.inverse,
            invisible: c.invisible,
            strike: c.strike,
        }
    } else {
        CellLook {
            fg: Color::Default,
            bg: Color::Default,
            bold: false,
            dim: false,
            italic: false,
            underline: false,
            inverse: false,
            invisible: false,
            strike: false,
        }
    }
}

/// The characters of column `x` of a row; past the end of the row, none.
pub open spec fn chars_at(row: Seq<EmuCell>, x: int) -> Seq<char> {
    if 0 <= x < row.len() { row[x].ch@ } else { seq![] }
}

/// Two rows agree on the first `cols` columns, except perhaps in the text of
/// invisible cells.
pub open spec fn rows_differ_only_in_hidden_text(r1: Seq<EmuCell>, r2: Seq<EmuCell>, cols: int) -> bool {
    forall|x: int|
        0 <= x < cols ==> #[trigger] look_at(r1, x) == look_at(r2, x) && (!look_at(r1, x).invisible
            ==> chars_at(r1, x) == chars_at(r2, x))
}

/// Two grids have the same number of rows, and each pair of rows agrees on
/// the first `cols` columns except perhaps in the text of invisible cells.
pub open spec fn grids_differ_only_in_hidden_text(
    g1: Seq<Vec<EmuCell>>,
    g2: Seq<Vec<EmuCell>>,
    cols: int,
) -> bool {
    &&& g1.len() == g2.len()
    &&& forall|y: int|
        0 <= y < g1.len() ==> rows_differ_only_in_hidden_text(#[trigger] g1[y]@, g2[y]@, cols)
}

proof fn lemma_cell_same_look(r1: Seq<EmuCell>, r2: Seq<EmuCell>, x: int)
    requires
        look_at(r1, x) == look_at(r2, x),
    ensures
        bg_at(r1, x) == bg_at(r2, x),
        style_at(r1, x) == style_at(r2, x),
        style_at(r1, x).invisible == look_at(r1, x).invisible,
        chars_at(r1, x) == chars_at(r2, x) ==> text_at(r1, x) == text_at(r2, x),
{
}

proof fn lemma_bg_run_end_same(r1: Seq<EmuCell>, r2: Seq<EmuCell>, cols: int, x: int, k: int)
    requires
        rows_differ_only_in_hidden_text(r1, r2, cols),
        0 <= x < cols,
        x < k,
    ensures
        bg_run_end(r1, cols, x, k) == bg_run_end(r2, cols, x, k),
    decreases cols - k,
{
    assert(look_at(r1, x) == look_at(r2, x));
    lemma_cell_same_look(r1, r2, x);
    if k < cols {
        assert(look_at(r1, k) == look_at(r2, k));
        lemma_cell_same_look(r1, r2, k);
        lemma_bg_run_end_same(r1, r2, cols, x, k + 1);
    }
}

proof fn lemma_style_run_end_same(r1: Seq<EmuCell>, r2: Seq<EmuCell>, cols: int, x: int, k: int)
    requires
        rows_differ_only_in_hidden_text(r1, r2, cols),
        0 <= x < cols,
        x < k,
    ensures
        style_run_end(r1, cols, x, k) == style_run_end(r2, cols, x, k),
    decreases cols - k,
{
    assert(look_at(r1, x) == look_at(r2, x));
    lemma_cell_same_look(r1, r2, x);
    if k < cols {
        assert(look_at(r1, k) == look_at(r2, k));
        lemma_cell_same_look(r1, r2, k);
        lemma_style_run_end_same(r1, r2, cols, x, k + 1);
    }
}

/// Every cell of a style run, from where the scan started, has the run's style.
proof fn lemma_style_run_members(row: Seq<EmuCell>, cols: int, x: int, k: int, i: int)
    requires
        k <= i < style_run_end(row, cols, x, k),
    ensures
        style_at(row, i) == style_at(row, x),
    decreases cols - k,
{
    if k < cols && style_at(row, k) == style_at(row, x) {
        if i > k {
            lemma_style_run_members(row, cols, x, k + 1, i);
        }
    }
}

proof fn lemma_run_text_same(r1: Seq<EmuCell>, r2: Seq<EmuCell>, x: int, k: int)
    requires
        forall|i: int| x <= i < k ==> #[trigger] text_at(r1, i) == text_at(r2, i),
    ensures
        run_text(r1, x, k) == run_text(r2, x, k),
    decreases k - x,
{
    if k > x {
        lemma_run_text_same(r1, r2, x, k - 1);
        assert(text_at(r1, k - 1) == text_at(r2, k - 1));
    }
}

proof fn lemma_bg_row_same(r1: Seq<EmuCell>, r2: Seq<EmuCell>, y: nat, cols: int, x: int)
    requires
        rows_differ_only_in_hidden_text(r1, r2, cols),
        0 <= x,
    ensures
        bg_row(r1, y, cols, x) == bg_row(r2, y, cols, x),
    decreases cols - x,
{
    if x < cols {
        assert(look_at(r1, x) == look_at(r2, x));
        lemma_cell_same_look(r1, r2, x);
        lemma_bg_run_end_same(r1, r2, cols, x, x + 1);
        lemma_bg_run_end_bounds(r1, cols, x, x + 1);
        lemma_bg_row_same(r1, r2, y, cols, bg_run_end(r1, cols, x, x + 1));
    }
}

proof fn lemma_text_row_same(r1: Seq<EmuCell>, r2: Seq<EmuCell>, y: nat, cols: int, x: int)
    requires
        rows_differ_only_in_hidden_text(r1, r2, cols),
        0 <= x,
    ensures
        text_row(r1, y, cols, x) == text_row(r2, y, cols, x),
    decreases cols - x,
{
    if x < cols {
        assert(look_at(r1, x) == look_at(r2, x));
        lemma_cell_same_look(r1, r2, x);
        lemma_style_run_end_same(r1, r2, cols, x, x + 1);
        lemma_style_run_end_bounds(r1, cols, x, x + 1);
        let end = style_run_end(r1, cols, x, x + 1);
        if !style_at(r1, x).invisible {
            assert forall|i: int| x <= i < end implies #[trigger] text_at(r1, i) == text_at(r2, i) by {
                if i > x {
                    lemma_style_run_members(r1, cols, x, x + 1, i);
                }
                assert(look_at(r1, i) == look_at(r2, i));
                lemma_cell_same_look(r1, r2, i);
            }
            lemma_run_text_same(r1, r2, x, end);
        }
        lemma_text_row_same(r1, r2, y, cols, end);
    }
}

proof fn lemma_rows_same(g1: Seq<Vec<EmuCell>>, g2: Seq<Vec<EmuCell>>, cols: int, n: int)
    requires
        grids_differ_only_in_hidden_text(g1, g2, cols),
        n <= g1.len(),
    ensures
        bg_rows(g1, cols, n) == bg_rows(g2, cols, n),
        text_rows(g1, cols, n) == text_rows(g2, cols, n),
    decreases n,
{
    if n > 0 {
        lemma_rows_same(g1, g2, cols, n - 1);
        assert(rows_differ_only_in_hidden_text(g1[n - 1]@, g2[n - 1]@, cols));
        lemma_bg_row_same(g1[n - 1]@, g2[n - 1]@, (n - 1) as nat, cols, 0);
        lemma_text_row_same(g1[n - 1]@, g2[n - 1]@, (n - 1) as nat, cols, 0);
    }
}

/// The text of an invisible cell is never drawn: two grids that differ only
/// in the characters of invisible cells (and in anything past column `cols`,
/// where a row ends or not) render to the same document.
pub proof fn lemma_hidden_text_is_not_drawn(g1: Seq<Vec<EmuCell>>, g2: Seq<Vec<EmuCell>>, cols: nat)
    requires
        grids_differ_only_in_hidden_text(g1, g2, cols as int),
    ensures
        svg_spec(g1, cols) == svg_spec(g2, cols),
{
    lemma_rows_same(g1, g2, cols as int, g1.len() as int);
}

} // verus!
