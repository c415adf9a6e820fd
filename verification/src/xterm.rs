//! Decoding of the packed grid that the xterm.js backend hands across the
//! JavaScript boundary.
//!
//! A span of rows arrives as two values: one string holding every cell's
//! characters separated by NUL, and one integer array holding six integers
//! per cell (`width, fg, bg, underline color, underline style, flags`). The
//! `flags` integer packs the SGR booleans in its low seven bits and, above
//! them, the bits that say how to read each color slot.
use vstd::prelude::*;

use crate::render::svg::Color;
use crate::text::{push_char, push_str_chars};

verus! {

/// Ints per cell in the packed `meta` array.
pub const STRIDE: usize = 6;

/// Color-mode bits, packed alongside the SGR booleans in the `flags` int.
pub const FG_PALETTE: i32 = 256;
pub const FG_RGB: i32 = 512;
pub const BG_PALETTE: i32 = 1024;
pub const BG_RGB: i32 = 2048;
pub const UL_PALETTE: i32 = 4096;
pub const UL_RGB: i32 = 8192;

/// The text of the second column of a double-width character.
pub const CONTINUATION: &'static str = "";

/// How a cell is underlined.
#[derive(Debug, Clone, Copy, PartialEq, Eq, Structural)]
pub enum UnderlineStyle {
    Off,
    Single,
    Double,
    Curly,
    Dotted,
    Dashed,
}

/// The SGR attributes of a cell.
#[derive(Debug, Clone, Copy, PartialEq, Eq, Structural)]
pub struct Attrs {
    pub bold: bool,
    pub dim: bool,
    pub italic: bool,
    pub inverse: bool,
    pub invisible: bool,
    pub strike: bool,
    pub blink: bool,
}

/// One decoded cell. A color of `None` is the terminal default.
#[derive(Debug)]
pub struct XtermCell {
    pub ch: String,
    pub fg: Option<Color>,
    pub bg: Option<Color>,
    pub underline: UnderlineStyle,
    pub underline_color: Option<Color>,
    pub attrs: Attrs,
}

/// The color in slot `raw`: a palette index (its low byte) when
/// `palette_bit` is set in `flags`, else a 24-bit color (bytes 2, 1, 0 as
/// red, green, blue) when `rgb_bit` is set, else the default.
pub open spec fn color_spec(raw: i32, flags: i32, palette_bit: i32, rgb_bit: i32) -> Option<Color> {
    if flags & palette_bit != 0 {
        Some(Color::Idx(raw as u8))
    } else if flags & rgb_bit != 0 {
        Some(Color::Rgb(((raw >> 16) & 0xff) as u8, ((raw >> 8) & 0xff) as u8, (raw & 0xff) as u8))
    } else {
        None
    }
}

/// Decodes one color slot.
pub fn color(raw: i32, flags: i32, palette_bit: i32, rgb_bit: i32) -> (c: Option<Color>)
    ensures
        c == color_spec(raw, flags, palette_bit, rgb_bit),
{
    if flags & palette_bit != 0 {
        Some(Color::Idx(raw as u8))
    } else if flags & rgb_bit != 0 {
        Some(Color::Rgb(((raw >> 16) & 0xff) as u8, ((raw >> 8) & 0xff) as u8, (raw & 0xff) as u8))
    } else {
        None
    }
}

/// xterm.js's underline style numbering; anything else is no underline.
pub open spec fn underline_spec(raw: i32) -> UnderlineStyle {
    if raw == 1 {
        UnderlineStyle::Single
    } else if raw == 2 {
        UnderlineStyle::Double
    } else if raw == 3 {
        UnderlineStyle::Curly
    } else if raw == 4 {
        UnderlineStyle::Dotted
    } else if raw == 5 {
        UnderlineStyle::Dashed
    } else {
        UnderlineStyle::Off
    }
}

/// Decodes the underline style.
pub fn underline(raw: i32) -> (u: UnderlineStyle)
    ensures
        u == underline_spec(raw),
{
    match raw {
        1 => UnderlineStyle::Single,
        2 => UnderlineStyle::Double,
        3 => UnderlineStyle::Curly,
        4 => UnderlineStyle::Dotted,
        5 => UnderlineStyle::Dashed,
        _ => UnderlineStyle::Off,
    }
}

/// The SGR booleans in the low seven bits of `flags`, in the order bold,
/// dim, italic, inverse, invisible, strike, blink.
pub open spec fn attrs_spec(flags: i32) -> Attrs {
    Attrs {
        bold: flags & 1 != 0,
        dim: flags & 2 != 0,
        italic: flags & 4 != 0,
        inverse: flags & 8 != 0,
        invisible: flags & 16 != 0,
        strike: flags & 32 != 0,
        blink: flags & 64 != 0,
    }
}

/// Decodes the SGR attributes.
pub fn attrs(flags: i32) -> (a: Attrs)
    ensures
        a == attrs_spec(flags),
{
    Attrs {
        bold: flags & 1 != 0,
        dim: flags & 2 != 0,
        italic: flags & 4 != 0,
        inverse: flags & 8 != 0,
        invisible: flags & 16 != 0,
        strike: flags & 32 != 0,
        blink: flags & 64 != 0,
    }
}

/// Whether bit `k` (the bit of value 2^k) of a flags int is set, reading the
/// int as its 32 two's-complement bits.
pub open spec fn flag_bit(flags: i32, k: u32) -> bool {
    ((flags as u32) >> k) & 1u32 == 1u32
}

/// The `k`-th SGR attribute in packing order: bold, dim, italic, inverse,
/// invisible, strike, blink.
pub open spec fn attr_bit(a: Attrs, k: u32) -> bool {
    if k == 0 {
        a.bold
    } else if k == 1 {
        a.dim
    } else if k == 2 {
        a.italic
    } else if k == 3 {
        a.inverse
    } else if k == 4 {
        a.invisible
    } else if k == 5 {
        a.strike
    } else {
        a.blink
    }
}

/// The attributes are packed one per bit in the low seven bits of the flags
/// int: the `k`-th attribute (bold, dim, italic, inverse, invisible, strike,
/// blink) is set exactly when bit `k` of the flags is set, and no other bit
/// of the flags has any effect.
pub proof fn lemma_attrs_are_flag_bits(flags: i32)
    ensures
        forall|k: u32| k < 7 ==> #[trigger] attr_bit(attrs_spec(flags), k) == flag_bit(flags, k),
        attrs_spec(flags) == attrs_spec(flags & 127i32),
{
    assert((flags & 1 != 0) == ((((flags as u32) >> 0u32) & 1u32) == 1u32)) by (bit_vector);
    assert((flags & 2 != 0) == ((((flags as u32) >> 1u32) & 1u32) == 1u32)) by (bit_vector);
    assert((flags & 4 != 0) == ((((flags as u32) >> 2u32) & 1u32) == 1u32)) by (bit_vector);
    assert((flags & 8 != 0) == ((((flags as u32) >> 3u32) & 1u32) == 1u32)) by (bit_vector);
    assert((flags & 16 != 0) == ((((flags as u32) >> 4u32) & 1u32) == 1u32)) by (bit_vector);
    assert((flags & 32 != 0) == ((((flags as u32) >> 5u32) & 1u32) == 1u32)) by (bit_vector);
    assert((flags & 64 != 0) == ((((flags as u32) >> 6u32) & 1u32) == 1u32)) by (bit_vector);
    assert(((flags & 127i32) & 1 != 0) == (flags & 1 != 0)
        && ((flags & 127i32) & 2 != 0) == (flags & 2 != 0)
        && ((flags & 127i32) & 4 != 0) == (flags & 4 != 0)
        && ((flags & 127i32) & 8 != 0) == (flags & 8 != 0)
        && ((flags & 127i32) & 16 != 0) == (flags & 16 != 0)
        && ((flags & 127i32) & 32 != 0) == (flags & 32 != 0)
        && ((flags & 127i32) & 64 != 0) == (flags & 64 != 0)) by (bit_vector);
}

/// In a decoded cell, the `k`-th attribute is bit `k` of the cell's flags int
/// (the sixth int of its group in `meta`).
pub proof fn lemma_decoded_attrs_are_flag_bits(
    c: XtermCell,
    pieces: Seq<Seq<char>>,
    meta: Seq<i32>,
    i: int,
)
    requires
        cell_decodes(c, pieces, meta, i),
    ensures
        forall|k: u32| k < 7 ==> #[trigger] attr_bit(c.attrs, k) == flag_bit(meta[STRIDE * i + 5], k),
{
    lemma_attrs_are_flag_bits(meta[STRIDE * i + 5]);
}

/// The pieces of `s` between NUL characters (what `str::split('\0')` yields):
/// always at least one piece, and one more than there are NULs.
pub open spec fn split_nul(s: Seq<char>) -> Seq<Seq<char>>
    decreases s.len(),
{
    if s.len() == 0 {
        seq![seq![]]
    } else {
        let p = split_nul(s.drop_last());
        if s.last() == '\0' {
            p.push(seq![])
        } else {
            p.update(p.len() - 1, p.last().push(s.last()))
        }
    }
}

/// `split_nul` always yields at least one piece.
pub proof fn lemma_split_nul_nonempty(s: Seq<char>)
    ensures
        split_nul(s).len() >= 1,
    decreases s.len(),
{
    if s.len() > 0 {
        lemma_split_nul_nonempty(s.drop_last());
    }
}

/// The characters of cell `i`: its piece (a space when the pieces ran out),
/// except that a zero-width cell is a continuation (`CONTINUATION`) and an empty piece
/// renders as one space.
pub open spec fn cell_ch_spec(pieces: Seq<Seq<char>>, width: i32, i: int) -> Seq<char> {
    let piece = if 0 <= i < pieces.len() { pieces[i] } else { seq![' '] };
    if width == 0 {
        CONTINUATION@
    } else if piece.len() == 0 {
        seq![' ']
    } else {
        piece
    }
}

/// Whether `c` is cell `i` of the packed grid.
pub open spec fn cell_decodes(c: XtermCell, pieces: Seq<Seq<char>>, meta: Seq<i32>, i: int) -> bool {
    let m = |k: int| meta[STRIDE * i + k];
    &&& c.ch@ == cell_ch_spec(pieces, m(0), i)
    &&& c.fg == color_spec(m(1), m(5), FG_PALETTE, FG_RGB)
    &&& c.bg == color_spec(m(2), m(5), BG_PALETTE, BG_RGB)
    &&& c.underline_color == color_spec(m(3), m(5), UL_PALETTE, UL_RGB)
    &&& c.underline == underline_spec(m(4))
    &&& c.attrs == attrs_spec(m(5))
}

/// Number of complete rows that `n_cells` cells fill at `cols` cells per row.
pub open spec fn full_rows(n_cells: nat, cols: nat) -> nat {
    if cols == 0 { 0 } else { n_cells / cols }
}

/// Splits `s` on NUL.
fn split_on_nul(s: &str) -> (pieces: Vec<String>)
    ensures
        pieces@.len() == split_nul(s@).len(),
        forall|k: int| 0 <= k < pieces@.len() ==> #[trigger] pieces@[k]@ == split_nul(s@)[k],
{
    let mut chars: Vec<char> = Vec::new();
    push_str_chars(&mut chars, s);
    assert(chars@ =~= s@);
    let n = chars.len();
    let mut done: Vec<String> = Vec::new();
    let mut cur = String::new();
    let mut i: usize = 0;
    assert(chars@.take(0) =~= Seq::<char>::empty());
    while i < n
        invariant
            n == chars@.len(),
            chars@ == s@,
            i <= n,
            done@.len() + 1 == split_nul(chars@.take(i as int)).len(),
            forall|k: int|
                0 <= k < done@.len() ==> #[trigger] done@[k]@ == split_nul(chars@.take(i as int))[k],
            cur@ == split_nul(chars@.take(i as int)).last(),
        decreases n - i,
    {
        let c = chars[i];
        let ghost prev = chars@.take(i as int);
        assert(chars@.take(i + 1).drop_last() =~= prev);
        proof {
            lemma_split_nul_nonempty(prev);
        }
        if c == '\0' {
            done.push(cur);
            cur = String::new();
        } else {
            push_char(&mut cur, c);
        }
        i += 1;
    }
    assert(chars@.take(n as int) =~= chars@);
    done.push(cur);
    done
}

/// The characters of cell `i` as a string.
fn cell_ch(pieces: &Vec<String>, width: i32, i: usize) -> (ch: String)
    ensures
        ch@ == cell_ch_spec(pieces@.map_values(|p: String| p@), width, i as int),
{
    proof {
        reveal_strlit(" ");
    }
    if width == 0 {
        String::from_str(CONTINUATION)
    } else if i < pieces.len() {
        if pieces[i].as_str().is_empty() {
            String::from_str(" ")
        } else {
            pieces[i].clone()
        }
    } else {
        String::from_str(" ")
    }
}


/// Decodes cell `i` of the packed grid.
fn decode_cell(pieces: &Vec<String>, meta: &[i32], i: usize) -> (c: XtermCell)
    requires
        STRIDE * i + STRIDE <= meta@.len(),
    ensures
        cell_decodes(c, pieces@.map_values(|p: String| p@), meta@, i as int),
{
    let n = meta.len();
    assert(STRIDE * i <= n);
    let base = STRIDE * i;
    let width = meta[base];
    let fg = meta[base + 1];
    let bg = meta[base + 2];
    let ul_color = meta[base + 3];
    let ul_style = meta[base + 4];
    let flags = meta[base + 5];
    XtermCell {
        ch: cell_ch(pieces, width, i),
        fg: color(fg, flags, FG_PALETTE, FG_RGB),
        bg: color(bg, flags, BG_PALETTE, BG_RGB),
        underline: underline(ul_style),
        underline_color: color(ul_color, flags, UL_PALETTE, UL_RGB),
        attrs: attrs(flags),
    }
}

proof fn lemma_cell_index_bound(r: int, c: int, cols: int, n_rows: int, n_cells: int)
    by (nonlinear_arith)
    requires
        0 <= r < n_rows,
        0 <= c < cols,
        n_rows == n_cells / cols,
        cols > 0,
        n_cells >= 0,
    ensures
        r * cols + c < n_cells,
        (r + 1) * cols == r * cols + cols,
{
}

/// Decodes a packed span of rows into rows of `cols` cells.
///
/// `chars` holds the cells' characters separated by NUL and `meta` holds
/// `STRIDE` integers per cell. Cells are taken in order, `cols` to a row;
/// cells that do not fill a last row are dropped, as are integers that do
/// not fill a last cell. A zero-width cell is the second column of a
/// double-width character and gets `CONTINUATION` as its text; a cell whose
/// piece is empty, or for which the pieces ran out, renders as one space.
#[verifier::rlimit(40)]
pub fn decode_rows(chars: &str, meta: &[i32], cols: u16) -> (rows: Vec<Vec<XtermCell>>)
    requires
        cols > 0 || meta@.len() < STRIDE,
    ensures
        rows@.len() == full_rows(meta@.len() / STRIDE as nat, cols as nat),
        forall|r: int|
            0 <= r < rows@.len() ==> (#[trigger] rows@[r])@.len() == cols as int && forall|c: int|
                0 <= c < cols ==> cell_decodes(
                    #[trigger] rows@[r]@[c],
                    split_nul(chars@),
                    meta@,
                    r * cols + c,
                ),
{
    let pieces = split_on_nul(chars);
    assert(pieces@.map_values(|p: String| p@) =~= split_nul(chars@));
    let cols = cols as usize;
    let n_cells = meta.len() / STRIDE;
    let n_rows = if cols == 0 {
        0
    } else {
        n_cells / cols
    };
    let mut out: Vec<Vec<XtermCell>> = Vec::new();
    let mut r: usize = 0;
    let mut i: usize = 0;
    while r < n_rows
        invariant
            n_rows == full_rows(n_cells as nat, cols as nat),
            n_cells == meta@.len() / STRIDE as nat,
            pieces@.map_values(|p: String| p@) == split_nul(chars@),
            r <= n_rows,
            i == r * cols,
            out@.len() == r,
            forall|a: int|
                0 <= a < r ==> (#[trigger] out@[a])@.len() == cols as int && forall|b: int|
                    0 <= b < cols ==> cell_decodes(
                        #[trigger] out@[a]@[b],
                        split_nul(chars@),
                        meta@,
                        a * cols + b,
                    ),
        decreases n_rows - r,
    {
        let mut row: Vec<XtermCell> = Vec::new();
        let mut c: usize = 0;
        while c < cols
            invariant
                n_rows == full_rows(n_cells as nat, cols as nat),
                n_cells == meta@.len() / STRIDE as nat,
                pieces@.map_values(|p: String| p@) == split_nul(chars@),
                r < n_rows,
                c <= cols,
                i == r * cols + c,
                row@.len() == c,
                forall|b: int|
                    0 <= b < c ==> cell_decodes(
                        #[trigger] row@[b],
                        split_nul(chars@),
                        meta@,
                        r * cols + b,
                    ),
            decreases cols - c,
        {
            proof {
                lemma_cell_index_bound(r as int, c as int, cols as int, n_rows as int, n_cells as int);
            }
            row.push(decode_cell(&pieces, meta, i));
            c += 1;
            i += 1;
        }
        proof {
            lemma_cell_index_bound(r as int, 0, cols as int, n_rows as int, n_cells as int);
        }
        out.push(row);
        r += 1;
    }
    out
}

/// The cursor position reported back from the emulator, clamped to the
/// screen: each coordinate is raised to at least 0, taken as a `u16`
/// (wrapping modulo 65536, as `as u16` does), then capped at the last
/// column or row (at 0 on an empty screen).
pub open spec fn cursor_spec(x: i32, y: i32, cols: u16, rows: u16) -> (u16, u16) {
    let cx = (if x < 0 { 0 } else { x as int % 65536 }) as u16;
    let cy = (if y < 0 { 0 } else { y as int % 65536 }) as u16;
    let max_x: u16 = if cols == 0 { 0 } else { (cols - 1) as u16 };
    let max_y: u16 = if rows == 0 { 0 } else { (rows - 1) as u16 };
    (if cx < max_x { cx } else { max_x }, if cy < max_y { cy } else { max_y })
}

fn wrap_u16(v: i32) -> (r: u16)
    requires
        v >= 0,
    ensures
        r == v as int % 65536,
{
    let r = (v % 65536) as u16;
    r
}

/// Clamps the emulator's reported cursor to a `cols` x `rows` screen.
pub fn clamp_cursor(x: i32, y: i32, cols: u16, rows: u16) -> (pos: (u16, u16))
    ensures
        pos == cursor_spec(x, y, cols, rows),
{
    let cx = wrap_u16(if x < 0 { 0 } else { x });
    let cy = wrap_u16(if y < 0 { 0 } else { y });
    let max_x = cols.saturating_sub(1);
    let max_y = rows.saturating_sub(1);
    (if cx < max_x { cx } else { max_x }, if cy < max_y { cy } else { max_y })
}


/// The reported cursor always lands on the screen, and a cursor that is
/// already on the screen is reported where it is.
pub proof fn lemma_cursor_on_screen(x: i32, y: i32, cols: u16, rows: u16)
    ensures
        cols > 0 ==> cursor_spec(x, y, cols, rows).0 < cols,
        rows > 0 ==> cursor_spec(x, y, cols, rows).1 < rows,
        0 <= x < cols ==> cursor_spec(x, y, cols, rows).0 == x,
        0 <= y < rows ==> cursor_spec(x, y, cols, rows).1 == y,
{
}

} // verus!
