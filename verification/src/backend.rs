//! Backend selection: which terminal emulator a session runs on.
use vstd::prelude::*;

use crate::text::{
    chars_eq_str, is_ws, lemma_lower_facts, lemma_trim_noop, lemma_trim_shape, lower, lower_chars,
    push_str_chars, string_from_chars, trim, trim_chars,
};

verus! {

/// Scrollback retained by every session, in rows.
pub const SCROLLBACK: usize = 5_000;

/// The emulator a session drives its PTY output through.
///
/// Both backends pass the same conformance suite, so this picks which
/// emulator's interpretation of an ambiguous sequence a session sees, not
/// which features it gets.
#[derive(Debug, Clone, Copy, PartialEq, Eq, Structural)]
pub enum Backend {
    Alacritty,
    XtermJs,
}

/// What it takes to construct a session's emulator: which backend, the
/// screen size, and how many rows of scrollback it keeps.
#[derive(Debug, Clone, Copy, PartialEq, Eq, Structural)]
pub struct EmulatorSpec {
    pub backend: Backend,
    pub cols: u16,
    pub rows: u16,
    pub scrollback: usize,
}

/// Rust's `Debug` rendering of a string: the text in double quotes with
/// quotes, backslashes and non-printable characters escaped.
pub uninterp spec fn debug_str(s: Seq<char>) -> Seq<char>;

/// Formats a string the way `{:?}` does.
///
/// Trusted: calls the standard library's `Debug` implementation for `str`
/// through `format!`. The result is named `debug_str` of the argument; nothing
/// more about it is stated.
#[verifier::external_body]
fn debug_quote(s: &str) -> (r: String)
    ensures
        r@ == debug_str(s@),
{
    format!("{s:?}")
}

/// The message of a refused backend name, given the name as it was matched
/// (trimmed and lowercased).
pub open spec fn unknown_backend_message(name: Seq<char>) -> Seq<char> {
    unknown_backend_text(debug_str(name))
}

/// The refusal message around an already quoted name.
pub open spec fn unknown_backend_text(quoted: Seq<char>) -> Seq<char> {
    "unknown backend "@ + quoted + "; expected one of: alacritty, xtermjs"@
}

/// Builds the refusal message for a name, given the name as `{:?}` quotes it.
pub fn unknown_backend_error(quoted: &str) -> (m: String)
    ensures
        m@ == unknown_backend_text(quoted@),
{
    let mut msg = String::from_str("unknown backend ");
    msg.append(quoted);
    msg.append("; expected one of: alacritty, xtermjs");
    msg
}

/// The backend a name selects: the name is trimmed and lowercased, then
/// `alacritty` selects Alacritty and `xtermjs`, `xterm.js` or `xterm` select
/// xterm.js; any other name is refused with a message that lists the valid ones.
pub open spec fn parse_spec(s: Seq<char>) -> Result<Backend, Seq<char>> {
    let t = lower(trim(s));
    if t == "alacritty"@ {
        Ok(Backend::Alacritty)
    } else if t == "xtermjs"@ || t == "xterm.js"@ || t == "xterm"@ {
        Ok(Backend::XtermJs)
    } else {
        Err(unknown_backend_message(t))
    }
}

impl Default for Backend {
    /// Alacritty, so sessions that never chose a backend keep the one they had.
    fn default() -> (b: Backend)
        ensures
            b == Backend::Alacritty,
    {
        Backend::Alacritty
    }
}

impl Backend {
    /// Both backends, in a fixed order.
    pub const ALL: [Backend; 2] = [Backend::Alacritty, Backend::XtermJs];

    /// The wire name of a backend.
    pub open spec fn name(self) -> Seq<char> {
        match self {
            Backend::Alacritty => "alacritty"@,
            Backend::XtermJs => "xtermjs"@,
        }
    }

    /// The wire name of this backend.
    pub fn as_str(self) -> (s: &'static str)
        ensures
            s@ == self.name(),
    {
        match self {
            Backend::Alacritty => "alacritty",
            Backend::XtermJs => "xtermjs",
        }
    }

    /// What to construct for a session of `cols` x `rows` on this backend:
    /// this backend at that size, keeping `SCROLLBACK` rows of scrollback.
    ///
    /// The emulators themselves are not part of this crate, so this returns
    /// the description of the emulator to construct rather than a running
    /// one, and it cannot fail; constructing it, and any failure to start
    /// it, belong to whoever holds the emulator implementations.
    pub fn build(self, cols: u16, rows: u16) -> (e: EmulatorSpec)
        ensures
            e == (EmulatorSpec { backend: self, cols, rows, scrollback: SCROLLBACK }),
    {
        EmulatorSpec { backend: self, cols, rows, scrollback: SCROLLBACK }
    }

    /// Parses a backend name as a user types it (see `parse_spec`).
    pub fn parse(s: &str) -> (r: Result<Backend, String>)
        ensures
            match r {
                Ok(b) => parse_spec(s@) == Ok::<Backend, Seq<char>>(b),
                Err(m) => parse_spec(s@) == Err::<Backend, Seq<char>>(m@),
            },
    {
        let mut chars: Vec<char> = Vec::new();
        push_str_chars(&mut chars, s);
        assert(chars@ =~= s@);
        let t = lower_chars(&trim_chars(&chars));
        if chars_eq_str(&t, "alacritty") {
            Ok(Backend::Alacritty)
        } else if chars_eq_str(&t, "xtermjs") || chars_eq_str(&t, "xterm.js") || chars_eq_str(
            &t,
            "xterm",
        ) {
            Ok(Backend::XtermJs)
        } else {
            let name = string_from_chars(&t);
            let quoted = debug_quote(name.as_str());
            Err(unknown_backend_error(quoted.as_str()))
        }
    }
}

impl std::str::FromStr for Backend {
    type Err = String;

    fn from_str(s: &str) -> (r: Result<Backend, String>)
        ensures
            match r {
                Ok(b) => parse_spec(s@) == Ok::<Backend, Seq<char>>(b),
                Err(m) => parse_spec(s@) == Err::<Backend, Seq<char>>(m@),
            },
    {
        Backend::parse(s)
    }
}


/// Whether `needle` occurs in `hay`.
pub open spec fn contains(hay: Seq<char>, needle: Seq<char>) -> bool {
    exists|i: int|
        0 <= i && i + needle.len() <= hay.len() && #[trigger] hay.subrange(i, i + needle.len())
            == needle
}

/// Every backend's wire name parses back to that backend.
pub proof fn lemma_names_round_trip(b: Backend)
    ensures
        parse_spec(b.name()) == Ok::<Backend, Seq<char>>(b),
{
    reveal_strlit("alacritty");
    reveal_strlit("xtermjs");
    let n = b.name();
    assert(!is_ws(n[0]) && !is_ws(n.last()));
    lemma_trim_noop(n);
    assert(lower(n) =~= n);
}

/// A refused name is answered with a message that names both valid backends.
pub proof fn lemma_unknown_names_valid_ones(s: Seq<char>)
    ensures
        parse_spec(s) matches Err(m) ==> contains(m, "alacritty"@) && contains(m, "xtermjs"@),
{
    reveal_strlit("; expected one of: alacritty, xtermjs");
    reveal_strlit("alacritty");
    reveal_strlit("xtermjs");
    if let Err(m) = parse_spec(s) {
        let tail = "; expected one of: alacritty, xtermjs"@;
        let head = "unknown backend "@ + debug_str(lower(trim(s)));
        assert(m == head + tail);
        let i: int = head.len() as int + 19;
        assert(m.subrange(i, i + 9) =~= "alacritty"@);
        let j: int = head.len() as int + 30;
        assert(m.subrange(j, j + 7) =~= "xtermjs"@);
    }
}

/// Surrounding whitespace and ASCII case do not matter: a name parses the
/// same as its trimmed, lowercased form.
pub proof fn lemma_parse_ignores_case_and_padding(s: Seq<char>)
    ensures
        parse_spec(s) == parse_spec(lower(trim(s))),
{
    let w = trim(s);
    let t = lower(w);
    lemma_trim_shape(s);
    lemma_lower_facts(w);
    if t.len() > 0 {
        assert(is_ws(t[0]) == is_ws(w[0]));
        assert(is_ws(t[t.len() - 1]) == is_ws(w[w.len() - 1]));
    }
    lemma_trim_noop(t);
}

} // verus!
