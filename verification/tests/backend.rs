use shell_use::backend::{unknown_backend_error, Backend, SCROLLBACK};

#[test]
fn backend_names_round_trip() {
    for b in Backend::ALL {
        assert_eq!(b.as_str().parse::<Backend>(), Ok(b));
    }
}

#[test]
fn xtermjs_accepts_the_spellings_people_actually_type() {
    for s in ["xtermjs", "xterm.js", "xterm", "XtermJS", "  xterm.js  "] {
        assert_eq!(s.parse::<Backend>(), Ok(Backend::XtermJs), "parsing {s:?}");
    }
}

#[test]
fn an_unknown_backend_names_the_valid_ones() {
    let err = "ghostty".parse::<Backend>().unwrap_err();
    assert!(err.contains("alacritty") && err.contains("xtermjs"), "{err}");
}

#[test]
fn the_default_is_alacritty_so_existing_sessions_are_unchanged() {
    assert_eq!(Backend::default(), Backend::Alacritty);
}

#[test]
fn unknown_backend_message_quotes_the_normalized_name() {
    let err = "  GhostTY ".parse::<Backend>().unwrap_err();
    assert_eq!(err, "unknown backend \"ghostty\"; expected one of: alacritty, xtermjs");
}

#[test]
fn alacritty_parses_in_any_case_and_padding() {
    assert_eq!(Backend::parse("\tALACRITTY\n"), Ok(Backend::Alacritty));
    assert!(Backend::parse("alacrity").is_err());
    assert!(Backend::parse("").is_err());
    assert!(Backend::parse("xterm js").is_err());
}

#[test]
fn unicode_whitespace_is_trimmed_too() {
    assert_eq!(Backend::parse("\u{3000}xterm\u{a0}"), Ok(Backend::XtermJs));
}

#[test]
fn build_keeps_size_and_scrollback() {
    let e = Backend::XtermJs.build(20, 3);
    assert_eq!(e.backend, Backend::XtermJs);
    assert_eq!((e.cols, e.rows), (20, 3));
    assert_eq!(e.scrollback, SCROLLBACK);
    assert_eq!(SCROLLBACK, 5_000);
}

#[test]
fn the_refusal_message_wraps_the_quoted_name() {
    assert_eq!(
        unknown_backend_error("\"ghostty\""),
        "unknown backend \"ghostty\"; expected one of: alacritty, xtermjs"
    );
}
