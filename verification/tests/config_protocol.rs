use shell_use::config::{
    home_dir, join_path, log_file, pid_file, recording_dir, recording_file, session_name,
    socket_name,
};
use shell_use::protocol::{exit_code, ErrorKind, Response};

#[test]
fn paths_join_like_unix_paths() {
    assert_eq!(join_path("/home/u", "x"), "/home/u/x");
    assert_eq!(join_path("/home/u/", "x"), "/home/u/x");
    assert_eq!(join_path("", "x"), "x");
    assert_eq!(join_path("/home/u", "/abs"), "/abs");
}

#[test]
fn session_files_live_in_the_state_directory() {
    let home = home_dir(None, "/home/u");
    assert_eq!(home, "/home/u/.shell-use");
    assert_eq!(home_dir(Some("/tmp/su"), "/home/u"), "/tmp/su");
    assert_eq!(pid_file(&home, "default"), "/home/u/.shell-use/default.pid");
    assert_eq!(log_file(&home, "w"), "/home/u/.shell-use/w.log");
    assert_eq!(socket_name(&home, "w", false), "/home/u/.shell-use/w.sock");
    assert_eq!(socket_name(&home, "w", true), "shell-use-w.sock");
}

#[test]
fn recordings_go_to_the_cache_or_the_overridden_home() {
    assert_eq!(recording_dir(None, "/home/u/.cache"), "/home/u/.cache/shell-use");
    assert_eq!(recording_dir(Some("/tmp/su"), "/home/u/.cache"), "/tmp/su/recordings");
    assert_eq!(recording_file("/tmp/su/recordings", "s1"), "/tmp/su/recordings/s1.cast");
}

#[test]
fn session_name_prefers_the_flag_then_the_environment() {
    assert_eq!(session_name(Some("a".into()), Some("b".into())), "a");
    assert_eq!(session_name(None, Some("b".into())), "b");
    assert_eq!(session_name(None, None), "default");
}

#[test]
fn exit_codes_follow_the_taxonomy() {
    assert_eq!(ErrorKind::Assertion.exit_code(), 1);
    assert_eq!(ErrorKind::Usage.exit_code(), 2);
    assert_eq!(ErrorKind::NoSession.exit_code(), 3);
    assert_eq!(ErrorKind::Internal.exit_code(), 5);
    assert_eq!(exit_code(&Response::ok()), 0);
    assert_eq!(exit_code(&Response::with(serde_json::Value::String("hi".to_string()))), 0);
    assert_eq!(exit_code(&Response::assertion("nope")), 1);
    assert_eq!(exit_code(&Response::usage("bad regex")), 2);
    assert_eq!(exit_code(&Response::no_session()), 3);
    assert_eq!(exit_code(&Response::internal("io")), 5);
    let bare = Response { ok: false, data: None, message: None, kind: None };
    assert_eq!(exit_code(&bare), 1);
}

#[test]
fn failures_carry_their_message() {
    let r = Response::no_session();
    assert!(!r.ok);
    assert_eq!(r.kind, Some(ErrorKind::NoSession));
    assert_eq!(
        r.message.as_deref(),
        Some("no active session; run `shell-use open` (or `shell-use run <program>`) first")
    );
    assert!(r.data.is_none());
}
