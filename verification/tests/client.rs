use shell_use::client::{
    build_request, map_field, parse_env, usage_text, Command, DaemonCmd, ExpectCmd, GetArg,
    MouseCmd, WaitCmd,
};
use shell_use::protocol::{GetField, MouseAction, Request};

fn s(x: &str) -> String {
    x.to_string()
}

#[test]
fn parse_env_splits_at_the_first_equals() {
    let pairs = vec![s("A=1"), s("B=x=y"), s("C=")];
    let env = parse_env(&pairs).unwrap();
    assert_eq!(env, vec![(s("A"), s("1")), (s("B"), s("x=y")), (s("C"), s(""))]);
}

#[test]
fn parse_env_reports_the_first_bad_pair() {
    let pairs = vec![s("A=1"), s("BAD"), s("ALSO_BAD")];
    assert_eq!(parse_env(&pairs).unwrap_err(), "invalid env (expected KEY=VALUE): BAD");
}

#[test]
fn run_puts_the_program_before_its_arguments() {
    let cmd = Command::Run {
        program: s("vim"),
        args: vec![s("-u"), s("NONE")],
        cols: 100,
        rows: 40,
        cwd: Some(s("/tmp")),
        env: vec![s("TERM=xterm")],
    };
    match build_request(cmd).unwrap() {
        Request::Open { shell, program, cols, rows, cwd, env } => {
            assert_eq!(shell, None);
            assert_eq!(program, Some(vec![s("vim"), s("-u"), s("NONE")]));
            assert_eq!((cols, rows), (100, 40));
            assert_eq!(cwd, Some(s("/tmp")));
            assert_eq!(env, vec![(s("TERM"), s("xterm"))]);
        }
        other => panic!("unexpected {other:?}"),
    }
}

#[test]
fn open_with_a_bad_env_is_refused() {
    let cmd = Command::Open { shell: None, cols: 80, rows: 30, cwd: None, env: vec![s("NOPE")] };
    assert_eq!(build_request(cmd).unwrap_err(), "invalid env (expected KEY=VALUE): NOPE");
}

#[test]
fn keys_and_kill_and_screenshot() {
    match build_request(Command::Keys { combo: s("Ctrl+a") }).unwrap() {
        Request::Press { keys } => assert_eq!(keys, vec![s("Ctrl+a")]),
        other => panic!("unexpected {other:?}"),
    }
    match build_request(Command::Kill).unwrap() {
        Request::Signal { name } => assert_eq!(name, "KILL"),
        other => panic!("unexpected {other:?}"),
    }
    let cmd = Command::Screenshot { path: Some(s("a.svg")), out: Some(s("b.svg")), full: true };
    match build_request(cmd).unwrap() {
        Request::Screenshot { full, path } => {
            assert!(full);
            assert_eq!(path, Some(s("b.svg")));
        }
        other => panic!("unexpected {other:?}"),
    }
    let cmd = Command::Screenshot { path: Some(s("a.svg")), out: None, full: false };
    match build_request(cmd).unwrap() {
        Request::Screenshot { path, .. } => assert_eq!(path, Some(s("a.svg"))),
        other => panic!("unexpected {other:?}"),
    }
}

#[test]
fn expect_text_is_strict_unless_told_otherwise() {
    let cmd = Command::Expect {
        what: ExpectCmd::Text {
            text: s("ok"),
            regex: false,
            full: false,
            no_strict: true,
            not: false,
            fg: Some(s("red")),
            bg: None,
            timeout: 1234,
        },
    };
    match build_request(cmd).unwrap() {
        Request::ExpectText { strict, timeout_ms, fg, .. } => {
            assert!(!strict);
            assert_eq!(timeout_ms, 1234);
            assert_eq!(fg, Some(s("red")));
        }
        other => panic!("unexpected {other:?}"),
    }
}

#[test]
fn wait_daemon_get_and_mouse() {
    match build_request(Command::Wait { what: WaitCmd::Idle { timeout: 7 } }).unwrap() {
        Request::WaitIdle { timeout_ms } => assert_eq!(timeout_ms, 7),
        other => panic!("unexpected {other:?}"),
    }
    assert!(matches!(
        build_request(Command::Daemon { cmd: DaemonCmd::Stop }).unwrap(),
        Request::Shutdown
    ));
    assert!(matches!(
        build_request(Command::Get { field: GetArg::ExitCode }).unwrap(),
        Request::Get { field: GetField::ExitCode }
    ));
    assert_eq!(map_field(GetArg::Cwd), GetField::Cwd);
    let cmd = Command::Mouse { action: MouseCmd::Drag { x1: 1, y1: 2, x2: 3, y2: 4, button: 0 } };
    match build_request(cmd).unwrap() {
        Request::Mouse { action: MouseAction::Drag { x1, y1, x2, y2, button } } => {
            assert_eq!((x1, y1, x2, y2, button), (1, 2, 3, 4, 0))
        }
        other => panic!("unexpected {other:?}"),
    }
    assert!(matches!(build_request(Command::Close { all: false }).unwrap(), Request::Close));
}

#[test]
fn local_commands_are_not_sent() {
    for cmd in [Command::Usage, Command::Sessions, Command::Monitor, Command::Skill] {
        assert_eq!(build_request(cmd).unwrap_err(), "unsupported command");
    }
}

#[test]
fn usage_lists_the_exit_codes() {
    let u = usage_text();
    assert!(u.starts_with("shell-use: headless terminal CLI + daemon\n\nSESSION   open"));
    assert!(u.ends_with(
        "EXIT      0 ok | 1 assertion/wait failed | 2 usage | 3 no session | 4 daemon/IPC | 5 internal\n"
    ));
}

use shell_use::client::{
    daemon_start_step, daemon_wait_step, remote_exit_code, DaemonStep, RemoteOutcome,
    DAEMON_POLL_MS, DAEMON_START_TIMEOUT_MS,
};
use shell_use::protocol::Response;

#[test]
fn daemon_start_waits_five_seconds_polling_every_fifty_ms() {
    assert_eq!(DAEMON_START_TIMEOUT_MS, 5_000);
    assert_eq!(DAEMON_POLL_MS, 50);
    assert_eq!(daemon_start_step(true), DaemonStep::Ready);
    assert_eq!(daemon_start_step(false), DaemonStep::Spawn);
    assert_eq!(daemon_wait_step(0, false), DaemonStep::Sleep(50));
    assert_eq!(daemon_wait_step(4_999, true), DaemonStep::Ready);
    assert_eq!(daemon_wait_step(5_000, true), DaemonStep::GiveUp);
    assert_eq!(daemon_wait_step(9_000, false), DaemonStep::GiveUp);
}

#[test]
fn remote_commands_exit_with_the_documented_codes() {
    assert_eq!(remote_exit_code(&RemoteOutcome::Refused), 2);
    assert_eq!(remote_exit_code(&RemoteOutcome::DaemonUnavailable), 4);
    assert_eq!(remote_exit_code(&RemoteOutcome::RequestFailed), 4);
    assert_eq!(remote_exit_code(&RemoteOutcome::Answered(Response::ok())), 0);
    assert_eq!(remote_exit_code(&RemoteOutcome::Answered(Response::no_session())), 3);
}

use shell_use::client::{recording_exit_code, sessions_text, RecordingRead};

#[test]
fn local_command_outputs() {
    assert_eq!(recording_exit_code(RecordingRead::Read), 0);
    assert_eq!(recording_exit_code(RecordingRead::NotFound), 3);
    assert_eq!(recording_exit_code(RecordingRead::Failed), 5);
    assert_eq!(sessions_text(&vec![]), "no active sessions\n");
    assert_eq!(sessions_text(&vec![s("a"), s("work")]), "a\nwork\n");
}
