//! The CLI side of a daemon-backed command: the parsed command line, how it
//! becomes a `Request`, and the usage summary.
use vstd::prelude::*;

use crate::backend::contains;
use crate::protocol::{exit_code, response_exit_code, GetField, MouseAction, Request, Response};
use crate::text::{push_char, push_str_chars, string_from_chars};

verus! {

/// `daemon status|stop`.
#[derive(Debug, Clone, Copy, PartialEq, Eq, Structural)]
pub enum DaemonCmd {
    Status,
    Stop,
}

/// The field named by `get`.
#[derive(Debug, Clone, Copy, PartialEq, Eq, Structural)]
pub enum GetArg {
    Command,
    Output,
    ExitCode,
    Cwd,
    Cursor,
    Size,
}

/// `mouse ...` as given on the command line.
#[derive(Debug)]
pub enum MouseCmd {
    Click { x: Option<u16>, y: Option<u16>, on_text: Option<String>, button: u8, clicks: u8 },
    Move { x: u16, y: u16 },
    Down { x: u16, y: u16, button: u8 },
    Up { x: u16, y: u16, button: u8 },
    Drag { x1: u16, y1: u16, x2: u16, y2: u16, button: u8 },
    /// `direction` is the direction's name as the CLI spells it.
    Scroll { direction: String, amount: u16 },
}

/// `wait ...` as given on the command line.
#[derive(Debug)]
pub enum WaitCmd {
    Text { text: String, regex: bool, full: bool, not: bool, timeout: u64 },
    Idle { timeout: u64 },
    Command { timeout: u64 },
    Exit { timeout: u64 },
}

/// `expect ...` as given on the command line.
#[derive(Debug)]
pub enum ExpectCmd {
    Text {
        text: String,
        regex: bool,
        full: bool,
        no_strict: bool,
        not: bool,
        fg: Option<String>,
        bg: Option<String>,
        timeout: u64,
    },
    ExitCode { code: i32 },
    Output { text: String, regex: bool },
    Snapshot { name: String, update: bool, include_colors: bool },
}

/// A parsed command line.
#[derive(Debug)]
pub enum Command {
    Open { shell: Option<String>, cols: u16, rows: u16, cwd: Option<String>, env: Vec<String> },
    Run {
        program: String,
        args: Vec<String>,
        cols: u16,
        rows: u16,
        cwd: Option<String>,
        env: Vec<String>,
    },
    Close { all: bool },
    Daemon { cmd: DaemonCmd },
    State,
    Text { full: bool },
    Screenshot { path: Option<String>, out: Option<String>, full: bool },
    Cells { x: u16, y: u16, w: u16, h: u16 },
    Get { field: GetArg },
    Type { text: String },
    Submit { text: Option<String> },
    Press { keys: Vec<String> },
    Keys { combo: String },
    Mouse { action: MouseCmd },
    Resize { cols: u16, rows: u16 },
    Write { data: String },
    /// `name` is the signal's name as the CLI spells it.
    Signal { name: String },
    Kill,
    Wait { what: WaitCmd },
    Expect { what: ExpectCmd },
    InternalDaemon,
    Usage,
    AgentContext,
    Skill,
    GetRecording { session: Option<String> },
    Sessions,
    Monitor,
}

// ---------------------------------------------------------------------------
// KEY=VALUE pairs.
// ---------------------------------------------------------------------------

/// Whether `s` holds an `=`.
pub open spec fn has_eq(s: Seq<char>) -> bool {
    exists|k: int| 0 <= k < s.len() && s[k] == '='
}

/// `kv` is `s` split at its first `=`: the key before it, the value after it.
pub open spec fn split_at_first_eq(s: Seq<char>, key: Seq<char>, value: Seq<char>) -> bool {
    exists|k: int|
        0 <= k < s.len() && s[k] == '=' && (forall|j: int| 0 <= j < k ==> s[j] != '=') && key
            == s.take(k) && value == s.skip(k + 1)
}

/// `out` holds each of `pairs` split at its first `=`, in order.
pub open spec fn env_parsed(pairs: Seq<String>, out: Seq<(String, String)>) -> bool {
    &&& out.len() == pairs.len()
    &&& forall|i: int|
        0 <= i < pairs.len() ==> split_at_first_eq(
            #[trigger] pairs[i]@,
            out[i].0@,
            out[i].1@,
        )
}

/// Whether every pair holds an `=`.
pub open spec fn env_valid(pairs: Seq<String>) -> bool {
    forall|i: int| 0 <= i < pairs.len() ==> has_eq(#[trigger] pairs[i]@)
}

/// The message for a pair without `=`.
pub open spec fn invalid_env_message(pair: Seq<char>) -> Seq<char> {
    "invalid env (expected KEY=VALUE): "@ + pair
}

/// `m` is the message for the first pair that has no `=`.
pub open spec fn env_error(pairs: Seq<String>, m: Seq<char>) -> bool {
    exists|i: int|
        0 <= i < pairs.len() && !has_eq(#[trigger] pairs[i]@) && (forall|j: int|
            0 <= j < i ==> has_eq(#[trigger] pairs[j]@)) && m == invalid_env_message(pairs[i]@)
}

/// Splits `s` at its first `=`, if it has one.
fn split_once_eq(s: &str) -> (r: Option<(String, String)>)
    ensures
        match r {
            Some(kv) => split_at_first_eq(s@, kv.0@, kv.1@),
            None => !has_eq(s@),
        },
{
    let mut chars: Vec<char> = Vec::new();
    push_str_chars(&mut chars, s);
    assert(chars@ =~= s@);
    let n = chars.len();
    let mut k: usize = 0;
    while k < n && chars[k] != '='
        invariant
            n == chars@.len(),
            k <= n,
            forall|j: int| 0 <= j < k ==> chars@[j] != '=',
        decreases n - k,
    {
        k += 1;
    }
    if k == n {
        return None;
    }
    let mut key: Vec<char> = Vec::new();
    let mut i: usize = 0;
    while i < k
        invariant
            k < n == chars@.len(),
            i <= k,
            key@ == chars@.take(i as int),
        decreases k - i,
    {
        key.push(chars[i]);
        assert(key@ =~= chars@.take(i + 1));
        i += 1;
    }
    let mut value: Vec<char> = Vec::new();
    let mut i: usize = k + 1;
    while i < n
        invariant
            k < n == chars@.len(),
            k + 1 <= i <= n,
            value@ == chars@.subrange(k + 1, i as int),
        decreases n - i,
    {
        value.push(chars[i]);
        assert(value@ =~= chars@.subrange(k + 1, i + 1));
        i += 1;
    }
    assert(value@ =~= chars@.skip(k + 1));
    Some((string_from_chars(&key), string_from_chars(&value)))
}

/// Splits every `KEY=VALUE` pair at its first `=`; the first pair without
/// one is reported instead.
pub fn parse_env(pairs: &[String]) -> (r: Result<Vec<(String, String)>, String>)
    ensures
        match r {
            Ok(v) => env_valid(pairs@) && env_parsed(pairs@, v@),
            Err(m) => !env_valid(pairs@) && env_error(pairs@, m@),
        },
{
    let mut out: Vec<(String, String)> = Vec::new();
    let mut i: usize = 0;
    while i < pairs.len()
        invariant
            i <= pairs@.len(),
            out@.len() == i,
            forall|j: int| 0 <= j < i ==> has_eq(#[trigger] pairs@[j]@),
            forall|j: int|
                0 <= j < i ==> split_at_first_eq(#[trigger] pairs@[j]@, out@[j].0@, out@[j].1@),
        decreases pairs@.len() - i,
    {
        match split_once_eq(pairs[i].as_str()) {
            Some(kv) => {
                out.push(kv);
            },
            None => {
                let mut m = String::from_str("invalid env (expected KEY=VALUE): ");
                m.append(pairs[i].as_str());
                assert(m@ =~= invalid_env_message(pairs@[i as int]@));
                return Err(m);
            },
        }
        i += 1;
    }
    Ok(out)
}


// ---------------------------------------------------------------------------
// From command to request.
// ---------------------------------------------------------------------------

/// The request field that a `get` argument names (same name).
pub open spec fn field_for(f: GetArg) -> GetField {
    match f {
        GetArg::Command => GetField::Command,
        GetArg::Output => GetField::Output,
        GetArg::ExitCode => GetField::ExitCode,
        GetArg::Cwd => GetField::Cwd,
        GetArg::Cursor => GetField::Cursor,
        GetArg::Size => GetField::Size,
    }
}

/// Maps a `get` argument to the field it reads.
pub fn map_field(f: GetArg) -> (g: GetField)
    ensures
        g == field_for(f),
{
    match f {
        GetArg::Command => GetField::Command,
        GetArg::Output => GetField::Output,
        GetArg::ExitCode => GetField::ExitCode,
        GetArg::Cwd => GetField::Cwd,
        GetArg::Cursor => GetField::Cursor,
        GetArg::Size => GetField::Size,
    }
}

/// The mouse action for a `mouse` command: the same gesture with the same
/// coordinates, buttons and counts.
pub open spec fn mouse_for(action: MouseCmd) -> MouseAction {
    match action {
        MouseCmd::Click { x, y, on_text, button, clicks } => MouseAction::Click {
            x,
            y,
            on_text,
            button,
            clicks,
        },
        MouseCmd::Move { x, y } => MouseAction::Move { x, y },
        MouseCmd::Down { x, y, button } => MouseAction::Down { x, y, button },
        MouseCmd::Up { x, y, button } => MouseAction::Up { x, y, button },
        MouseCmd::Drag { x1, y1, x2, y2, button } => MouseAction::Drag { x1, y1, x2, y2, button },
        MouseCmd::Scroll { direction, amount } => MouseAction::Scroll { direction, amount },
    }
}

/// Maps a `mouse` command to its action.
pub fn map_mouse(action: MouseCmd) -> (a: MouseAction)
    ensures
        a == mouse_for(action),
{
    match action {
        MouseCmd::Click { x, y, on_text, button, clicks } => MouseAction::Click {
            x,
            y,
            on_text,
            button,
            clicks,
        },
        MouseCmd::Move { x, y } => MouseAction::Move { x, y },
        MouseCmd::Down { x, y, button } => MouseAction::Down { x, y, button },
        MouseCmd::Up { x, y, button } => MouseAction::Up { x, y, button },
        MouseCmd::Drag { x1, y1, x2, y2, button } => MouseAction::Drag { x1, y1, x2, y2, button },
        MouseCmd::Scroll { direction, amount } => MouseAction::Scroll { direction, amount },
    }
}

/// The request for a `wait` command; the timeout is in milliseconds.
pub open spec fn wait_for(what: WaitCmd) -> Request {
    match what {
        WaitCmd::Text { text, regex, full, not, timeout } => Request::WaitText {
            text,
            regex,
            full,
            timeout_ms: timeout,
            not,
        },
        WaitCmd::Idle { timeout } => Request::WaitIdle { timeout_ms: timeout },
        WaitCmd::Command { timeout } => Request::WaitCommand { timeout_ms: timeout },
        WaitCmd::Exit { timeout } => Request::WaitExit { timeout_ms: timeout },
    }
}

/// Maps a `wait` command to its request.
pub fn map_wait(what: WaitCmd) -> (r: Request)
    ensures
        r == wait_for(what),
{
    match what {
        WaitCmd::Text { text, regex, full, not, timeout } => Request::WaitText {
            text,
            regex,
            full,
            timeout_ms: timeout,
            not,
        },
        WaitCmd::Idle { timeout } => Request::WaitIdle { timeout_ms: timeout },
        WaitCmd::Command { timeout } => Request::WaitCommand { timeout_ms: timeout },
        WaitCmd::Exit { timeout } => Request::WaitExit { timeout_ms: timeout },
    }
}

/// The request for an `expect` command: text matching is strict unless
/// `--no-strict` was given; the timeout is in milliseconds.
pub open spec fn expect_for(what: ExpectCmd) -> Request {
    match what {
        ExpectCmd::Text { text, regex, full, no_strict, not, fg, bg, timeout } => Request::ExpectText {
            text,
            regex,
            full,
            strict: !no_strict,
            not,
            fg,
            bg,
            timeout_ms: timeout,
        },
        ExpectCmd::ExitCode { code } => Request::ExpectExitCode { code },
        ExpectCmd::Output { text, regex } => Request::ExpectOutput { text, regex },
        ExpectCmd::Snapshot { name, update, include_colors } => Request::Snapshot {
            name,
            update,
            include_colors,
        },
    }
}

/// Maps an `expect` command to its request.
pub fn map_expect(what: ExpectCmd) -> (r: Request)
    ensures
        r == expect_for(what),
{
    match what {
        ExpectCmd::Text { text, regex, full, no_strict, not, fg, bg, timeout } => Request::ExpectText {
            text,
            regex,
            full,
            strict: !no_strict,
            not,
            fg,
            bg,
            timeout_ms: timeout,
        },
        ExpectCmd::ExitCode { code } => Request::ExpectExitCode { code },
        ExpectCmd::Output { text, regex } => Request::ExpectOutput { text, regex },
        ExpectCmd::Snapshot { name, update, include_colors } => Request::Snapshot {
            name,
            update,
            include_colors,
        },
    }
}

/// The message of a command that is not sent to a daemon.
pub open spec fn unsupported_message() -> Seq<char> {
    "unsupported command"@
}

/// Whether `r` is the outcome of opening a session with the given settings:
/// the `KEY=VALUE` pairs in `env` are split at their first `=`, and the
/// first pair without one is refused.
pub open spec fn open_outcome(
    shell: Option<String>,
    program: Option<Seq<String>>,
    cols: u16,
    rows: u16,
    cwd: Option<String>,
    env: Seq<String>,
    r: Result<Request, String>,
) -> bool {
    match r {
        Ok(req) => env_valid(env) && (req matches Request::Open {
            shell: s2,
            program: p2,
            cols: c2,
            rows: r2,
            cwd: w2,
            env: e2,
        } && s2 == shell && c2 == cols && r2 == rows && w2 == cwd && env_parsed(env, e2@)
            && match program {
            Some(p) => p2 matches Some(v) && v@ == p,
            None => p2 is None,
        }),
        Err(m) => !env_valid(env) && env_error(env, m@),
    }
}

/// The outcome of building the request for a command.
///
/// `open` and `run` open a session (`run` with the program followed by its
/// arguments); `close` closes it; `daemon status|stop` ask for the daemon's
/// status or its shutdown; `type` and `write` write their text; `keys`
/// presses the one combination; `signal` sends the named signal and `kill`
/// sends `KILL`; `screenshot` saves to `--out` when given, else to the path
/// argument; `get`, `mouse`, `wait` and `expect` map their arguments as
/// `field_for`, `mouse_for`, `wait_for` and `expect_for` say; every other
/// request carries the command's own arguments. Commands that are not sent
/// to a daemon are refused as unsupported.
pub open spec fn request_for(cmd: Command, r: Result<Request, String>) -> bool {
    match cmd {
        Command::Open { shell, cols, rows, cwd, env } => open_outcome(
            shell,
            None,
            cols,
            rows,
            cwd,
            env@,
            r,
        ),
        Command::Run { program, args, cols, rows, cwd, env } => open_outcome(
            None,
            Some(seq![program] + args@),
            cols,
            rows,
            cwd,
            env@,
            r,
        ),
        Command::Close { .. } => r == Ok::<Request, String>(Request::Close),
        Command::Daemon { cmd } => r == Ok::<Request, String>(
            match cmd {
                DaemonCmd::Status => Request::Status,
                DaemonCmd::Stop => Request::Shutdown,
            },
        ),
        Command::State => r == Ok::<Request, String>(Request::State),
        Command::Text { full } => r == Ok::<Request, String>(Request::Text { full }),
        Command::Screenshot { path, out, full } => r == Ok::<Request, String>(
            Request::Screenshot {
                full,
                path: match out {
                    Some(o) => Some(o),
                    None => path,
                },
            },
        ),
        Command::Cells { x, y, w, h } => r == Ok::<Request, String>(Request::Cells { x, y, w, h }),
        Command::Get { field } => r == Ok::<Request, String>(
            Request::Get { field: field_for(field) },
        ),
        Command::Type { text } => r == Ok::<Request, String>(Request::Write { data: text }),
        Command::Submit { text } => r == Ok::<Request, String>(Request::Submit { data: text }),
        Command::Press { keys } => r == Ok::<Request, String>(Request::Press { keys }),
        Command::Keys { combo } => r matches Ok(Request::Press { keys }) && keys@ == seq![combo],
        Command::Mouse { action } => r == Ok::<Request, String>(
            Request::Mouse { action: mouse_for(action) },
        ),
        Command::Resize { cols, rows } => r == Ok::<Request, String>(Request::Resize { cols, rows }),
        Command::Write { data } => r == Ok::<Request, String>(Request::Write { data }),
        Command::Signal { name } => r == Ok::<Request, String>(Request::Signal { name }),
        Command::Kill => r matches Ok(Request::Signal { name }) && name@ == "KILL"@,
        Command::Wait { what } => r == Ok::<Request, String>(wait_for(what)),
        Command::Expect { what } => r == Ok::<Request, String>(expect_for(what)),
        _ => r matches Err(m) && m@ == unsupported_message(),
    }
}

/// Builds the request for a daemon-backed command.
pub fn build_request(command: Command) -> (r: Result<Request, String>)
    ensures
        request_for(command, r),
{
    match command {
        Command::Open { shell, cols, rows, cwd, env } => {
            match parse_env(env.as_slice()) {
                Ok(env) => Ok(Request::Open { shell, program: None, cols, rows, cwd, env }),
                Err(e) => Err(e),
            }
        },
        Command::Run { program, args, cols, rows, cwd, env } => {
            let mut prog = vec![program];
            let mut rest = args;
            let ghost args_view = rest@;
            prog.append(&mut rest);
            assert(prog@ =~= seq![program] + args_view);
            match parse_env(env.as_slice()) {
                Ok(env) => Ok(
                    Request::Open { shell: None, program: Some(prog), cols, rows, cwd, env },
                ),
                Err(e) => Err(e),
            }
        },
        Command::Close { .. } => Ok(Request::Close),
        Command::Daemon { cmd } => Ok(
            match cmd {
                DaemonCmd::Status => Request::Status,
                DaemonCmd::Stop => Request::Shutdown,
            },
        ),
        Command::State => Ok(Request::State),
        Command::Text { full } => Ok(Request::Text { full }),
        Command::Screenshot { path, out, full } => Ok(
            Request::Screenshot {
                full,
                path: match out {
                    Some(o) => Some(o),
                    None => path,
                },
            },
        ),
        Command::Cells { x, y, w, h } => Ok(Request::Cells { x, y, w, h }),
        Command::Get { field } => Ok(Request::Get { field: map_field(field) }),
        Command::Type { text } => Ok(Request::Write { data: text }),
        Command::Submit { text } => Ok(Request::Submit { data: text }),
        Command::Press { keys } => Ok(Request::Press { keys }),
        Command::Keys { combo } => {
            let mut keys: Vec<String> = Vec::new();
            keys.push(combo);
            assert(keys@ =~= seq![combo]);
            Ok(Request::Press { keys })
        },
        Command::Mouse { action } => Ok(Request::Mouse { action: map_mouse(action) }),
        Command::Resize { cols, rows } => Ok(Request::Resize { cols, rows }),
        Command::Write { data } => Ok(Request::Write { data }),
        Command::Signal { name } => Ok(Request::Signal { name }),
        Command::Kill => Ok(Request::Signal { name: String::from_str("KILL") }),
        Command::Wait { what } => Ok(map_wait(what)),
        Command::Expect { what } => Ok(map_expect(what)),
        _ => Err(String::from_str("unsupported command")),
    }
}


/// A pair split at its first `=` is its key, `=`, and its value again, and
/// the key holds no `=`: splitting loses nothing and puts every later `=`
/// in the value.
pub proof fn lemma_env_split_round_trip(s: Seq<char>, key: Seq<char>, value: Seq<char>)
    requires
        split_at_first_eq(s, key, value),
    ensures
        key + seq!['='] + value == s,
        !has_eq(key),
{
    let k = choose|k: int|
        0 <= k < s.len() && s[k] == '=' && (forall|j: int| 0 <= j < k ==> s[j] != '=') && key
            == s.take(k) && value == s.skip(k + 1);
    assert(key + seq!['='] + value =~= s);
}

/// Each request carries the arguments of its command field for field, under
/// the same names: `resize COLS ROWS` resizes to COLS columns by ROWS rows,
/// `cells X Y W H` reads the W by H block at column X of row Y, `open` and
/// `run` keep the size, shell and directory they were given, and the text of
/// `type`, `write`, `submit`, the keys of `press` and the signal's name go
/// through unchanged; `keys` presses its one combination, `kill` sends
/// `KILL`, and `screenshot` keeps `--full` and saves to `--out` when given,
/// else to its path argument.
pub proof fn lemma_request_carries_arguments(cmd: Command, r: Result<Request, String>)
    requires
        request_for(cmd, r),
    ensures
        cmd matches Command::Resize { cols, rows } ==> (r matches Ok(
            Request::Resize { cols: c2, rows: r2 },
        ) && c2 == cols && r2 == rows),
        cmd matches Command::Cells { x, y, w, h } ==> (r matches Ok(
            Request::Cells { x: x2, y: y2, w: w2, h: h2 },
        ) && x2 == x && y2 == y && w2 == w && h2 == h),
        cmd matches Command::Open { shell, cols, rows, cwd, .. } ==> (r matches Ok(
            Request::Open { shell: s2, cols: c2, rows: r2, cwd: d2, .. },
        ) ==> s2 == shell && c2 == cols && r2 == rows && d2 == cwd),
        cmd matches Command::Run { cols, rows, cwd, .. } ==> (r matches Ok(
            Request::Open { shell: s2, cols: c2, rows: r2, cwd: d2, .. },
        ) ==> s2 is None && c2 == cols && r2 == rows && d2 == cwd),
        cmd matches Command::Text { full } ==> (r matches Ok(Request::Text { full: f2 })
            && f2 == full),
        cmd matches Command::Type { text } ==> (r matches Ok(Request::Write { data })
            && data@ == text@),
        cmd matches Command::Write { data } ==> (r matches Ok(Request::Write { data: d2 })
            && d2@ == data@),
        cmd matches Command::Submit { text } ==> (r matches Ok(Request::Submit { data })
            && data == text),
        cmd matches Command::Press { keys } ==> (r matches Ok(Request::Press { keys: k2 })
            && k2@ == keys@),
        cmd matches Command::Signal { name } ==> (r matches Ok(Request::Signal { name: n2 })
            && n2@ == name@),
        cmd matches Command::Keys { combo } ==> (r matches Ok(Request::Press { keys })
            && keys@.len() == 1 && keys@[0]@ == combo@),
        cmd is Kill ==> (r matches Ok(Request::Signal { name }) && name@ == "KILL"@),
        cmd matches Command::Screenshot { path, out, full } ==> (r matches Ok(
            Request::Screenshot { full: f2, path: p2 },
        ) && f2 == full && p2 == (if out is Some { out } else { path })),
        cmd is Close ==> r == Ok::<Request, String>(Request::Close),
        cmd is State ==> r == Ok::<Request, String>(Request::State),
{
}

/// The usage summary printed by `shell-use usage`.
pub const USAGE: &'static str = "shell-use: headless terminal CLI + daemon\n\
\n\
SESSION   open [--shell S] [--cols N --rows N] [--cwd D] [--env K=V]\n\
          run <program> [args...]\n\
          sessions | close [--all] | daemon status|stop\n\
INSPECT   state | text [--full] | screenshot [-o file.svg] [--full]\n\
          cells X Y [W H] | get command|output|exit-code|cwd|cursor|size\n\
INPUT     type \"text\" | submit [\"text\"] | press <Key...> | keys \"Ctrl+a\"\n\
          mouse click X Y | mouse click --on-text \"OK\" | mouse move|down|up|drag|scroll\n\
PTY       resize COLS ROWS | write <data> | signal INT|TERM|KILL|QUIT | kill\n\
WAIT      wait text \"T\" [--regex --full --not --timeout MS]\n\
          wait idle | wait command | wait exit\n\
EXPECT    expect text \"T\" [--regex --full --not --fg C --bg C --timeout MS]\n\
          expect exit-code N | expect output \"T\" [--regex]\n\
          expect snapshot NAME [-u] [--include-colors]\n\
RECORD    sessions auto-record; get-recording [session] > out.cast (asciinema v2)\n\
          play with `asciinema play out.cast`, render GIF with `agg out.cast out.gif`\n\
WATCH     monitor (live full-color view in another terminal; q/Esc/Ctrl-C to detach)\n\
AGENT     agent-context (JSON CLI schema) | skill (workflow guide)\n\
GLOBAL    --session NAME | --json | --verbose (log PTY traffic to ~/.shell-use/<session>.log)\n\
EXIT      0 ok | 1 assertion/wait failed | 2 usage | 3 no session | 4 daemon/IPC | 5 internal\n\
";

/// The usage summary.
pub fn usage_text() -> (s: &'static str)
    ensures
        s@ == USAGE@,
{
    USAGE
}


// ---------------------------------------------------------------------------
// Starting the session daemon, and the exit code of a daemon-backed command.
// ---------------------------------------------------------------------------

/// How long a freshly spawned daemon has to start answering, in milliseconds.
pub const DAEMON_START_TIMEOUT_MS: u64 = 5_000;

/// How long to sleep between probes of a starting daemon, in milliseconds.
pub const DAEMON_POLL_MS: u64 = 50;

/// What to do next while making sure a session's daemon runs.
#[derive(Debug, Clone, Copy, PartialEq, Eq, Structural)]
pub enum DaemonStep {
    /// The daemon answers: go on with the request.
    Ready,
    /// No daemon answers yet: spawn one (once, before waiting).
    Spawn,
    /// Sleep this many milliseconds, then probe again.
    Sleep(u64),
    /// The spawned daemon did not answer in time: give up.
    GiveUp,
}

/// Before spawning: a daemon that already answers is used as it is;
/// otherwise one is spawned.
pub open spec fn daemon_start_spec(running: bool) -> DaemonStep {
    if running {
        DaemonStep::Ready
    } else {
        DaemonStep::Spawn
    }
}

/// After spawning, `elapsed_ms` after the spawn: once the start timeout has
/// passed, give up; otherwise use the daemon if it answers, else sleep one
/// poll interval and probe again.
pub open spec fn daemon_wait_spec(elapsed_ms: u64, running: bool) -> DaemonStep {
    if elapsed_ms >= DAEMON_START_TIMEOUT_MS {
        DaemonStep::GiveUp
    } else if running {
        DaemonStep::Ready
    } else {
        DaemonStep::Sleep(DAEMON_POLL_MS)
    }
}

/// Decides what to do before any daemon was spawned, given whether one answers.
pub fn daemon_start_step(running: bool) -> (step: DaemonStep)
    ensures
        step == daemon_start_spec(running),
{
    if running {
        DaemonStep::Ready
    } else {
        DaemonStep::Spawn
    }
}

/// Decides what to do while waiting for a spawned daemon. `running` is
/// whether it answered a probe made at `elapsed_ms`; it is not looked at once
/// the timeout has passed, so the caller need not probe then.
pub fn daemon_wait_step(elapsed_ms: u64, running: bool) -> (step: DaemonStep)
    ensures
        step == daemon_wait_spec(elapsed_ms, running),
{
    if elapsed_ms >= DAEMON_START_TIMEOUT_MS {
        DaemonStep::GiveUp
    } else if running {
        DaemonStep::Ready
    } else {
        DaemonStep::Sleep(DAEMON_POLL_MS)
    }
}

/// Waiting never runs past the timeout and never sleeps for nothing: after
/// the timeout the answer is to give up whatever the probe said, and before
/// it the only other answers are to go on or to sleep one poll interval.
pub proof fn lemma_daemon_wait_is_bounded(elapsed_ms: u64, running: bool)
    ensures
        elapsed_ms >= DAEMON_START_TIMEOUT_MS ==> daemon_wait_spec(elapsed_ms, running)
            == DaemonStep::GiveUp,
        elapsed_ms < DAEMON_START_TIMEOUT_MS ==> (daemon_wait_spec(elapsed_ms, running)
            == DaemonStep::Ready || daemon_wait_spec(elapsed_ms, running) == DaemonStep::Sleep(
            DAEMON_POLL_MS,
        )),
        daemon_wait_spec(elapsed_ms, running) != DaemonStep::Spawn,
{
}

/// How a daemon-backed command ended.
#[derive(Debug)]
pub enum RemoteOutcome {
    /// The command line could not be turned into a request.
    Refused,
    /// No daemon could be reached or started.
    DaemonUnavailable,
    /// The request could not be sent or its answer not read.
    RequestFailed,
    /// The daemon answered.
    Answered(Response),
}

/// The process exit code of a daemon-backed command: 2 when the command was
/// refused (usage), 4 when the daemon could not be reached or the request
/// failed (daemon/IPC), else the code of the daemon's response.
pub open spec fn remote_exit_code_spec(outcome: RemoteOutcome) -> i32 {
    match outcome {
        RemoteOutcome::Refused => 2,
        RemoteOutcome::DaemonUnavailable => 4,
        RemoteOutcome::RequestFailed => 4,
        RemoteOutcome::Answered(resp) => response_exit_code(resp),
    }
}

/// Maps how a daemon-backed command ended to its process exit code.
pub fn remote_exit_code(outcome: &RemoteOutcome) -> (code: i32)
    ensures
        code == remote_exit_code_spec(*outcome),
{
    match outcome {
        RemoteOutcome::Refused => 2,
        RemoteOutcome::DaemonUnavailable => 4,
        RemoteOutcome::RequestFailed => 4,
        RemoteOutcome::Answered(resp) => exit_code(resp),
    }
}

/// The exit codes of a daemon-backed command follow the documented table:
/// 0 only for a successful answer, 2 for usage, 4 for daemon/IPC failures,
/// and 1, 3 or 5 only for failed answers.
pub proof fn lemma_remote_exit_codes(outcome: RemoteOutcome)
    ensures
        remote_exit_code_spec(outcome) == 0 <==> (outcome matches RemoteOutcome::Answered(r)
            && r.ok),
        remote_exit_code_spec(outcome) == 4 <==> (outcome is DaemonUnavailable
            || outcome is RequestFailed),
        remote_exit_code_spec(outcome) == 2 ==> (outcome is Refused || (outcome matches RemoteOutcome::Answered(r)
            && r.kind == Some(crate::protocol::ErrorKind::Usage))),
        outcome is Refused ==> remote_exit_code_spec(outcome) == 2,
        outcome is DaemonUnavailable ==> remote_exit_code_spec(outcome) == 4,
        outcome is RequestFailed ==> remote_exit_code_spec(outcome) == 4,
        remote_exit_code_spec(outcome) == 1 || remote_exit_code_spec(outcome) == 2
            || remote_exit_code_spec(outcome) == 3 || remote_exit_code_spec(outcome) == 4
            || remote_exit_code_spec(outcome) == 5 || remote_exit_code_spec(outcome) == 0,
{
}

/// When the daemon answers, the command exits with the code of the answer
/// itself, whatever the answer: 0 when it succeeded, else the code of its
/// failure class (1 assertion, 2 usage, 3 no session, 5 internal), and 1 when
/// a failure names no class.
pub proof fn lemma_answered_exit_code(resp: Response)
    ensures
        remote_exit_code_spec(RemoteOutcome::Answered(resp)) == response_exit_code(resp),
        resp.ok ==> remote_exit_code_spec(RemoteOutcome::Answered(resp)) == 0,
        !resp.ok && resp.kind == Some(crate::protocol::ErrorKind::Assertion) ==> remote_exit_code_spec(
            RemoteOutcome::Answered(resp),
        ) == 1,
        !resp.ok && resp.kind == Some(crate::protocol::ErrorKind::Usage) ==> remote_exit_code_spec(
            RemoteOutcome::Answered(resp),
        ) == 2,
        !resp.ok && resp.kind == Some(crate::protocol::ErrorKind::NoSession) ==> remote_exit_code_spec(
            RemoteOutcome::Answered(resp),
        ) == 3,
        !resp.ok && resp.kind == Some(crate::protocol::ErrorKind::Internal) ==> remote_exit_code_spec(
            RemoteOutcome::Answered(resp),
        ) == 5,
        !resp.ok && resp.kind is None ==> remote_exit_code_spec(RemoteOutcome::Answered(resp)) == 1,
{
}


// ---------------------------------------------------------------------------
// Commands answered without a daemon.
// ---------------------------------------------------------------------------

/// How reading a session's recording went.
#[derive(Debug, Clone, Copy, PartialEq, Eq, Structural)]
pub enum RecordingRead {
    /// The recording was read (and is streamed out).
    Read,
    /// The session has no recording.
    NotFound,
    /// The recording exists but could not be read.
    Failed,
}

/// The exit code of `get-recording`: 0 when the recording was read, 3 (no
/// session) when there is none, 5 (internal) when it could not be read.
pub open spec fn recording_exit_code_spec(r: RecordingRead) -> i32 {
    match r {
        RecordingRead::Read => 0,
        RecordingRead::NotFound => 3,
        RecordingRead::Failed => 5,
    }
}

/// Maps how reading a recording went to the exit code of `get-recording`.
pub fn recording_exit_code(r: RecordingRead) -> (code: i32)
    ensures
        code == recording_exit_code_spec(r),
{
    match r {
        RecordingRead::Read => 0,
        RecordingRead::NotFound => 3,
        RecordingRead::Failed => 5,
    }
}

/// Each name followed by a newline, in order.
pub open spec fn lines_spec(names: Seq<String>) -> Seq<char>
    decreases names.len(),
{
    if names.len() == 0 {
        seq![]
    } else {
        lines_spec(names.drop_last()) + names.last()@ + seq!['\n']
    }
}

/// What `sessions` prints without `--json`: `no active sessions` when there
/// are none, else one session name per line.
pub open spec fn sessions_text_spec(names: Seq<String>) -> Seq<char> {
    if names.len() == 0 {
        "no active sessions\n"@
    } else {
        lines_spec(names)
    }
}

/// The text that `sessions` prints for the running sessions `names`.
pub fn sessions_text(names: &Vec<String>) -> (s: String)
    ensures
        s@ == sessions_text_spec(names@),
{
    if names.len() == 0 {
        return String::from_str("no active sessions\n");
    }
    let mut s = String::new();
    let mut i: usize = 0;
    while i < names.len()
        invariant
            i <= names@.len(),
            s@ == lines_spec(names@.take(i as int)),
        decreases names@.len() - i,
    {
        s.append(names[i].as_str());
        push_char(&mut s, '\n');
        assert(names@.take(i + 1).drop_last() =~= names@.take(i as int));
        i += 1;
    }
    assert(names@.take(names@.len() as int) =~= names@);
    s
}

/// The lines of two lists of names one after the other are the lines of the
/// joined list.
proof fn lemma_lines_concat(a: Seq<String>, b: Seq<String>)
    ensures
        lines_spec(a + b) == lines_spec(a) + lines_spec(b),
    decreases b.len(),
{
    if b.len() == 0 {
        assert(a + b =~= a);
    } else {
        lemma_lines_concat(a, b.drop_last());
        assert((a + b).drop_last() =~= a + b.drop_last());
        assert((a + b).last() == b.last());
    }
}

/// The lines of a single name.
proof fn lemma_lines_one(n: String)
    ensures
        lines_spec(seq![n]) == n@ + seq!['\n'],
{
    assert(seq![n].drop_last() =~= Seq::<String>::empty());
    assert(lines_spec(Seq::<String>::empty()) == Seq::<char>::empty());
    assert(Seq::<char>::empty() + n@ + seq!['\n'] =~= n@ + seq!['\n']);
}

/// `sessions` reports no sessions only when none runs: for a non-empty list
/// it prints each name followed by a newline, in order, so that the first
/// line is the first name, a single session prints its name and a newline,
/// every listed name occurs in the output as a line, and the listing of two
/// lists one after the other is the listing of both.
pub proof fn lemma_sessions_listing(names: Seq<String>, more: Seq<String>)
    ensures
        names.len() == 0 ==> sessions_text_spec(names) == "no active sessions\n"@,
        names.len() == 1 ==> sessions_text_spec(names) == names[0]@ + seq!['\n'],
        names.len() > 0 ==> sessions_text_spec(names).take(names[0]@.len() + 1int) == names[0]@
            + seq!['\n'],
        names.len() > 0 ==> forall|i: int|
            0 <= i < names.len() ==> contains(
                sessions_text_spec(names),
                #[trigger] names[i]@ + seq!['\n'],
            ),
        names.len() > 0 && more.len() > 0 ==> sessions_text_spec(names + more)
            == sessions_text_spec(names) + sessions_text_spec(more),
{
    if names.len() > 0 {
        assert forall|i: int| 0 <= i < names.len() implies contains(
            sessions_text_spec(names),
            #[trigger] names[i]@ + seq!['\n'],
        ) by {
            let pre = names.take(i);
            let post = names.skip(i + 1);
            assert(names =~= pre + (seq![names[i]] + post));
            lemma_lines_concat(pre, seq![names[i]] + post);
            lemma_lines_concat(seq![names[i]], post);
            lemma_lines_one(names[i]);
            let needle = names[i]@ + seq!['\n'];
            let out = lines_spec(names);
            let k = lines_spec(pre).len() as int;
            assert(out == lines_spec(pre) + (needle + lines_spec(post)));
            assert(out.subrange(k, k + needle.len()) =~= needle);
        }
        let first = names[0];
        assert(names =~= seq![first] + names.skip(1));
        lemma_lines_concat(seq![first], names.skip(1));
        lemma_lines_one(first);
        let head = first@ + seq!['\n'];
        assert(lines_spec(names) == head + lines_spec(names.skip(1)));
        assert(lines_spec(names).take(head.len() as int) =~= head);
        if names.len() == 1 {
            assert(names.skip(1) =~= Seq::<String>::empty());
            assert(lines_spec(names) =~= head);
        }
        if more.len() > 0 {
            lemma_lines_concat(names, more);
        }
    }
}

} // verus!
