use vstd::prelude::*;

verus! {

/// A request sent from a stateless CLI invocation to the session daemon.
#[derive(Debug)]
pub enum Request {
    Ping,
    Open {
        /// The name of the shell to start, when one was chosen.
        shell: Option<String>,
        program: Option<Vec<String>>,
        cols: u16,
        rows: u16,
        cwd: Option<String>,
        env: Vec<(String, String)>,
    },
    Close,
    Status,
    State,
    Text { full: bool },
    Cells { x: u16, y: u16, w: u16, h: u16 },
    Get { field: GetField },
    Write { data: String },
    Submit { data: Option<String> },
    Press { keys: Vec<String> },
    Mouse { action: MouseAction },
    Resize { cols: u16, rows: u16 },
    Signal { name: String },
    WaitText { text: String, regex: bool, full: bool, timeout_ms: u64, not: bool },
    WaitIdle { timeout_ms: u64 },
    WaitCommand { timeout_ms: u64 },
    WaitExit { timeout_ms: u64 },
    ExpectText {
        text: String,
        regex: bool,
        full: bool,
        strict: bool,
        not: bool,
        fg: Option<String>,
        bg: Option<String>,
        timeout_ms: u64,
    },
    ExpectExitCode { code: i32 },
    ExpectOutput { text: String, regex: bool },
    Snapshot { name: String, update: bool, include_colors: bool },
    Screenshot { full: bool, path: Option<String> },
    Monitor { cols: u16, rows: u16 },
    Shutdown,
}

/// A piece of session state that `get` reads.
#[derive(Debug, Clone, Copy, PartialEq, Eq, Structural)]
pub enum GetField {
    Command,
    Output,
    ExitCode,
    Cwd,
    Cursor,
    Size,
}

/// A mouse gesture.
#[derive(Debug)]
pub enum MouseAction {
    Click { x: Option<u16>, y: Option<u16>, on_text: Option<String>, button: u8, clicks: u8 },
    Move { x: u16, y: u16 },
    Down { x: u16, y: u16, button: u8 },
    Up { x: u16, y: u16, button: u8 },
    Drag { x1: u16, y1: u16, x2: u16, y2: u16, button: u8 },
    Scroll { direction: String, amount: u16 },
}

/// Classifies a failure so the CLI can map it to a stable process exit code.
#[derive(Debug, Clone, Copy, PartialEq, Eq, Structural)]
pub enum ErrorKind {
    /// An assertion or wait condition was not met (e.g. `expect`/`wait`).
    Assertion,
    /// An invalid argument value reached the daemon (e.g. bad regex/color).
    Usage,
    /// No active session for the target (run `open`/`run` first).
    NoSession,
    /// An internal error (spawn, I/O, rendering, ...).
    Internal,
}

impl ErrorKind {
    /// Stable process exit code for this failure class, as a spec value.
    pub open spec fn spec_exit_code(self) -> i32 {
        match self {
            ErrorKind::Assertion => 1,
            ErrorKind::Usage => 2,
            ErrorKind::NoSession => 3,
            ErrorKind::Internal => 5,
        }
    }

    /// Stable process exit code for this failure class.
    pub fn exit_code(self) -> (code: i32)
        ensures
            code == self.spec_exit_code(),
    {
        match self {
            ErrorKind::Assertion => 1,
            ErrorKind::Usage => 2,
            ErrorKind::NoSession => 3,
            ErrorKind::Internal => 5,
        }
    }
}


/// A JSON payload, as `serde_json` represents it.
#[verifier::external_type_specification]
#[verifier::external_body]
pub struct ExJsonValue(serde_json::Value);

/// A response returned by the daemon to the CLI.
#[derive(Debug)]
pub struct Response {
    pub ok: bool,
    /// Human/JSON payload describing the result.
    pub data: Option<serde_json::Value>,
    /// Error or assertion-failure message when `ok` is false.
    pub message: Option<String>,
    /// Failure classification when `ok` is false; drives the CLI exit code.
    pub kind: Option<ErrorKind>,
}

/// The message of a "no active session" failure.
pub open spec fn no_session_message() -> Seq<char> {
    "no active session; run `shell-use open` (or `shell-use run <program>`) first"@
}

impl Response {
    /// Whether this response is a failure of `kind` carrying `message`.
    pub open spec fn is_failure(&self, kind: ErrorKind, message: Seq<char>) -> bool {
        &&& !self.ok
        &&& self.data is None
        &&& self.message matches Some(m) && m@ == message
        &&& self.kind == Some(kind)
    }

    /// A success with no payload.
    pub fn ok() -> (r: Response)
        ensures
            r.ok,
            r.data is None,
            r.message is None,
            r.kind is None,
    {
        Response { ok: true, data: None, message: None, kind: None }
    }

    /// A success carrying `data`.
    pub fn with(data: serde_json::Value) -> (r: Response)
        ensures
            r.ok,
            r.data == Some(data),
            r.message is None,
            r.kind is None,
    {
        Response { ok: true, data: Some(data), message: None, kind: None }
    }

    /// A failure of the given class.
    pub fn err(kind: ErrorKind, message: &str) -> (r: Response)
        ensures
            r.is_failure(kind, message@),
    {
        Response { ok: false, data: None, message: Some(String::from_str(message)), kind: Some(kind) }
    }

    /// An assertion / wait failure (exit code 1).
    pub fn assertion(message: &str) -> (r: Response)
        ensures
            r.is_failure(ErrorKind::Assertion, message@),
    {
        Response::err(ErrorKind::Assertion, message)
    }

    /// An invalid-argument failure (exit code 2).
    pub fn usage(message: &str) -> (r: Response)
        ensures
            r.is_failure(ErrorKind::Usage, message@),
    {
        Response::err(ErrorKind::Usage, message)
    }

    /// A "no active session" failure (exit code 3).
    pub fn no_session() -> (r: Response)
        ensures
            r.is_failure(ErrorKind::NoSession, no_session_message()),
    {
        Response::err(
            ErrorKind::NoSession,
            "no active session; run `shell-use open` (or `shell-use run <program>`) first",
        )
    }

    /// An internal failure (exit code 5).
    pub fn internal(message: &str) -> (r: Response)
        ensures
            r.is_failure(ErrorKind::Internal, message@),
    {
        Response::err(ErrorKind::Internal, message)
    }
}

/// The process exit code for a response: 0 on success, else the code of its
/// failure class, or 1 when it names none.
pub open spec fn response_exit_code(resp: Response) -> i32 {
    if resp.ok {
        0
    } else {
        match resp.kind {
            Some(k) => k.spec_exit_code(),
            None => 1,
        }
    }
}

/// Maps a response to a stable process exit code.
pub fn exit_code(resp: &Response) -> (code: i32)
    ensures
        code == response_exit_code(*resp),
{
    if resp.ok {
        0
    } else {
        match resp.kind {
            Some(k) => k.exit_code(),
            None => 1,
        }
    }
}

/// The exit-code taxonomy: a response exits 0 exactly when it succeeded,
/// every failure class has its own code, and the codes are those documented
/// (1 assertion, 2 usage, 3 no session, 5 internal).
pub proof fn lemma_exit_codes(resp: Response, a: ErrorKind, b: ErrorKind)
    ensures
        (response_exit_code(resp) == 0) == resp.ok,
        a != b ==> a.spec_exit_code() != b.spec_exit_code(),
        ErrorKind::Assertion.spec_exit_code() == 1,
        ErrorKind::Usage.spec_exit_code() == 2,
        ErrorKind::NoSession.spec_exit_code() == 3,
        ErrorKind::Internal.spec_exit_code() == 5,
{
}

/// A failure response exits with the code of its class.
pub proof fn lemma_failure_exit_code(resp: Response, kind: ErrorKind, message: Seq<char>)
    requires
        resp.is_failure(kind, message),
    ensures
        response_exit_code(resp) == kind.spec_exit_code(),
        response_exit_code(resp) != 0,
{
}

} // verus!
