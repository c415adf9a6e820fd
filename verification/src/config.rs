//! Where a session's state lives and what it is called.
//!
//! The environment and the user's directories are read by the caller; these
//! functions decide the paths from those values. Paths are joined with Unix
//! rules on every platform: a relative part is appended after a `/` (none is
//! added when the base is empty or already ends in `/`), and an absolute part
//! replaces the base. Windows separators and prefixes (`\`, drive letters,
//! UNC and verbatim paths) are not interpreted; only `socket_name` has a
//! Windows form, the pipe name.
use vstd::prelude::*;

use crate::text::{push_char, push_str_chars, string_from_chars};

verus! {

pub const DEFAULT_COLS: u16 = 80;
pub const DEFAULT_ROWS: u16 = 30;
pub const DEFAULT_EXPECT_TIMEOUT_MS: u64 = 5_000;
pub const SHELL_READY_TIMEOUT_MS: u64 = 30_000;
pub const POLL_DELAY_MS: u64 = 50;
/// Monitor refresh interval (~20fps).
pub const MONITOR_FRAME_MS: u64 = 50;
/// Idle timeout: the daemon shuts itself down after this long without
/// servicing a request (four hours).
pub const IDLE_TIMEOUT_MS: u64 = 14_400_000;
/// How often the idle watchdog checks for inactivity (five minutes).
pub const IDLE_CHECK_INTERVAL_MS: u64 = 300_000;

/// `base` joined with `part`, as `Path::join` does it on Unix.
pub open spec fn join_spec(base: Seq<char>, part: Seq<char>) -> Seq<char> {
    if part.len() > 0 && part[0] == '/' {
        part
    } else if base.len() > 0 && base.last() != '/' {
        base + seq!['/'] + part
    } else {
        base + part
    }
}

/// Joins `part` onto `base`.
pub fn join_path(base: &str, part: &str) -> (p: String)
    ensures
        p@ == join_spec(base@, part@),
{
    let part_len = part.unicode_len();
    if part_len > 0 && part.get_char(0) == '/' {
        return String::from_str(part);
    }
    let mut p = String::from_str(base);
    let base_len = base.unicode_len();
    if base_len > 0 && base.get_char(base_len - 1) != '/' {
        push_char(&mut p, '/');
    }
    p.append(part);
    assert(p@ =~= join_spec(base@, part@));
    p
}

/// `session` followed by `suffix`.
fn with_suffix(session: &str, suffix: &str) -> (s: String)
    ensures
        s@ == session@ + suffix@,
{
    let mut s = String::from_str(session);
    s.append(suffix);
    s
}

/// The root directory for all daemon state: `SHELL_USE_HOME` when it is set,
/// else `.shell-use` in the user's home directory.
pub open spec fn home_dir_spec(shell_use_home: Option<Seq<char>>, user_home: Seq<char>) -> Seq<char> {
    match shell_use_home {
        Some(d) => d,
        None => join_spec(user_home, ".shell-use"@),
    }
}

/// Root directory for all daemon state (sockets, pids, logs), given the
/// value of `SHELL_USE_HOME` (if set) and the user's home directory.
pub fn home_dir(shell_use_home: Option<&str>, user_home: &str) -> (p: String)
    ensures
        p@ == home_dir_spec(
            match shell_use_home {
                Some(d) => Some(d@),
                None => None,
            },
            user_home@,
        ),
{
    match shell_use_home {
        Some(d) => String::from_str(d),
        None => join_path(user_home, ".shell-use"),
    }
}

/// The pid file of a session in the state directory `home`.
pub fn pid_file(home: &str, session: &str) -> (p: String)
    ensures
        p@ == join_spec(home@, session@ + ".pid"@),
{
    let name = with_suffix(session, ".pid");
    join_path(home, name.as_str())
}

/// The log file of a session in the state directory `home`.
pub fn log_file(home: &str, session: &str) -> (p: String)
    ensures
        p@ == join_spec(home@, session@ + ".log"@),
{
    let name = with_suffix(session, ".log");
    join_path(home, name.as_str())
}

/// The directory for session recordings: `recordings` under
/// `SHELL_USE_HOME` when it is set (for test isolation), else `shell-use`
/// under the user's cache directory.
pub open spec fn recording_dir_spec(shell_use_home: Option<Seq<char>>, cache_dir: Seq<char>) -> Seq<char> {
    match shell_use_home {
        Some(d) => join_spec(d, "recordings"@),
        None => join_spec(cache_dir, "shell-use"@),
    }
}

/// Directory for session recordings, given the value of `SHELL_USE_HOME`
/// (if set) and the user's cache directory. Recordings persist after a
/// session ends.
pub fn recording_dir(shell_use_home: Option<&str>, cache_dir: &str) -> (p: String)
    ensures
        p@ == recording_dir_spec(
            match shell_use_home {
                Some(d) => Some(d@),
                None => None,
            },
            cache_dir@,
        ),
{
    match shell_use_home {
        Some(d) => join_path(d, "recordings"),
        None => join_path(cache_dir, "shell-use"),
    }
}

/// A session's recording (asciinema v2 cast) in the recording directory `dir`.
pub fn recording_file(dir: &str, session: &str) -> (p: String)
    ensures
        p@ == join_spec(dir@, session@ + ".cast"@),
{
    let name = with_suffix(session, ".cast");
    join_path(dir, name.as_str())
}

/// The socket name of a session: on Windows the pipe name
/// `shell-use-<session>.sock`, elsewhere `<session>.sock` in the state
/// directory `home`.
pub open spec fn socket_name_spec(home: Seq<char>, session: Seq<char>, windows: bool) -> Seq<char> {
    if windows {
        "shell-use-"@ + session + ".sock"@
    } else {
        join_spec(home, session + ".sock"@)
    }
}

/// Platform-appropriate socket name for a session.
pub fn socket_name(home: &str, session: &str, windows: bool) -> (s: String)
    ensures
        s@ == socket_name_spec(home@, session@, windows),
{
    if windows {
        let mut s = String::from_str("shell-use-");
        s.append(session);
        s.append(".sock");
        s
    } else {
        let name = with_suffix(session, ".sock");
        join_path(home, name.as_str())
    }
}

/// The session to act on: the one named on the command line, else the one
/// named by `SHELL_USE_SESSION`, else `default`.
pub fn session_name(explicit: Option<String>, from_env: Option<String>) -> (s: String)
    ensures
        match explicit {
            Some(e) => s == e,
            None => match from_env {
                Some(v) => s == v,
                None => s@ == "default"@,
            },
        },
{
    match explicit {
        Some(e) => e,
        None => match from_env {
            Some(v) => v,
            None => String::from_str("default"),
        },
    }
}

/// A session's files all sit directly in its state directory: for a session
/// name that is not an absolute path, each of its pid, log and socket paths
/// is the directory, a separator where one is needed, and the file name.
pub proof fn lemma_session_files_in_home(home: Seq<char>, session: Seq<char>, suffix: Seq<char>)
    requires
        session.len() > 0,
        session[0] != '/',
    ensures
        join_spec(home, session + suffix).take(home.len() as int) == home,
        join_spec(home, session + suffix).skip(
            join_spec(home, session + suffix).len() - suffix.len(),
        ) == suffix,
{
    let part = session + suffix;
    assert(part[0] == session[0]);
    let j = join_spec(home, part);
    assert(j.take(home.len() as int) =~= home);
    assert(j.skip(j.len() - suffix.len()) =~= suffix);
}


/// The session a file in the state directory is the pid file of: its name
/// without the `.pid` ending, when it has that ending.
pub open spec fn pid_file_session_spec(name: Seq<char>) -> Option<Seq<char>> {
    if name.len() >= 4 && name.skip(name.len() - 4) == ".pid"@ {
        Some(name.take(name.len() - 4))
    } else {
        None
    }
}

/// The session whose pid file is named `name`, if it is a pid file.
pub fn pid_file_session(name: &str) -> (s: Option<String>)
    ensures
        match s {
            Some(v) => pid_file_session_spec(name@) == Some(v@),
            None => pid_file_session_spec(name@) is None,
        },
{
    proof {
        reveal_strlit(".pid");
    }
    let mut chars: Vec<char> = Vec::new();
    push_str_chars(&mut chars, name);
    let n = chars.len();
    if n < 4 || chars[n - 4] != '.' || chars[n - 3] != 'p' || chars[n - 2] != 'i' || chars[n - 1]
        != 'd' {
        proof {
            if n >= 4 && chars@.skip(n - 4) == ".pid"@ {
                assert(chars@.skip(n - 4)[0] == chars@[n - 4]);
                assert(chars@.skip(n - 4)[1] == chars@[n - 3]);
                assert(chars@.skip(n - 4)[2] == chars@[n - 2]);
                assert(chars@.skip(n - 4)[3] == chars@[n - 1]);
            }
        }
        return None;
    }
    assert(chars@.skip(n - 4) =~= ".pid"@);
    let mut stem: Vec<char> = Vec::new();
    let mut i: usize = 0;
    while i < n - 4
        invariant
            n == chars@.len(),
            n >= 4,
            i <= n - 4,
            stem@ == chars@.take(i as int),
        decreases n - 4 - i,
    {
        stem.push(chars[i]);
        assert(stem@ =~= chars@.take(i + 1));
        i += 1;
    }
    Some(string_from_chars(&stem))
}

/// Listing sessions recovers every session from its pid file: the pid file
/// name of a session is recognized as one, and names that session.
pub proof fn lemma_pid_file_names_its_session(session: Seq<char>)
    ensures
        pid_file_session_spec(session + ".pid"@) == Some(session),
{
    reveal_strlit(".pid");
    let n = session + ".pid"@;
    assert(n.skip(n.len() - 4) =~= ".pid"@);
    assert(n.take(n.len() - 4) =~= session);
}

} // verus!
