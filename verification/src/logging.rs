//! How logging is wired: which scopes the file logger and the flight
//! recorder subscribe to, how a line is made safe to hand to C, and the
//! lines logged when a tracked child exits.

use vstd::prelude::*;
use crate::numeric::{decimal, format_i64};
use crate::text::{clone_strings, comma_list, concat2, concat3, owned, split_on, string_push, views};

verus! {

/// The flight recorder's default size in bytes.
pub const DEFAULT_FLIGHT_REC_SIZE: usize = 5242880;

/// The flight recorder's default scopes.
pub const DEFAULT_FLIGHT_REC_SCOPES: &'static str = "log,drm-backend";

/// How the frontend wants its logging wired: `--log`,
/// `--logger-scopes` and `--flight-rec-scopes`, resolved.
#[derive(Debug, Clone, Default, PartialEq, Eq)]
pub struct LogSetup {
    /// `--log`: append here instead of stderr.
    pub file: Option<String>,
    /// Empty means the default: the logger takes "log" alone.
    pub logger_scopes: Vec<String>,
    /// `None` means the default list; an explicitly empty list disables
    /// the recorder.
    pub flight_rec_scopes: Option<Vec<String>>,
}

/// Why the log context could not be built.
#[derive(Debug, Clone, PartialEq, Eq)]
pub enum LogError {
    CtxCreate,
    ScopeCreate,
    /// The path, and the system's description of the failure.
    FileOpen(String, String),
}

impl LogError {
    pub fn message(&self) -> (r: String)
        ensures
            r@ == match *self {
                LogError::CtxCreate => "failed to initialize weston debug framework"@,
                LogError::ScopeCreate => "failed to create the \"log\" log scope"@,
                LogError::FileOpen(p, e) => "cannot open log file '"@ + p@ + "': "@ + e@,
            },
    {
        match self {
            LogError::CtxCreate => owned("failed to initialize weston debug framework"),
            LogError::ScopeCreate => owned("failed to create the \"log\" log scope"),
            LogError::FileOpen(p, e) => {
                let a = concat3("cannot open log file '", p.as_str(), "': ");
                concat2(a.as_str(), e.as_str())
            },
        }
    }
}

/// The subscriptions of the log context.
#[derive(Debug, Clone, PartialEq, Eq)]
pub struct LogPlan {
    /// Scopes the file/stderr logger subscribes to.
    pub logger_scopes: Vec<String>,
    /// Whether the flight recorder exists at all.
    pub flight_rec: bool,
    /// Scopes the flight recorder subscribes to (when it exists).
    pub flight_rec_scopes: Vec<String>,
}

pub open spec fn flight_scopes_spec(setup: LogSetup) -> Seq<Seq<char>> {
    match setup.flight_rec_scopes {
        Some(v) => views(v@),
        None => split_on("log,drm-backend"@, ','),
    }
}

/// The wiring: an absent `--flight-rec-scopes` means the default list,
/// an explicitly empty one no recorder; no `--logger-scopes` means the
/// logger takes "log" alone.
pub fn log_plan(setup: &LogSetup) -> (p: LogPlan)
    ensures
        views(p.flight_rec_scopes@) == flight_scopes_spec(*setup),
        p.flight_rec == (flight_scopes_spec(*setup).len() > 0),
        views(p.logger_scopes@) == if setup.logger_scopes@.len() == 0 {
            seq!["log"@]
        } else {
            views(setup.logger_scopes@)
        },
{
    let flight = match &setup.flight_rec_scopes {
        Some(v) => clone_strings(v),
        None => crate::text::split_char("log,drm-backend", ','),
    };
    proof {
        if setup.flight_rec_scopes is None {
            assert(views(flight@) =~= split_on("log,drm-backend"@, ','));
        }
    }
    let logger = if setup.logger_scopes.len() == 0 {
        let v = vec![owned("log")];
        assert(views(v@) =~= seq!["log"@]);
        v
    } else {
        clone_strings(&setup.logger_scopes)
    };
    let on = flight.len() > 0;
    LogPlan { logger_scopes: logger, flight_rec: on, flight_rec_scopes: flight }
}

/// A log line with every NUL replaced by U+FFFD, so it can always be
/// handed to C.
pub open spec fn sanitized(s: Seq<char>) -> Seq<char> {
    Seq::new(s.len(), |i: int| if s[i] == '\0' { '\u{fffd}' } else { s[i] })
}

pub fn sanitize_line(msg: &str) -> (r: String)
    ensures
        r@ == sanitized(msg@),
{
    let n = msg.unicode_len();
    let mut out = String::new();
    let mut i: usize = 0;
    while i < n
        invariant
            i <= n,
            n == msg@.len(),
            out@ == sanitized(msg@).take(i as int),
        decreases n - i,
    {
        let c = msg.get_char(i);
        if c == '\0' {
            string_push(&mut out, '\u{fffd}');
        } else {
            string_push(&mut out, c);
        }
        assert(out@ =~= sanitized(msg@).take(i + 1));
        i += 1;
    }
    assert(out@ =~= sanitized(msg@));
    out
}

/// The text one log message puts on the log: the message made safe for
/// C, and a newline.
pub fn message(msg: &str) -> (r: String)
    ensures
        r@ == sanitized(msg@).push('\n'),
{
    let mut line = sanitize_line(msg);
    string_push(&mut line, '\n');
    line
}

/// `libc::WIFEXITED`: the status reports a normal exit, i.e. its low
/// seven bits are zero.
#[verifier::external_body]
fn wifexited(status: i32) -> (r: bool)
    ensures
        r == (status & 0x7f == 0),
{
    libc::WIFEXITED(status)
}

/// `libc::WEXITSTATUS`: the exit code, bits 8 to 15 of the status.
#[verifier::external_body]
fn wexitstatus(status: i32) -> (r: i32)
    ensures
        r == (status >> 8i32) & 0xff,
{
    libc::WEXITSTATUS(status)
}

/// `libc::WIFSIGNALED`: the low seven bits name a terminating signal,
/// computed as `((status & 0x7f) + 1) as i8 >= 2`.
#[verifier::external_body]
fn wifsignaled(status: i32) -> (r: bool)
    ensures
        r == ((((status & 0x7f) + 1) as i8) >= 2),
{
    libc::WIFSIGNALED(status)
}

/// `libc::WTERMSIG`: the low seven bits of the status.
#[verifier::external_body]
fn wtermsig(status: i32) -> (r: i32)
    ensures
        r == status & 0x7f,
{
    libc::WTERMSIG(status)
}

/// The line logged when a tracked child process ends, from its wait
/// status.
pub open spec fn child_exit_spec(path: Seq<char>, status: i32) -> Seq<char> {
    if status & 0x7f == 0 {
        path + " exited with status "@ + decimal(((status >> 8i32) & 0xff) as int)
    } else if (((status & 0x7f) + 1) as i8) >= 2 {
        path + " died on signal "@ + decimal((status & 0x7f) as int)
    } else {
        path + " disappeared"@
    }
}

pub fn child_exit_line(path: &str, status: i32) -> (r: String)
    ensures
        r@ == child_exit_spec(path@, status),
{
    if wifexited(status) {
        let d = format_i64(wexitstatus(status) as i64);
        concat3(path, " exited with status ", d.as_str())
    } else if wifsignaled(status) {
        let d = format_i64(wtermsig(status) as i64);
        concat3(path, " died on signal ", d.as_str())
    } else {
        concat2(path, " disappeared")
    }
}

} // verus!
