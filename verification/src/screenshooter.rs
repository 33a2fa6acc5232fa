//! The screenshot (Super+S) and recording (Super+R) key bindings as
//! decisions: where the screenshot client lives, what a key press does
//! given what already runs, and which client may capture outputs.

use vstd::prelude::*;
use crate::text::{concat2, concat3, contains_char, owned, starts_with};

verus! {

/// `KEY_S`, the screenshot key (with Super).
pub const KEY_S: u32 = 31;

/// `KEY_R`, the recording key (with Super).
pub const KEY_R: u32 = 19;

/// The directory clients are looked up in when the module path from
/// the environment gives nothing.
pub open spec fn fallback_dir() -> Seq<char> {
    "/usr/bin"@
}

/// `PathBuf::from("/usr/bin").join(name)`: an absolute `name` replaces
/// the directory, anything else is appended after a separator.
pub open spec fn bindir_join(name: Seq<char>) -> Seq<char> {
    if name.len() > 0 && name[0] == '/' {
        name
    } else {
        fallback_dir() + "/"@ + name
    }
}

/// Where the client `name` is run from.  `from_env` is what
/// `weston_module_path_from_env` wrote for it (`None` when it wrote
/// nothing); a name holding NUL cannot be handed to C, and then there
/// is no path at all.
pub open spec fn bindir_path_spec(from_env: Option<Seq<char>>, name: Seq<char>) -> Option<Seq<char>> {
    if name.contains('\0') {
        None
    } else {
        match from_env {
            Some(p) if p.len() > 0 => Some(p),
            _ => Some(bindir_join(name)),
        }
    }
}

/// The characters of an optional string.
pub open spec fn opt_view(o: Option<&str>) -> Option<Seq<char>> {
    match o {
        Some(s) => Some(s@),
        None => None,
    }
}

/// The path of the client `name` (see `bindir_path_spec`).
pub fn bindir_path(from_env: Option<&str>, name: &str) -> (r: Option<String>)
    ensures
        match r {
            Some(p) => bindir_path_spec(opt_view(from_env), name@) == Some(p@),
            None => bindir_path_spec(opt_view(from_env), name@) is None,
        },
{
    if contains_char(name, '\0') {
        return None;
    }
    match from_env {
        Some(p) => {
            if p.unicode_len() > 0 {
                return Some(owned(p));
            }
        },
        None => {},
    }
    proof {
        reveal_strlit("/");
    }
    let absolute = starts_with(name, "/");
    proof {
        if name@.len() > 0 {
            assert(name@.subrange(0, 1)[0] == name@[0]);
            assert(name@[0] == '/' ==> name@.subrange(0, 1) =~= "/"@);
        }
    }
    if absolute {
        Some(owned(name))
    } else {
        Some(concat3("/usr/bin", "/", name))
    }
}

/// What a press of the screenshot key does.
#[derive(Debug, Clone, PartialEq, Eq)]
pub enum ShotAction {
    /// The screenshot client still runs: nothing happens.
    AlreadyRunning,
    /// No path could be made: the message is logged.
    NoPath(String),
    /// The client at this path is launched.
    Launch(String),
}

/// The screenshot key, given whether the client runs and the path that
/// `bindir_path` gave for it.
pub fn shot_press(client_running: bool, path: Option<String>) -> (r: ShotAction)
    ensures
        client_running ==> r == ShotAction::AlreadyRunning,
        !client_running && path is None ==> (r matches ShotAction::NoPath(m)
            && m@ == "Could not construct screenshooter path."@),
        !client_running && path is Some ==> (r matches ShotAction::Launch(p) && p@ == path->0@),
{
    if client_running {
        ShotAction::AlreadyRunning
    } else {
        match path {
            None => ShotAction::NoPath(owned("Could not construct screenshooter path.")),
            Some(p) => ShotAction::Launch(p),
        }
    }
}

/// The line logged before the client at `exe` is started.
pub fn launch_line(exe: &str) -> (r: String)
    ensures
        r@ == "launching '"@ + exe@ + "'"@,
{
    concat3("launching '", exe, "'")
}

/// The line logged when the socket pair for the client at `exe` could
/// not be made.
pub fn socketpair_failed_line(exe: &str) -> (r: String)
    ensures
        r@ == "wet_client_start: socketpair failed while launching '"@ + exe@ + "'"@,
{
    concat3("wet_client_start: socketpair failed while launching '", exe, "'")
}

/// The line logged when the display refused a client connection for
/// the client at `exe`.
pub fn client_create_failed_line(exe: &str) -> (r: String)
    ensures
        r@ == "wet_client_start: wl_client_create failed while launching '"@ + exe@ + "'."@,
{
    concat3("wet_client_start: wl_client_create failed while launching '", exe, "'.")
}

/// The line logged when the client at `exe` could not be started;
/// `error` is the system's description of why.
pub fn launch_failed_line(exe: &str, error: &str) -> (r: String)
    ensures
        r@ == "Error: Couldn't launch client '"@ + exe@ + "': "@ + error@,
{
    let head = concat3("Error: Couldn't launch client '", exe, "': ");
    concat2(head.as_str(), error)
}

/// What a press of the recording key does.
#[derive(Debug, Clone, Copy, PartialEq, Eq, Structural)]
pub enum RecordAction {
    /// A recording runs: it is stopped.
    Stop,
    /// A recording of this output starts.
    Start(u64),
    /// There is no output to record: "westonite: no output to record".
    NoOutput,
}

/// The recording key: stop a running recording; else record the output
/// of the keyboard focus, or the first output when the focus has none.
pub fn record_press(recording: bool, focus_output: Option<u64>, first_output: Option<u64>) -> (r:
    RecordAction)
    ensures
        r == if recording {
            RecordAction::Stop
        } else if focus_output is Some {
            RecordAction::Start(focus_output->0)
        } else if first_output is Some {
            RecordAction::Start(first_output->0)
        } else {
            RecordAction::NoOutput
        },
{
    if recording {
        RecordAction::Stop
    } else {
        match focus_output {
            Some(o) => RecordAction::Start(o),
            None => match first_output {
                Some(o) => RecordAction::Start(o),
                None => RecordAction::NoOutput,
            },
        }
    }
}

/// Whether a capture asked for by client `who` is allowed: only the
/// screenshot client the frontend started may capture.
pub fn capture_authorized(ours: Option<u64>, who: Option<u64>) -> (r: bool)
    ensures
        r == (ours is Some && who == ours),
{
    match ours {
        Some(c) => match who {
            Some(w) => w == c,
            None => false,
        },
        None => false,
    }
}

} // verus!
