//! The decisions of the frontend's startup sequence: the runtime
//! directory check, the `[core] require-outputs` setting, the
//! autolaunch command, and the process exit status.

use vstd::prelude::*;
use crate::layoutput::{require_outputs_named, RequireOutputs};
use crate::numeric::{decimal, format_i64};
use crate::resolve::Settings;
use crate::spawn::Command;
use crate::text::{concat3, owned, views};

verus! {

/// The verdict on `$XDG_RUNTIME_DIR`.
#[derive(Debug, Clone, PartialEq, Eq)]
pub enum RuntimeDir {
    /// Startup fails with this message.
    Fatal(String),
    /// Startup goes on; this warning is logged.
    Warn(String),
    Fine,
}

pub open spec fn unset_msg() -> Seq<char> {
    "environment variable XDG_RUNTIME_DIR is not set.\nRefer to your distribution on how to get it, or\nhttp://www.freedesktop.org/wiki/Specifications/basedir-spec\non how to implement it."@
}

pub open spec fn not_dir_msg(dir: Seq<char>) -> Seq<char> {
    "environment variable XDG_RUNTIME_DIR is set to \""@ + dir + "\", which is not a directory."@
}

pub open spec fn octal_digit(d: int) -> char {
    if d == 0 {
        '0'
    } else if d == 1 {
        '1'
    } else if d == 2 {
        '2'
    } else if d == 3 {
        '3'
    } else if d == 4 {
        '4'
    } else if d == 5 {
        '5'
    } else if d == 6 {
        '6'
    } else {
        '7'
    }
}

/// A permission mode below 0o1000 as four octal digits (`{:04o}`).
pub open spec fn octal4(m: u32) -> Seq<char> {
    seq!['0', octal_digit((m / 64) as int), octal_digit(((m / 8) % 8) as int), octal_digit((m % 8) as int)]
}

pub open spec fn bad_mode_msg(dir: Seq<char>, mode: u32, uid: u32, owner: u32) -> Seq<char> {
    "warning: XDG_RUNTIME_DIR \""@ + dir
        + "\" is not configured correctly: unix access mode must be 0700 (current mode is "@
        + octal4(mode) + "), and it must be owned by UID "@ + decimal(uid as int)
        + " (current owner is UID "@ + decimal(owner as int) + ")"@
}

/// Checking `XDG_RUNTIME_DIR`: unset or not a directory is fatal; a
/// mode other than 0700 (setuid, setgid and sticky bits aside) or an
/// owner other than us is a warning.  `is_dir` is whether the path
/// names a directory, `mode` and `owner` its permission bits and owner,
/// `uid` ours.
pub open spec fn runtime_dir_spec(dir: Option<Seq<char>>, is_dir: bool, mode: u32, owner: u32, uid: u32) -> Option<
    (bool, Seq<char>),
> {
    match dir {
        None => Some((true, unset_msg())),
        Some(d) => if !is_dir {
            Some((true, not_dir_msg(d)))
        } else if (mode & 0o777) != 0o700 || owner != uid {
            Some((false, bad_mode_msg(d, mode & 0o777, uid, owner)))
        } else {
            None
        },
    }
}

fn octal_digit_exec(d: u32) -> (c: char)
    requires
        d < 8,
    ensures
        c == octal_digit(d as int),
{
    if d == 0 {
        '0'
    } else if d == 1 {
        '1'
    } else if d == 2 {
        '2'
    } else if d == 3 {
        '3'
    } else if d == 4 {
        '4'
    } else if d == 5 {
        '5'
    } else if d == 6 {
        '6'
    } else {
        '7'
    }
}

fn octal4_exec(m: u32) -> (r: String)
    requires
        m < 512,
    ensures
        r@ == octal4(m),
{
    let mut r = String::new();
    crate::text::string_push(&mut r, '0');
    crate::text::string_push(&mut r, octal_digit_exec(m / 64));
    crate::text::string_push(&mut r, octal_digit_exec((m / 8) % 8));
    crate::text::string_push(&mut r, octal_digit_exec(m % 8));
    assert(r@ =~= octal4(m));
    r
}

pub fn runtime_dir_check(dir: Option<&str>, is_dir: bool, mode: u32, owner: u32, uid: u32) -> (r: RuntimeDir)
    ensures
        match r {
            RuntimeDir::Fatal(m) => runtime_dir_spec(
                match dir {
                    Some(d) => Some(d@),
                    None => None,
                },
                is_dir,
                mode,
                owner,
                uid,
            ) == Some((true, m@)),
            RuntimeDir::Warn(m) => runtime_dir_spec(
                match dir {
                    Some(d) => Some(d@),
                    None => None,
                },
                is_dir,
                mode,
                owner,
                uid,
            ) == Some((false, m@)),
            RuntimeDir::Fine => runtime_dir_spec(
                match dir {
                    Some(d) => Some(d@),
                    None => None,
                },
                is_dir,
                mode,
                owner,
                uid,
            ) is None,
        },
{
    let d = match dir {
        None => {
            return RuntimeDir::Fatal(
                owned(
                    "environment variable XDG_RUNTIME_DIR is not set.\nRefer to your distribution on how to get it, or\nhttp://www.freedesktop.org/wiki/Specifications/basedir-spec\non how to implement it.",
                ),
            );
        },
        Some(d) => d,
    };
    if !is_dir {
        return RuntimeDir::Fatal(
            concat3("environment variable XDG_RUNTIME_DIR is set to \"", d, "\", which is not a directory."),
        );
    }
    let m = mode & 0o777;
    assert(mode & 0o777 < 512) by (bit_vector);
    if m != 0o700 || owner != uid {
        let a = concat3("warning: XDG_RUNTIME_DIR \"", d, "\" is not configured correctly: unix access mode must be 0700 (current mode is ");
        let o = octal4_exec(m);
        let b = concat3(a.as_str(), o.as_str(), "), and it must be owned by UID ");
        let u = format_i64(uid as i64);
        let c = concat3(b.as_str(), u.as_str(), " (current owner is UID ");
        let w = format_i64(owner as i64);
        let e = concat3(c.as_str(), w.as_str(), ")");
        return RuntimeDir::Warn(e);
    }
    RuntimeDir::Fine
}

/// `[core] require-outputs`: absent, one of the three names, or a
/// startup error.
pub open spec fn require_outputs_msg(v: Seq<char>) -> Seq<char> {
    "[core] require-outputs: unknown value \""@ + v + "\" (any|all|none)"@
}

pub fn require_outputs_setting(v: &Option<String>) -> (r: Result<Option<RequireOutputs>, String>)
    ensures
        match r {
            Ok(None) => v is None,
            Ok(Some(k)) => v matches Some(s) && require_outputs_named(s@) == Some(k),
            Err(m) => v matches Some(s) && require_outputs_named(s@) is None && m@
                == require_outputs_msg(s@),
        },
{
    match v {
        None => Ok(None),
        Some(s) => match RequireOutputs::parse(s.as_str()) {
            Some(k) => Ok(Some(k)),
            None => Err(concat3("[core] require-outputs: unknown value \"", s.as_str(), "\" (any|all|none)")),
        },
    }
}

pub open spec fn not_executable_msg(path: Seq<char>) -> Seq<char> {
    "Specified autolaunch path ("@ + path + ") is not executable"@
}

/// Autolaunch: nothing to start without a command; a path
/// from the configuration must be executable (`executable` says whether
/// it is; a command from the command line goes straight to exec); the
/// client gets the compositor's socket as `WAYLAND_DISPLAY`.
pub fn autolaunch_command(settings: &Settings, from_config: bool, executable: bool, socket: Option<&str>) -> (r:
    Result<Option<Command>, String>)
    requires
        settings.autolaunch matches Some(v) ==> v@.len() > 0,
    ensures
        match r {
            Ok(None) => settings.autolaunch is None,
            Ok(Some(c)) => settings.autolaunch matches Some(v) && !(from_config && !executable)
                && c.program@ == v@[0]@ && views(c.args@) == views(v@).skip(1) && c.env@.len() == (
            if socket is Some {
                1int
            } else {
                0int
            }) && (socket matches Some(s) ==> c.env@[0].key@ == "WAYLAND_DISPLAY"@
                && c.env@[0].value@ == s@),
            Err(m) => settings.autolaunch matches Some(v) && from_config && !executable && m@
                == not_executable_msg(v@[0]@),
        },
{
    let argv = match &settings.autolaunch {
        None => return Ok(None),
        Some(a) => a,
    };
    if from_config && !executable {
        return Err(concat3("Specified autolaunch path (", argv[0].as_str(), ") is not executable"));
    }
    let cmd = match Command::from_argv(argv) {
        Some(c) => c,
        None => return Err(owned("autolaunch command is empty")),
    };
    match socket {
        Some(s) => {
            let c = cmd.env("WAYLAND_DISPLAY", s);
            Ok(Some(c))
        },
        None => Ok(Some(cmd)),
    }
}

/// The process exit status for the compositor's exit code: itself when
/// it fits in a byte, failure (1) otherwise.
pub fn exit_status(code: i32) -> (r: u8)
    ensures
        r == if 0 <= code <= 255 {
            code as u8
        } else {
            1u8
        },
{
    if 0 <= code && code <= 255 {
        code as u8
    } else {
        1
    }
}

} // verus!
