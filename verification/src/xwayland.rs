//! The Xwayland server launch: its command line, and what a wake-up on
//! its `-displayfd` pipe means.

use vstd::prelude::*;
use crate::numeric::{decimal, format_i64};
use crate::spawn::Command;
use crate::text::{owned, views};

verus! {

/// The arguments the X server is started with: the display, rootless
/// mode, the two listening sockets, the display-number pipe, the window
/// manager socket, and `-terminate`.  Descriptors go in decimal.
pub open spec fn xserver_args(
    display: Seq<char>,
    listen_arg: Seq<char>,
    abstract_fd: i32,
    unix_fd: i32,
    displayfd: i32,
    wm_fd: i32,
) -> Seq<Seq<char>> {
    seq![
        display,
        "-rootless"@,
        listen_arg,
        decimal(abstract_fd as int),
        listen_arg,
        decimal(unix_fd as int),
        "-displayfd"@,
        decimal(displayfd as int),
        "-wm"@,
        decimal(wm_fd as int),
        "-terminate"@,
    ]
}

/// The command that starts the X server at `path`.  `listen_arg` is
/// libweston's listen-socket option.
pub fn xserver_command(
    path: &str,
    display: &str,
    listen_arg: &str,
    abstract_fd: i32,
    unix_fd: i32,
    displayfd: i32,
    wm_fd: i32,
) -> (c: Command)
    ensures
        c.program@ == path@,
        views(c.args@) == xserver_args(display@, listen_arg@, abstract_fd, unix_fd, displayfd, wm_fd),
        c.env@.len() == 0,
{
    let mut args: Vec<String> = Vec::new();
    args.push(owned(display));
    args.push(owned("-rootless"));
    args.push(owned(listen_arg));
    args.push(format_i64(abstract_fd as i64));
    args.push(owned(listen_arg));
    args.push(format_i64(unix_fd as i64));
    args.push(owned("-displayfd"));
    args.push(format_i64(displayfd as i64));
    args.push(owned("-wm"));
    args.push(format_i64(wm_fd as i64));
    args.push(owned("-terminate"));
    let c = Command { program: owned(path), args, env: Vec::new() };
    assert(views(c.args@) =~= xserver_args(display@, listen_arg@, abstract_fd, unix_fd, displayfd, wm_fd));
    c
}

/// What a wake-up on the display-number pipe leads to.
#[derive(Debug, Clone, Copy, PartialEq, Eq, Structural)]
pub enum DisplayFdStep {
    /// Nothing complete yet: keep the watch.
    KeepWatching,
    /// Stop watching; the server is up when `loaded`, and the read
    /// itself failed when `read_failed` (which is logged).
    Close { loaded: bool, read_failed: bool },
}

/// The display-fd handler: the server writes its display number and a
/// newline once it is ready.  `n` is what the read returned (negative
/// on error, `would_block` telling whether that error was EAGAIN), and
/// `last` the last byte read when `n > 0`.
pub open spec fn display_fd_spec(readable: bool, n: i64, would_block: bool, last: u8) -> DisplayFdStep {
    if !readable {
        DisplayFdStep::Close { loaded: false, read_failed: false }
    } else if n < 0 && !would_block {
        DisplayFdStep::Close { loaded: false, read_failed: true }
    } else if n < 0 || (n > 0 && last != 10) {
        DisplayFdStep::KeepWatching
    } else if n == 0 {
        DisplayFdStep::Close { loaded: false, read_failed: false }
    } else {
        DisplayFdStep::Close { loaded: true, read_failed: false }
    }
}

pub fn display_fd_step(readable: bool, n: i64, would_block: bool, last: u8) -> (r: DisplayFdStep)
    ensures
        r == display_fd_spec(readable, n, would_block, last),
{
    if !readable {
        DisplayFdStep::Close { loaded: false, read_failed: false }
    } else if n < 0 && !would_block {
        DisplayFdStep::Close { loaded: false, read_failed: true }
    } else if n < 0 || (n > 0 && last != 10) {
        DisplayFdStep::KeepWatching
    } else if n == 0 {
        DisplayFdStep::Close { loaded: false, read_failed: false }
    } else {
        DisplayFdStep::Close { loaded: true, read_failed: false }
    }
}

} // verus!
