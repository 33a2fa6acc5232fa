//! Interactive resize arithmetic: which edge combinations a client may
//! ask for, and the size a resize grab sets as the pointer moves, in
//! 24.8 fixed point as libwayland counts it.

use vstd::prelude::*;
use crate::host::{EDGE_BOTTOM, EDGE_LEFT, EDGE_RIGHT, EDGE_TOP};
use crate::heads::trunc_div;
use crate::host::ActivateVia;
use crate::ids::{DesktopSurfaceId, SeatId};

verus! {

/// `wl_fixed_to_int`: the integer part, rounding towards zero.
pub fn fixed_to_int(f: i32) -> (r: i32)
    ensures
        r == trunc_div(f as int, 256),
{
    let w = f as i64;
    let q: i64 = if w >= 0 {
        w / 256
    } else {
        -((-w) / 256)
    };
    q as i32
}

/// The edge check of a resize request: at least one edge, only the four
/// edge bits (top 1, bottom 2, left 4, right 8), and not two opposite
/// edges.
pub open spec fn resize_edges_ok(edges: u32) -> bool {
    &&& edges != 0
    &&& edges <= 15
    &&& edges & 3 != 3
    &&& edges & 12 != 12
}

pub fn resize_edges_valid(edges: u32) -> (r: bool)
    ensures
        r == resize_edges_ok(edges),
{
    !(edges == 0 || edges > 15 || (edges & 3) == 3 || (edges & 12) == 12)
}

/// The size change along one axis: the grabbed edge moves with the
/// pointer (`lo` for the left/top edge, `hi` for right/bottom).
pub open spec fn axis_delta(edges: u32, lo: u32, hi: u32, from: i32, to: i32) -> int {
    if edges & lo != 0 {
        trunc_div(from - to, 256)
    } else if edges & hi != 0 {
        trunc_div(to - from, 256)
    } else {
        0
    }
}

/// A size clamped to the surface's limits: at least `max(min, 1)`, and
/// at most `max` when that is positive.
pub open spec fn clamp_size(v: int, min: i32, max: i32) -> int {
    let lo: int = if min < 1 {
        1
    } else {
        min as int
    };
    if v < lo {
        lo
    } else if max > 0 && v > max {
        max as int
    } else {
        v
    }
}

/// The arguments of one resize step.
#[derive(Debug, Clone, Copy, PartialEq, Eq, Structural)]
pub struct ResizeStep {
    pub start_width: i32,
    pub start_height: i32,
    pub edges: u32,
    /// Pointer position at grab start and now, surface-local, 24.8.
    pub from_x: i32,
    pub from_y: i32,
    pub to_x: i32,
    pub to_y: i32,
    pub min_width: i32,
    pub min_height: i32,
    /// 0 means unbounded.
    pub max_width: i32,
    pub max_height: i32,
}

pub open spec fn resize_step_fits(s: ResizeStep) -> bool {
    &&& i32::MIN <= s.from_x - s.to_x <= i32::MAX
    &&& i32::MIN <= s.to_x - s.from_x <= i32::MAX
    &&& i32::MIN <= s.from_y - s.to_y <= i32::MAX
    &&& i32::MIN <= s.to_y - s.from_y <= i32::MAX
    &&& i32::MIN <= s.start_width + axis_delta(s.edges, EDGE_LEFT, EDGE_RIGHT, s.from_x, s.to_x)
        <= i32::MAX
    &&& i32::MIN <= s.start_height + axis_delta(s.edges, EDGE_TOP, EDGE_BOTTOM, s.from_y, s.to_y)
        <= i32::MAX
}

/// A resize grab's motion: the size the surface is asked to take.
pub fn resize_size(s: ResizeStep) -> (r: (i32, i32))
    requires
        resize_step_fits(s),
    ensures
        r.0 == clamp_size(
            s.start_width + axis_delta(s.edges, EDGE_LEFT, EDGE_RIGHT, s.from_x, s.to_x),
            s.min_width,
            s.max_width,
        ),
        r.1 == clamp_size(
            s.start_height + axis_delta(s.edges, EDGE_TOP, EDGE_BOTTOM, s.from_y, s.to_y),
            s.min_height,
            s.max_height,
        ),
        (r.0 as int, r.1 as int) == resized(s),
{
    let mut width = s.start_width;
    if s.edges & EDGE_LEFT != 0 {
        width = width + fixed_to_int(s.from_x - s.to_x);
    } else if s.edges & EDGE_RIGHT != 0 {
        width = width + fixed_to_int(s.to_x - s.from_x);
    }
    let mut height = s.start_height;
    if s.edges & EDGE_TOP != 0 {
        height = height + fixed_to_int(s.from_y - s.to_y);
    } else if s.edges & EDGE_BOTTOM != 0 {
        height = height + fixed_to_int(s.to_y - s.from_y);
    }
    let min_w = if s.min_width < 1 {
        1
    } else {
        s.min_width
    };
    let min_h = if s.min_height < 1 {
        1
    } else {
        s.min_height
    };
    if width < min_w {
        width = min_w;
    } else if s.max_width > 0 && width > s.max_width {
        width = s.max_width;
    }
    if height < min_h {
        height = min_h;
    } else if s.max_height > 0 && height > s.max_height {
        height = s.max_height;
    }
    (width, height)
}


/// The size a resize grab asks for, per axis: the grabbed edge follows
/// the pointer, then the result is clamped to the surface's limits.
pub open spec fn resized(s: ResizeStep) -> (int, int) {
    (
        clamp_size(s.start_width + axis_delta(s.edges, EDGE_LEFT, EDGE_RIGHT, s.from_x, s.to_x), s.min_width, s.max_width),
        clamp_size(s.start_height + axis_delta(s.edges, EDGE_TOP, EDGE_BOTTOM, s.from_y, s.to_y), s.min_height, s.max_height),
    )
}

/// Within the limits, a grabbed right or bottom edge grows the surface by
/// the whole pixels the pointer moved right or down, and a grabbed left or
/// top edge grows it by those it moved left or up; an axis with no grabbed
/// edge keeps its size.  Whatever the motion, the size is at least 1 and
/// the minimum, and at most a positive maximum, when that maximum is not
/// below them.
pub proof fn law_resize_follows_pointer(s: ResizeStep)
    ensures
        ({
            let w = resized(s).0;
            let lo: int = if s.min_width < 1 { 1 } else { s.min_width as int };
            &&& s.edges & EDGE_RIGHT != 0 && s.edges & EDGE_LEFT == 0 && s.to_x >= s.from_x ==> {
                let v = s.start_width + (s.to_x - s.from_x) / 256;
                lo <= v && (s.max_width <= 0 || v <= s.max_width) ==> w == v
            }
            &&& s.edges & EDGE_RIGHT != 0 && s.edges & EDGE_LEFT == 0 && s.to_x < s.from_x ==> {
                let v = s.start_width - (s.from_x - s.to_x) / 256;
                lo <= v && (s.max_width <= 0 || v <= s.max_width) ==> w == v
            }
            &&& s.edges & EDGE_LEFT != 0 && s.from_x >= s.to_x ==> {
                let v = s.start_width + (s.from_x - s.to_x) / 256;
                lo <= v && (s.max_width <= 0 || v <= s.max_width) ==> w == v
            }
            &&& s.edges & EDGE_LEFT != 0 && s.from_x < s.to_x ==> {
                let v = s.start_width - (s.to_x - s.from_x) / 256;
                lo <= v && (s.max_width <= 0 || v <= s.max_width) ==> w == v
            }
            &&& s.edges & EDGE_LEFT == 0 && s.edges & EDGE_RIGHT == 0 && lo <= s.start_width
                && (s.max_width <= 0 || s.start_width <= s.max_width) ==> w == s.start_width
            &&& s.max_width <= 0 || s.max_width >= lo ==> w >= lo
            &&& s.max_width > 0 && s.max_width >= lo ==> w <= s.max_width
        }),
        ({
            let h = resized(s).1;
            let lo: int = if s.min_height < 1 { 1 } else { s.min_height as int };
            &&& s.edges & EDGE_BOTTOM != 0 && s.edges & EDGE_TOP == 0 && s.to_y >= s.from_y ==> {
                let v = s.start_height + (s.to_y - s.from_y) / 256;
                lo <= v && (s.max_height <= 0 || v <= s.max_height) ==> h == v
            }
            &&& s.edges & EDGE_BOTTOM != 0 && s.edges & EDGE_TOP == 0 && s.to_y < s.from_y ==> {
                let v = s.start_height - (s.from_y - s.to_y) / 256;
                lo <= v && (s.max_height <= 0 || v <= s.max_height) ==> h == v
            }
            &&& s.edges & EDGE_TOP != 0 && s.from_y >= s.to_y ==> {
                let v = s.start_height + (s.from_y - s.to_y) / 256;
                lo <= v && (s.max_height <= 0 || v <= s.max_height) ==> h == v
            }
            &&& s.edges & EDGE_TOP != 0 && s.from_y < s.to_y ==> {
                let v = s.start_height - (s.to_y - s.from_y) / 256;
                lo <= v && (s.max_height <= 0 || v <= s.max_height) ==> h == v
            }
            &&& s.edges & EDGE_TOP == 0 && s.edges & EDGE_BOTTOM == 0 && lo <= s.start_height
                && (s.max_height <= 0 || s.start_height <= s.max_height) ==> h == s.start_height
            &&& s.max_height <= 0 || s.max_height >= lo ==> h >= lo
            &&& s.max_height > 0 && s.max_height >= lo ==> h <= s.max_height
        }),
{
}


/// What a pointer or touch device shows when a client asks for a grab:
/// whether something has focus and whether that focus (through its main
/// surface) is the requesting surface, the buttons held, and the serial
/// of the event that started the current implicit grab.
#[derive(Debug, Clone, Copy, PartialEq, Eq, Structural)]
pub struct GrabProbe {
    pub has_focus: bool,
    pub focus_is_surface: bool,
    pub buttons: u32,
    pub grab_serial: u32,
}

/// Which grab an interactive move starts.
#[derive(Debug, Clone, Copy, PartialEq, Eq, Structural)]
pub enum GrabChoice {
    Pointer,
    Touch,
    NoGrab,
}

/// A move request: the pointer is used when its held-button grab
/// carries the request's serial; then the grab starts only if the
/// pointer is on this surface and it is not grabbed already.  Otherwise
/// the touch device is used when its grab carries the serial and it
/// touches this surface.
pub open spec fn move_choice_spec(pointer: Option<GrabProbe>, touch: Option<GrabProbe>, serial: u32, grabbed: bool) -> GrabChoice {
    if pointer matches Some(p) && p.has_focus && p.buttons > 0 && p.grab_serial == serial {
        if !pointer->0.focus_is_surface || grabbed {
            GrabChoice::NoGrab
        } else {
            GrabChoice::Pointer
        }
    } else if touch matches Some(t) && t.has_focus && t.grab_serial == serial {
        if touch->0.focus_is_surface {
            GrabChoice::Touch
        } else {
            GrabChoice::NoGrab
        }
    } else {
        GrabChoice::NoGrab
    }
}

pub fn move_choice(pointer: Option<GrabProbe>, touch: Option<GrabProbe>, serial: u32, grabbed: bool) -> (r: GrabChoice)
    ensures
        r == move_choice_spec(pointer, touch, serial, grabbed),
{
    match pointer {
        Some(p) => if p.has_focus && p.buttons > 0 && p.grab_serial == serial {
            return if !p.focus_is_surface || grabbed {
                GrabChoice::NoGrab
            } else {
                GrabChoice::Pointer
            };
        },
        None => {},
    }
    match touch {
        Some(t) => if t.has_focus && t.grab_serial == serial {
            if t.focus_is_surface {
                GrabChoice::Touch
            } else {
                GrabChoice::NoGrab
            }
        } else {
            GrabChoice::NoGrab
        },
        None => GrabChoice::NoGrab,
    }
}

/// A resize request: only with the pointer, held on this surface by
/// the request's grab, when the surface is not grabbed already and the
/// edges are a valid combination.
pub open spec fn resize_allowed_spec(pointer: Option<GrabProbe>, serial: u32, grabbed: bool, edges: u32) -> bool {
    &&& pointer matches Some(p)
    &&& pointer->0.buttons > 0
    &&& pointer->0.grab_serial == serial
    &&& pointer->0.has_focus
    &&& pointer->0.focus_is_surface
    &&& !grabbed
    &&& resize_edges_ok(edges)
}

pub fn resize_allowed(pointer: Option<GrabProbe>, serial: u32, grabbed: bool, edges: u32) -> (r: bool)
    ensures
        r == resize_allowed_spec(pointer, serial, grabbed, edges),
{
    match pointer {
        Some(p) => p.buttons > 0 && p.grab_serial == serial && p.has_focus && p.focus_is_surface
            && !grabbed && resize_edges_valid(edges),
        None => false,
    }
}

/// A move or resize grab ends when the last button is released.
pub fn grab_ends(buttons_held: u32, released: bool) -> (r: bool)
    ensures
        r == (buttons_held == 0 && released),
{
    buttons_held == 0 && released
}

/// `BTN_LEFT` in evdev.
pub const BTN_LEFT: u32 = 0x110;

/// A press of the left button on a busy window's grab activates the
/// window, while it still exists.
pub fn busy_click_activates(button: u32, state: u32, known: bool) -> (r: bool)
    ensures
        r == (button == BTN_LEFT && state != 0 && known),
{
    button == BTN_LEFT && state != 0 && known
}

/// The busy grab lasts while the pointer stays over its surface and the
/// surface exists.
pub fn busy_grab_holds(picked: Option<DesktopSurfaceId>, surface: DesktopSurfaceId, known: bool) -> (r: bool)
    ensures
        r == (picked == Some(surface) && known),
{
    picked == Some(surface) && known
}

/// What a pong does to one busy grab: grabs of other clients stay; a
/// grab still current on its pointer is ended, a superseded one only
/// retired.
#[derive(Debug, Clone, Copy, PartialEq, Eq, Structural)]
pub enum BusyGrabAction {
    Keep,
    End,
    Retire,
}

pub fn busy_grab_action(same_client: bool, current: bool) -> (r: BusyGrabAction)
    ensures
        r == if !same_client {
            BusyGrabAction::Keep
        } else if current {
            BusyGrabAction::End
        } else {
            BusyGrabAction::Retire
        },
{
    if !same_client {
        BusyGrabAction::Keep
    } else if current {
        BusyGrabAction::End
    } else {
        BusyGrabAction::Retire
    }
}

/// The activation a click or touch binding asks for: only while the
/// device is in its default grab, on the main surface of what it
/// focuses, for a known seat.
pub fn binding_activation(
    in_default_grab: bool,
    main: Option<DesktopSurfaceId>,
    seat: Option<SeatId>,
    touch: bool,
) -> (r: Option<(SeatId, DesktopSurfaceId, ActivateVia)>)
    ensures
        r == if in_default_grab && main is Some && seat is Some {
            Some(
                (
                    seat->0,
                    main->0,
                    if touch {
                        ActivateVia::TouchBinding
                    } else {
                        ActivateVia::PointerBinding
                    },
                ),
            )
        } else {
            None
        },
{
    if !in_default_grab {
        return None;
    }
    match (main, seat) {
        (Some(m), Some(s)) => Some(
            (
                s,
                m,
                if touch {
                    ActivateVia::TouchBinding
                } else {
                    ActivateVia::PointerBinding
                },
            ),
        ),
        _ => None,
    }
}

} // verus!
