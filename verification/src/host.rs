//! The boundary the shell policy is written against.
//!
//! Queries return plain data; commands take ids and are no-ops on stale
//! ids.  No pointer crosses this boundary, so the policy runs unchanged
//! against a compositor or against a scripted stand-in.  Positions in
//! global coordinates are fractional and live with the host: the shell
//! hands it integer positions, integer offsets, or the bit patterns of
//! the fractional values a compositor event carried, and asks it whether
//! a pointer or a view lies inside an integer rectangle.

use vstd::prelude::*;
use crate::ids::{DesktopSurfaceId, OutputId, SeatId, SurfaceId};

verus! {

/// Plain integer geometry.
#[derive(Debug, Clone, Copy, PartialEq, Eq, Structural, Default)]
pub struct Rect {
    pub x: i32,
    pub y: i32,
    pub width: i32,
    pub height: i32,
}

/// What the shell may know about an output.
#[derive(Debug, Clone, PartialEq, Eq)]
pub struct OutputInfo {
    /// Owned copy of the output name.
    pub name: String,
    pub geometry: Rect,
}

/// `enum weston_desktop_surface_edge`, as bits.
#[derive(Debug, Clone, Copy, PartialEq, Eq, Structural, Default)]
pub struct ResizeEdges {
    pub bits: u32,
}

pub const EDGE_TOP: u32 = 1;
pub const EDGE_BOTTOM: u32 = 2;
pub const EDGE_LEFT: u32 = 4;
pub const EDGE_RIGHT: u32 = 8;

impl ResizeEdges {
    pub fn empty() -> (r: ResizeEdges)
        ensures
            r.bits == 0,
    {
        ResizeEdges { bits: 0 }
    }

    pub fn from_bits(bits: u32) -> (r: ResizeEdges)
        ensures
            r.bits == bits,
    {
        ResizeEdges { bits }
    }

    pub fn is_empty(&self) -> (r: bool)
        ensures
            r == (self.bits == 0),
    {
        self.bits == 0
    }

    /// Whether every bit of `flag` is set.
    pub fn contains(&self, flag: u32) -> (r: bool)
        ensures
            r == (self.bits & flag == flag),
    {
        self.bits & flag == flag
    }
}

/// `enum weston_activate_flag`, as bits.
#[derive(Debug, Clone, Copy, PartialEq, Eq, Structural, Default)]
pub struct ActivateFlags {
    pub bits: u32,
}

pub const ACTIVATE_CONFIGURE: u32 = 1;
pub const ACTIVATE_CLICKED: u32 = 2;

impl ActivateFlags {
    pub fn empty() -> (r: ActivateFlags)
        ensures
            r.bits == 0,
    {
        ActivateFlags { bits: 0 }
    }

    pub fn from_bits(bits: u32) -> (r: ActivateFlags)
        ensures
            r.bits == bits,
    {
        ActivateFlags { bits }
    }
}

/// What view an input activation lands on.  `PointerFocusView` re-reads
/// the seat's pointer focus inside the input frame, so a click activates
/// the exact clicked view, which may be a subsurface.
#[derive(Debug, Clone, Copy, PartialEq, Eq, Structural)]
pub enum ActivateTarget {
    SurfaceView(DesktopSurfaceId),
    PointerFocusView(SeatId),
    TouchFocusView(SeatId),
}

/// How an activation request was triggered; decides the view target and
/// the activation flags.
#[derive(Debug, Clone, Copy, PartialEq, Eq, Structural)]
pub enum ActivateVia {
    /// Left or right button binding: CLICKED|CONFIGURE on the pointer
    /// focus view.
    PointerBinding,
    /// Touch binding: CONFIGURE on the touch focus view.
    TouchBinding,
    /// Left click on a busy window's grab: CONFIGURE on the surface's own
    /// view.
    BusyClick,
}

/// An offset a view is moved by: the client's buffer offset on that
/// axis, as the bits of the `f64` the commit carried, or whole pixels.
#[derive(Debug, Clone, Copy, PartialEq, Eq, Structural)]
pub enum ViewOffset {
    Buffer(u64),
    Pixels(i64),
}

/// One command the shell issues to its host, with its arguments.
#[derive(Debug, Clone, Copy, PartialEq, Eq, Structural)]
pub enum HostCall {
    ActivateInput(ActivateTarget, SeatId, ActivateFlags),
    SetActivated(DesktopSurfaceId, bool),
    Untrack(SurfaceId),
    Raise(DesktopSurfaceId),
    MapSurface(DesktopSurfaceId),
    DestroySurfaceState(DesktopSurfaceId),
    SetBusyCursor(DesktopSurfaceId, SeatId),
    EndBusyGrabs(DesktopSurfaceId),
    RecreateBackground(OutputId, u32),
    UpdateTransforms(DesktopSurfaceId),
    MarkViewDirty(DesktopSurfaceId),
    /// Place the view at an integer position.
    SetPosition(DesktopSurfaceId, i64, i64),
    /// Move the view by an offset on each axis.
    OffsetView(DesktopSurfaceId, ViewOffset, ViewOffset),
    /// Move the view by the `f64` amounts whose bits are given.
    ShiftView(DesktopSurfaceId, u64, u64),
    /// Place the view at the `f64` position whose bits are given, plus
    /// an integer offset.
    PlaceView(DesktopSurfaceId, u64, u64, i64, i64),
}

/// The compositor as the shell policy sees it.  Commands on stale ids do
/// nothing.  `received` is the sequence of commands the host has been
/// given, in order; each command appends itself to it, and the queries
/// leave it alone.
pub trait ShellHost {
    spec fn received(&self) -> Seq<HostCall>;

    /// Live outputs in the compositor's own list order.
    fn outputs(&self) -> Vec<OutputId>;
    fn output_info(&self, id: OutputId) -> Option<OutputInfo>;
    fn seats(&self) -> Vec<SeatId>;
    /// Main desktop surface under the seat's pointer focus, if any.
    fn pointer_focus(&self, seat: SeatId) -> Option<DesktopSurfaceId>;
    /// Workspace-layer views, topmost first, as desktop surfaces.
    fn workspace_views_top_down(&self) -> Vec<DesktopSurfaceId>;
    fn is_view_mapped(&self, id: DesktopSurfaceId) -> bool;
    fn view_output(&self, id: DesktopSurfaceId) -> Option<OutputId>;
    fn surface_geometry(&self, id: DesktopSurfaceId) -> Option<Rect>;
    /// Whether the seat's pointer lies in `area` (left and top edges
    /// inclusive, right and bottom exclusive); `None` when the seat has
    /// no pointer position.
    fn pointer_inside(&self, seat: SeatId, area: Rect) -> Option<bool>;
    /// Whether the view's position lies in `area`, as `pointer_inside`;
    /// `None` when the view has no position.
    fn view_inside(&self, id: DesktopSurfaceId, area: Rect) -> Option<bool>;
    /// Input activation of the target; returns the surface that received
    /// keyboard focus, now watched for destruction.  Every returned id is
    /// one acquisition, to be balanced by one `untrack_surface`.
    fn activate_input(&mut self, target: ActivateTarget, seat: SeatId, flags: ActivateFlags) -> (r: Option<
        SurfaceId,
    >)
        ensures
            final(self).received() == old(self).received().push(HostCall::ActivateInput(target, seat, flags)),
    ;
    /// Release one acquisition of a returned focus surface.
    fn untrack_surface(&mut self, id: SurfaceId)
        ensures
            final(self).received() == old(self).received().push(HostCall::Untrack(id)),
    ;
    fn set_activated(&mut self, id: DesktopSurfaceId, active: bool)
        ensures
            final(self).received() == old(self).received().push(HostCall::SetActivated(id, active)),
    ;
    /// Move the surface's view to the top of the workspace layer.
    fn raise_to_workspace_top(&mut self, id: DesktopSurfaceId)
        ensures
            final(self).received() == old(self).received().push(HostCall::Raise(id)),
    ;
    fn map_surface(&mut self, id: DesktopSurfaceId)
        ensures
            final(self).received() == old(self).received().push(HostCall::MapSurface(id)),
    ;
    fn update_transforms(&mut self, id: DesktopSurfaceId)
        ensures
            final(self).received() == old(self).received().push(HostCall::UpdateTransforms(id)),
    ;
    fn mark_view_dirty(&mut self, id: DesktopSurfaceId)
        ensures
            final(self).received() == old(self).received().push(HostCall::MarkViewDirty(id)),
    ;
    /// Unlink and destroy the shell view and drop per-surface state.
    fn destroy_surface_state(&mut self, id: DesktopSurfaceId)
        ensures
            final(self).received() == old(self).received().push(HostCall::DestroySurfaceState(id)),
    ;
    /// Busy-cursor grab on the seat's pointer.
    fn set_busy_cursor(&mut self, id: DesktopSurfaceId, seat: SeatId)
        ensures
            final(self).received() == old(self).received().push(HostCall::SetBusyCursor(id, seat)),
    ;
    /// End busy grabs whose surface belongs to the client of `id`.
    fn end_busy_grabs_for_client_of(&mut self, id: DesktopSurfaceId)
        ensures
            final(self).received() == old(self).received().push(HostCall::EndBusyGrabs(id)),
    ;
    /// (Re)create the per-output solid background.
    fn recreate_background(&mut self, output: OutputId, argb: u32)
        ensures
            final(self).received() == old(self).received().push(HostCall::RecreateBackground(output, argb)),
    ;
    fn set_view_position(&mut self, id: DesktopSurfaceId, x: i64, y: i64)
        ensures
            final(self).received() == old(self).received().push(HostCall::SetPosition(id, x, y)),
    ;
    /// Move the view by the offsets, when it has a position.
    fn offset_view(&mut self, id: DesktopSurfaceId, dx: ViewOffset, dy: ViewOffset)
        ensures
            final(self).received() == old(self).received().push(HostCall::OffsetView(id, dx, dy)),
    ;
    /// Move the view by the `f64` amounts with these bits, when it has a
    /// position.
    fn shift_view(&mut self, id: DesktopSurfaceId, dx_bits: u64, dy_bits: u64)
        ensures
            final(self).received() == old(self).received().push(HostCall::ShiftView(id, dx_bits, dy_bits)),
    ;
    /// Place the view at the `f64` position with these bits plus an
    /// integer offset.
    fn place_view(&mut self, id: DesktopSurfaceId, x_bits: u64, y_bits: u64, dx: i64, dy: i64)
        ensures
            final(self).received() == old(self).received().push(HostCall::PlaceView(id, x_bits, y_bits, dx, dy)),
    ;
}

} // verus!
