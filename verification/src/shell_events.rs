//! The shell's event loop step: each compositor event the shell reacts
//! to, routed to the method that handles it, with the host calls it
//! makes.  Fractional values an event carries (a commit's buffer offset,
//! an Xwayland position, an output's move) travel as the bits of their
//! `f64`; the host does the arithmetic on them.  Events about heads and
//! grabs are not the shell's business.

use vstd::prelude::*;
use crate::host::{HostCall, ResizeEdges, ShellHost};
use crate::ids::{DesktopSurfaceId, OutputId, SeatId, SurfaceId};
use crate::host::ActivateVia;
use crate::shell::{
    activation_params_spec, activation_step, add_surface_spec, busy_calls, busy_targets_spec,
    cleared, commit_plan_spec, destroy_calls, first_map, focused_on, gone_steps, joined,
    reactivation_calls, reactivations_spec, record_size_spec, refit_for_count, remove_surface_spec,
    repositioned,
    same_shape, seat_created_spec, seat_gone_spec, set_parent_spec, set_xwayland_spec, shifted,
    shutdown_order, view_offset, zero_bits, CommitPlan, Shell, ShellModel,
};

verus! {

/// A compositor event, as the shell sees it.
#[derive(Debug, Clone, PartialEq, Eq)]
pub enum ShellEvent {
    SurfaceAdded { surface: DesktopSurfaceId },
    SurfaceRemoved { surface: DesktopSurfaceId },
    /// New content: `buf_dx`, `buf_dy` are the bits of the client's
    /// `f64` buffer offset; `mapped` says whether the surface was
    /// already mapped.
    Committed {
        surface: DesktopSurfaceId,
        buf_dx: u64,
        buf_dy: u64,
        resize_edges: ResizeEdges,
        width: i32,
        height: i32,
        mapped: bool,
    },
    ParentSet { surface: DesktopSurfaceId, parent: Option<DesktopSurfaceId> },
    /// Xwayland asked for a position (the bits of its `f64` coordinates).
    XwaylandPosition { surface: DesktopSurfaceId, x: u64, y: u64 },
    /// The client of these surfaces stopped answering pings.
    PingTimeout { surfaces: Vec<DesktopSurfaceId> },
    /// The client of these surfaces answered again.
    Pong { surfaces: Vec<DesktopSurfaceId> },
    Activate { seat: SeatId, surface: DesktopSurfaceId, via: ActivateVia },
    /// A surface that had keyboard focus was destroyed; `main` is its
    /// desktop surface, when it had one.
    TrackedSurfaceGone { surface: SurfaceId, main: Option<DesktopSurfaceId> },
    OutputCreated { output: OutputId },
    OutputGone { output: OutputId, name: String },
    OutputResized { output: OutputId },
    /// An output moved by the `f64` amounts with these bits.
    OutputMoved { output: OutputId, dx: u64, dy: u64 },
    SeatCreated { seat: SeatId },
    SeatGone { seat: SeatId },
    SessionActivated,
    Shutdown,
}

impl Shell {
    /// Handle one event; returns the host calls made, in order.
    pub fn on_event<H: ShellHost>(&mut self, host: &mut H, ev: ShellEvent) -> (calls: Vec<HostCall>)
        ensures
            final(host).received() == old(host).received() + calls@,
            match ev {
                ShellEvent::SurfaceAdded { surface } => final(self)@ == add_surface_spec(
                    old(self)@,
                    surface,
                ) && calls@.len() == 0,
                ShellEvent::SurfaceRemoved { surface } => final(self)@ == remove_surface_spec(
                    old(self)@,
                    surface,
                ) && calls@ == seq![HostCall::DestroySurfaceState(surface)],
                ShellEvent::Committed {
                    surface,
                    buf_dx,
                    buf_dy,
                    resize_edges,
                    width,
                    height,
                    mapped,
                } => match commit_plan_spec(
                    old(self)@,
                    surface,
                    width,
                    height,
                    mapped,
                    zero_bits(buf_dx) && zero_bits(buf_dy),
                    resize_edges,
                ) {
                    CommitPlan::Ignore | CommitPlan::Unchanged => final(self)@ == old(self)@
                        && calls@.len() == 0,
                    CommitPlan::FirstMap => first_map(
                        old(self)@,
                        final(self)@,
                        calls@,
                        surface,
                        width,
                        height,
                    ),
                    CommitPlan::Move { x, y } => final(self)@ == record_size_spec(
                        old(self)@,
                        surface,
                        width,
                        height,
                    ) && calls@ == seq![
                        HostCall::UpdateTransforms(surface),
                        HostCall::OffsetView(
                            surface,
                            view_offset(x, buf_dx),
                            view_offset(y, buf_dy),
                        ),
                        HostCall::UpdateTransforms(surface),
                    ],
                },
                ShellEvent::ParentSet { surface, parent } => final(self)@ == set_parent_spec(
                    old(self)@,
                    surface,
                    parent,
                ) && calls@.len() == 0,
                ShellEvent::XwaylandPosition { surface, x, y } => final(self)@
                    == set_xwayland_spec(old(self)@, surface, x, y) && calls@.len() == 0,
                ShellEvent::PingTimeout { surfaces } => final(self)@ == old(self)@ && exists|
                    focus: Seq<(SeatId, Option<DesktopSurfaceId>)>,
                | calls@ == busy_calls(#[trigger] busy_targets_spec(focus, surfaces@)),
                ShellEvent::Pong { surfaces } => final(self)@ == old(self)@ && calls@ == if surfaces@.len()
                    > 0 {
                    seq![HostCall::EndBusyGrabs(surfaces@[0])]
                } else {
                    Seq::empty()
                },
                ShellEvent::Activate { seat, surface, via } => activation_step(
                    old(self)@,
                    final(self)@,
                    calls@,
                    surface,
                    seat,
                    activation_params_spec(via, seat, surface).0,
                    activation_params_spec(via, seat, surface).1,
                ) && same_shape(old(self)@, final(self)@),
                ShellEvent::TrackedSurfaceGone { surface, main } => same_shape(
                    old(self)@,
                    final(self)@,
                ) && exists|ms: Seq<ShellModel>, cs: Seq<Seq<HostCall>>|
                    #[trigger] gone_steps(ms, cs, focused_on(old(self)@.focus, surface), main)
                        && ms[0] == old(self)@ && ms.last() == final(self)@ && calls@ == joined(cs),
                ShellEvent::OutputCreated { output } => final(self)@ == old(self)@ && calls@.len()
                    >= 1 && calls@[0] == HostCall::RecreateBackground(
                    output,
                    old(self)@.config.background_color,
                ) && exists|n: usize|
                    #[trigger] refit_for_count(old(self)@, calls@.subrange(1, calls@.len() as int), n),
                ShellEvent::OutputGone { .. } => final(self)@ == old(self)@ && repositioned(
                    old(self)@,
                    calls@,
                ),
                ShellEvent::OutputResized { output } => final(self)@ == old(self)@ && calls@
                    == seq![HostCall::RecreateBackground(output, old(self)@.config.background_color)],
                ShellEvent::OutputMoved { output, dx, dy } => final(self)@ == old(self)@ && shifted(
                    old(self)@,
                    calls@,
                    output,
                    dx,
                    dy,
                ),
                ShellEvent::SeatCreated { seat } => final(self)@ == seat_created_spec(
                    old(self)@,
                    seat,
                ) && calls@.len() == 0,
                ShellEvent::SeatGone { seat } => final(self)@ == seat_gone_spec(old(self)@, seat).0
                    && calls@ == match seat_gone_spec(old(self)@, seat).1 {
                    Some(s) => seq![HostCall::Untrack(s)],
                    None => Seq::empty(),
                },
                ShellEvent::SessionActivated => final(self)@ == old(self)@ && calls@
                    == reactivation_calls(reactivations_spec(old(self)@.seats)),
                ShellEvent::Shutdown => final(self)@ == cleared(old(self)@) && exists|
                    stack: Seq<DesktopSurfaceId>,
                | calls@ == destroy_calls(#[trigger] shutdown_order(old(self)@, stack)),
            },
    {
        match ev {
            ShellEvent::SurfaceAdded { surface } => {
                self.surface_added(surface);
                Vec::new()
            },
            ShellEvent::SurfaceRemoved { surface } => self.surface_removed(host, surface),
            ShellEvent::Committed { surface, buf_dx, buf_dy, resize_edges, width, height, mapped } => {
                self.committed(host, surface, buf_dx, buf_dy, resize_edges, width, height, mapped)
            },
            ShellEvent::ParentSet { surface, parent } => {
                self.parent_set(surface, parent);
                Vec::new()
            },
            ShellEvent::XwaylandPosition { surface, x, y } => {
                self.xwayland_position(surface, x, y);
                Vec::new()
            },
            ShellEvent::PingTimeout { surfaces } => self.ping_timeout(host, &surfaces),
            ShellEvent::Pong { surfaces } => self.pong(host, &surfaces),
            ShellEvent::Activate { seat, surface, via } => self.activate_via(host, seat, surface, via),
            ShellEvent::TrackedSurfaceGone { surface, main } => {
                self.tracked_surface_gone(host, surface, main)
            },
            ShellEvent::OutputCreated { output } => self.output_created(host, output),
            ShellEvent::OutputGone { .. } => self.reposition_all(host),
            ShellEvent::OutputResized { output } => self.output_resized(host, output),
            ShellEvent::OutputMoved { output, dx, dy } => self.output_moved(host, output, dx, dy),
            ShellEvent::SeatCreated { seat } => {
                self.seat_created(seat);
                Vec::new()
            },
            ShellEvent::SeatGone { seat } => self.seat_gone(host, seat),
            ShellEvent::SessionActivated => self.session_activated(host),
            ShellEvent::Shutdown => self.shutdown(host),
        }
    }
}

} // verus!
