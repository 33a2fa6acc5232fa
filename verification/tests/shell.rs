use std::cell::RefCell;
use std::collections::{HashMap, HashSet};

use westonite::forge;
use westonite::host::{
    ActivateFlags, ActivateTarget, ActivateVia, HostCall, OutputInfo, Rect, ResizeEdges, ShellHost,
    ViewOffset, EDGE_BOTTOM, EDGE_LEFT, EDGE_RIGHT, EDGE_TOP,
};
use westonite::ids::{DesktopSurfaceId, OutputId, SeatId, SurfaceId};
use westonite::shell::{
    busy_targets, fallback_position, refit_calls, refit_needed, shift_calls, AxisOffset, CommitPlan, Shell, ShellConfig,
};
use westonite::shell_events::ShellEvent;

#[derive(Default)]
struct MockHost {
    outputs: Vec<(OutputId, Rect)>,
    seats: Vec<SeatId>,
    mapped: RefCell<HashSet<DesktopSurfaceId>>,
    view_pos: RefCell<HashMap<DesktopSurfaceId, (f64, f64)>>,
    activated: RefCell<Vec<(DesktopSurfaceId, bool)>>,
    input_activations: RefCell<Vec<(DesktopSurfaceId, SeatId)>>,
    raised: RefCell<Vec<DesktopSurfaceId>>,
    destroyed: RefCell<Vec<DesktopSurfaceId>>,
    untracked: RefCell<Vec<SurfaceId>>,
    tracked_for: RefCell<HashMap<DesktopSurfaceId, SurfaceId>>,
    track_counts: RefCell<HashMap<SurfaceId, i32>>,
    stacking: RefCell<Vec<DesktopSurfaceId>>,
    backgrounds: RefCell<Vec<(OutputId, u32)>>,
    received: Vec<HostCall>,
}

impl MockHost {
    fn track_count(&self, s: SurfaceId) -> i32 {
        self.track_counts.borrow().get(&s).copied().unwrap_or(0)
    }

    fn pointer_pos(&self, _seat: SeatId) -> Option<(f64, f64)> {
        None
    }

    fn offset(o: ViewOffset) -> f64 {
        match o {
            ViewOffset::Buffer(b) => f64::from_bits(b),
            ViewOffset::Pixels(v) => v as f64,
        }
    }
}

impl ShellHost for MockHost {
    /// Only proofs read this; `received` holds the same record at run time.
    fn received(&self) -> vstd::seq::Seq<HostCall> {
        unreachable!("read by proofs only")
    }
    fn outputs(&self) -> Vec<OutputId> {
        self.outputs.iter().map(|(o, _)| *o).collect()
    }
    fn output_info(&self, id: OutputId) -> Option<OutputInfo> {
        self.outputs
            .iter()
            .find(|(o, _)| *o == id)
            .map(|(_, g)| OutputInfo {
                name: "mock".into(),
                geometry: *g,
            })
    }
    fn seats(&self) -> Vec<SeatId> {
        self.seats.clone()
    }
    fn pointer_focus(&self, _seat: SeatId) -> Option<DesktopSurfaceId> {
        None
    }
    fn workspace_views_top_down(&self) -> Vec<DesktopSurfaceId> {
        self.stacking.borrow().clone()
    }
    fn is_view_mapped(&self, id: DesktopSurfaceId) -> bool {
        self.mapped.borrow().contains(&id)
    }
    fn view_output(&self, _id: DesktopSurfaceId) -> Option<OutputId> {
        None
    }
    fn surface_geometry(&self, _id: DesktopSurfaceId) -> Option<Rect> {
        Some(Rect::default())
    }
    fn activate_input(
        &mut self,
        target: ActivateTarget,
        seat: SeatId,
        flags: ActivateFlags,
    ) -> Option<SurfaceId> {
        self.received.push(HostCall::ActivateInput(target, seat, flags));
        let ActivateTarget::SurfaceView(id) = target else {
            return None;
        };
        self.input_activations.borrow_mut().push((id, seat));
        let es = self.tracked_for.borrow().get(&id).copied();
        if let Some(es) = es {
            *self.track_counts.borrow_mut().entry(es).or_insert(0) += 1;
        }
        es
    }
    fn untrack_surface(&mut self, id: SurfaceId) {
        self.received.push(HostCall::Untrack(id));
        self.untracked.borrow_mut().push(id);
        *self.track_counts.borrow_mut().entry(id).or_insert(0) -= 1;
    }
    fn set_activated(&mut self, id: DesktopSurfaceId, active: bool) {
        self.received.push(HostCall::SetActivated(id, active));
        self.activated.borrow_mut().push((id, active));
    }
    fn raise_to_workspace_top(&mut self, id: DesktopSurfaceId) {
        self.received.push(HostCall::Raise(id));
        self.raised.borrow_mut().push(id);
        let mut s = self.stacking.borrow_mut();
        s.retain(|v| *v != id);
        s.insert(0, id);
    }
    fn map_surface(&mut self, id: DesktopSurfaceId) {
        self.received.push(HostCall::MapSurface(id));
        self.mapped.borrow_mut().insert(id);
    }
    fn update_transforms(&mut self, id: DesktopSurfaceId) {
        self.received.push(HostCall::UpdateTransforms(id));
    }
    fn mark_view_dirty(&mut self, id: DesktopSurfaceId) {
        self.received.push(HostCall::MarkViewDirty(id));
    }
    fn destroy_surface_state(&mut self, id: DesktopSurfaceId) {
        self.received.push(HostCall::DestroySurfaceState(id));
        self.destroyed.borrow_mut().push(id);
        self.mapped.borrow_mut().remove(&id);
        self.stacking.borrow_mut().retain(|v| *v != id);
    }
    fn set_busy_cursor(&mut self, id: DesktopSurfaceId, seat: SeatId) {
        self.received.push(HostCall::SetBusyCursor(id, seat));
    }
    fn end_busy_grabs_for_client_of(&mut self, id: DesktopSurfaceId) {
        self.received.push(HostCall::EndBusyGrabs(id));
    }
    fn recreate_background(&mut self, output: OutputId, argb: u32) {
        self.received.push(HostCall::RecreateBackground(output, argb));
        self.backgrounds.borrow_mut().push((output, argb));
    }
    fn pointer_inside(&self, seat: SeatId, area: Rect) -> Option<bool> {
        self.pointer_pos(seat).map(|p| contains(&area, p))
    }
    fn view_inside(&self, id: DesktopSurfaceId, area: Rect) -> Option<bool> {
        self.view_pos.borrow().get(&id).map(|p| contains(&area, *p))
    }
    fn set_view_position(&mut self, id: DesktopSurfaceId, x: i64, y: i64) {
        self.received.push(HostCall::SetPosition(id, x, y));
        self.view_pos.borrow_mut().insert(id, (x as f64, y as f64));
    }
    fn offset_view(&mut self, id: DesktopSurfaceId, dx: ViewOffset, dy: ViewOffset) {
        self.received.push(HostCall::OffsetView(id, dx, dy));
        let cur = self.view_pos.borrow().get(&id).copied();
        if let Some((x, y)) = cur {
            self.view_pos
                .borrow_mut()
                .insert(id, (x + MockHost::offset(dx), y + MockHost::offset(dy)));
        }
    }
    fn shift_view(&mut self, id: DesktopSurfaceId, dx_bits: u64, dy_bits: u64) {
        self.received.push(HostCall::ShiftView(id, dx_bits, dy_bits));
        let cur = self.view_pos.borrow().get(&id).copied();
        if let Some((x, y)) = cur {
            self.view_pos
                .borrow_mut()
                .insert(id, (x + f64::from_bits(dx_bits), y + f64::from_bits(dy_bits)));
        }
    }
    fn place_view(&mut self, id: DesktopSurfaceId, x_bits: u64, y_bits: u64, dx: i64, dy: i64) {
        self.received.push(HostCall::PlaceView(id, x_bits, y_bits, dx, dy));
        self.view_pos.borrow_mut().insert(
            id,
            (f64::from_bits(x_bits) + dx as f64, f64::from_bits(y_bits) + dy as f64),
        );
    }
}

fn contains(g: &Rect, pos: (f64, f64)) -> bool {
    pos.0 >= g.x as f64
        && pos.0 < (g.x + g.width) as f64
        && pos.1 >= g.y as f64
        && pos.1 < (g.y + g.height) as f64
}

/// A commit as the compositor delivers it, through the event step.
#[allow(clippy::too_many_arguments)]
fn committed(
    shell: &mut Shell,
    host: &mut MockHost,
    id: DesktopSurfaceId,
    buf_dx: f64,
    buf_dy: f64,
    edges: ResizeEdges,
    width: i32,
    height: i32,
    mapped: bool,
) -> Vec<HostCall> {
    shell.on_event(
        host,
        ShellEvent::Committed {
            surface: id,
            buf_dx: buf_dx.to_bits(),
            buf_dy: buf_dy.to_bits(),
            resize_edges: edges,
            width,
            height,
            mapped,
        },
    )
}

fn commit(shell: &mut Shell, host: &mut MockHost, s: DesktopSurfaceId, mapped: bool) {
    let _ = committed(shell, host, s, 0.0, 0.0, ResizeEdges::empty(), 100, 100, mapped);
}

fn shell_with_seats(seats: &[SeatId]) -> Shell {
    let mut shell = Shell::new(ShellConfig::default());
    for s in seats {
        shell.seat_created(*s);
    }
    shell
}

#[test]
fn map_activates_on_every_seat_and_raises() {
    let mut host = MockHost {
        outputs: vec![(
            forge::output(0),
            Rect {
                x: 0,
                y: 0,
                width: 800,
                height: 600,
            },
        )],
        seats: vec![forge::seat(0), forge::seat(1)],
        ..Default::default()
    };
    host.tracked_for
        .borrow_mut()
        .insert(forge::ds(0), forge::surf(0));
    let mut shell = shell_with_seats(&[forge::seat(0), forge::seat(1)]);
    shell.surface_added(forge::ds(0));
    commit(&mut shell, &mut host, forge::ds(0), false);

    assert!(host.mapped.borrow().contains(&forge::ds(0)));
    assert_eq!(host.input_activations.borrow().len(), 2);
    assert_eq!(*host.activated.borrow(), vec![(forge::ds(0), true)]);
    assert!(host.raised.borrow().contains(&forge::ds(0)));
    let (x, y) = host.view_pos.borrow()[&forge::ds(0)];
    assert!((0.0..700.0).contains(&x) && (0.0..500.0).contains(&y));
}

#[test]
fn activating_second_surface_deactivates_first() {
    let mut host = MockHost {
        seats: vec![forge::seat(0)],
        ..Default::default()
    };
    host.tracked_for
        .borrow_mut()
        .insert(forge::ds(0), forge::surf(0));
    host.tracked_for
        .borrow_mut()
        .insert(forge::ds(1), forge::surf(1));
    let mut shell = shell_with_seats(&[forge::seat(0)]);
    for i in 0..2 {
        shell.surface_added(forge::ds(i));
        commit(&mut shell, &mut host, forge::ds(i), false);
    }
    let log = host.activated.borrow().clone();
    assert_eq!(
        log,
        vec![
            (forge::ds(0), true),
            (forge::ds(0), false),
            (forge::ds(1), true)
        ]
    );
    assert_eq!(*host.untracked.borrow(), vec![forge::surf(0)]);
}

#[test]
fn activation_redirects_to_last_mapped_child() {
    let mut host = MockHost {
        seats: vec![forge::seat(0)],
        ..Default::default()
    };
    host.tracked_for
        .borrow_mut()
        .insert(forge::ds(0), forge::surf(0));
    host.tracked_for
        .borrow_mut()
        .insert(forge::ds(1), forge::surf(1));
    let mut shell = shell_with_seats(&[forge::seat(0)]);
    shell.surface_added(forge::ds(0));
    commit(&mut shell, &mut host, forge::ds(0), false);
    shell.surface_added(forge::ds(1));
    shell.parent_set(forge::ds(1), Some(forge::ds(0)));
    commit(&mut shell, &mut host, forge::ds(1), false);
    host.input_activations.borrow_mut().clear();

    shell.activate_via(&mut host, forge::seat(0), forge::ds(0), ActivateVia::BusyClick);
    assert_eq!(
        *host.input_activations.borrow(),
        vec![(forge::ds(1), forge::seat(0))]
    );
    assert_eq!(
        host.activated.borrow().last().copied(),
        Some((forge::ds(0), true))
    );
}

#[test]
fn focus_replacement_hunt_on_surface_death() {
    let mut host = MockHost {
        seats: vec![forge::seat(0)],
        ..Default::default()
    };
    host.tracked_for
        .borrow_mut()
        .insert(forge::ds(0), forge::surf(0));
    host.tracked_for
        .borrow_mut()
        .insert(forge::ds(1), forge::surf(1));
    let mut shell = shell_with_seats(&[forge::seat(0)]);
    for i in 0..2 {
        shell.surface_added(forge::ds(i));
        commit(&mut shell, &mut host, forge::ds(i), false);
    }
    shell.surface_removed(&mut host, forge::ds(1));
    host.input_activations.borrow_mut().clear();
    shell.tracked_surface_gone(&mut host, forge::surf(1), None);
    assert_eq!(
        *host.input_activations.borrow(),
        vec![(forge::ds(0), forge::seat(0))]
    );
    assert!(host.destroyed.borrow().contains(&forge::ds(1)));
}

#[test]
fn shutdown_destroys_every_surface_and_clears_state() {
    let mut host = MockHost {
        seats: vec![forge::seat(0)],
        ..Default::default()
    };
    let mut shell = shell_with_seats(&[forge::seat(0)]);
    for i in 0..3 {
        shell.surface_added(forge::ds(i));
        commit(&mut shell, &mut host, forge::ds(i), false);
    }
    shell.surface_added(forge::ds(3));
    let calls = shell.shutdown(&mut host);
    assert_eq!(
        *host.destroyed.borrow(),
        vec![forge::ds(2), forge::ds(1), forge::ds(0), forge::ds(3)]
    );
    let order: Vec<HostCall> = host
        .destroyed
        .borrow()
        .iter()
        .map(|d| HostCall::DestroySurfaceState(*d))
        .collect();
    assert_eq!(calls, order);
    assert!(shell.surface_ids().is_empty());
    commit(&mut shell, &mut host, forge::ds(0), true);
    assert_eq!(host.destroyed.borrow().len(), 4);
}

#[test]
fn activation_redirects_through_grandchild_chain() {
    let mut host = MockHost {
        seats: vec![forge::seat(0)],
        ..Default::default()
    };
    for i in 0..3 {
        host.tracked_for
            .borrow_mut()
            .insert(forge::ds(i), forge::surf(i));
    }
    let mut shell = shell_with_seats(&[forge::seat(0)]);
    for i in 0..3 {
        shell.surface_added(forge::ds(i));
        if i > 0 {
            shell.parent_set(forge::ds(i), Some(forge::ds(i - 1)));
        }
        commit(&mut shell, &mut host, forge::ds(i), false);
    }
    host.input_activations.borrow_mut().clear();

    shell.activate_via(&mut host, forge::seat(0), forge::ds(0), ActivateVia::BusyClick);
    assert_eq!(
        *host.input_activations.borrow(),
        vec![(forge::ds(2), forge::seat(0))]
    );
    assert_eq!(
        host.activated.borrow().last().copied(),
        Some((forge::ds(0), true))
    );
}

#[test]
fn parent_cycle_activation_terminates() {
    let mut host = MockHost {
        seats: vec![forge::seat(0)],
        ..Default::default()
    };
    let mut shell = shell_with_seats(&[forge::seat(0)]);

    shell.surface_added(forge::ds(0));
    commit(&mut shell, &mut host, forge::ds(0), false);
    shell.parent_set(forge::ds(0), Some(forge::ds(0)));
    host.input_activations.borrow_mut().clear();
    shell.activate_via(&mut host, forge::seat(0), forge::ds(0), ActivateVia::BusyClick);
    assert_eq!(
        *host.input_activations.borrow(),
        vec![(forge::ds(0), forge::seat(0))]
    );

    for i in 1..3 {
        shell.surface_added(forge::ds(i));
        commit(&mut shell, &mut host, forge::ds(i), false);
    }
    shell.parent_set(forge::ds(1), Some(forge::ds(2)));
    shell.parent_set(forge::ds(2), Some(forge::ds(1)));
    host.input_activations.borrow_mut().clear();
    shell.activate_via(&mut host, forge::seat(0), forge::ds(1), ActivateVia::BusyClick);
    let log = host.input_activations.borrow().clone();
    assert_eq!(log.len(), 1);
    let (landed, seat) = log[0];
    assert!(landed == forge::ds(1) || landed == forge::ds(2));
    assert_eq!(seat, forge::seat(0));
}

#[test]
fn multi_seat_shared_focus_keeps_other_seats_tracking() {
    let mut host = MockHost {
        seats: vec![forge::seat(0), forge::seat(1)],
        ..Default::default()
    };
    host.tracked_for
        .borrow_mut()
        .insert(forge::ds(0), forge::surf(0));
    host.tracked_for
        .borrow_mut()
        .insert(forge::ds(1), forge::surf(1));
    let mut shell = shell_with_seats(&[forge::seat(0), forge::seat(1)]);
    shell.surface_added(forge::ds(0));
    commit(&mut shell, &mut host, forge::ds(0), false);
    assert_eq!(host.track_count(forge::surf(0)), 2);

    shell.surface_added(forge::ds(1));
    shell.activate_via(&mut host, forge::seat(0), forge::ds(1), ActivateVia::BusyClick);
    let drops = |h: &MockHost, s: SurfaceId| h.untracked.borrow().iter().filter(|u| **u == s).count();
    assert_eq!(drops(&host, forge::surf(0)), 1);
    assert_eq!(host.track_count(forge::surf(0)), 1);

    shell.surface_removed(&mut host, forge::ds(0));
    host.input_activations.borrow_mut().clear();
    shell.tracked_surface_gone(&mut host, forge::surf(0), None);
    assert_eq!(
        *host.input_activations.borrow(),
        vec![(forge::ds(1), forge::seat(1))]
    );
    assert_eq!(drops(&host, forge::surf(0)), 1);
    assert_eq!(host.track_count(forge::surf(1)), 2);
}

#[test]
fn resize_edge_commit_offsets_match_c_signs() {
    let mut host = MockHost {
        seats: vec![forge::seat(0)],
        ..Default::default()
    };
    let mut shell = shell_with_seats(&[forge::seat(0)]);
    shell.surface_added(forge::ds(0));
    commit(&mut shell, &mut host, forge::ds(0), false);
    host.view_pos
        .borrow_mut()
        .insert(forge::ds(0), (500.0, 400.0));
    commit(&mut shell, &mut host, forge::ds(0), true);
    assert_eq!(
        host.view_pos.borrow().get(&forge::ds(0)).copied(),
        Some((500.0, 400.0))
    );

    committed(
        &mut shell,
        &mut host,
        forge::ds(0),
        0.0,
        0.0,
        ResizeEdges::from_bits(EDGE_LEFT | EDGE_TOP),
        80,
        90,
        true,
    );
    assert_eq!(
        host.view_pos.borrow().get(&forge::ds(0)).copied(),
        Some((520.0, 410.0))
    );

    committed(
        &mut shell,
        &mut host,
        forge::ds(0),
        -5.0,
        -7.0,
        ResizeEdges::from_bits(EDGE_RIGHT | EDGE_BOTTOM),
        60,
        70,
        true,
    );
    assert_eq!(
        host.view_pos.borrow().get(&forge::ds(0)).copied(),
        Some((520.0, 410.0))
    );
}

#[test]
fn commit_plans_for_each_case() {
    let mut shell = Shell::new(ShellConfig::default());
    let id = forge::ds(4);
    let none = ResizeEdges::empty();
    assert_eq!(shell.commit_plan(id, 10, 10, false, true, none), CommitPlan::Ignore);
    shell.surface_added(id);
    assert_eq!(shell.commit_plan(id, 0, 10, false, true, none), CommitPlan::Ignore);
    assert_eq!(shell.commit_plan(id, 10, 10, false, true, none), CommitPlan::FirstMap);
    shell.record_size(id, 10, 10);
    assert_eq!(shell.commit_plan(id, 10, 10, true, true, none), CommitPlan::Unchanged);
    assert_eq!(
        shell.commit_plan(id, 10, 10, true, false, none),
        CommitPlan::Move {
            x: AxisOffset::Buffer,
            y: AxisOffset::Buffer
        }
    );
    assert_eq!(
        shell.commit_plan(id, 4, 7, true, true, ResizeEdges::from_bits(EDGE_LEFT)),
        CommitPlan::Move {
            x: AxisOffset::Edge(6),
            y: AxisOffset::Zero
        }
    );
}

#[test]
fn placement_without_an_output_stays_in_the_fallback_square() {
    let mut shell = Shell::new(ShellConfig::default());
    for _ in 0..20 {
        let (x, y) = shell.initial_position(None, 50, 50);
        assert!((10..410).contains(&x) && (10..410).contains(&y));
    }
    let area = Rect {
        x: 100,
        y: 200,
        width: 50,
        height: 60,
    };
    assert_eq!(shell.initial_position(Some(area), 80, 90), (100, 200));
    let r = shell.next_rand(7);
    assert!((0..7).contains(&r));
    assert_eq!(shell.next_rand(0), 0);
}

#[test]
fn seat_gone_releases_its_focus() {
    let mut host = MockHost {
        seats: vec![forge::seat(0)],
        ..Default::default()
    };
    host.tracked_for
        .borrow_mut()
        .insert(forge::ds(0), forge::surf(0));
    let mut shell = shell_with_seats(&[forge::seat(0)]);
    shell.surface_added(forge::ds(0));
    commit(&mut shell, &mut host, forge::ds(0), false);
    assert_eq!(host.track_count(forge::surf(0)), 1);
    shell.seat_gone(&mut host, forge::seat(0));
    assert_eq!(host.track_count(forge::surf(0)), 0);
    assert_eq!(shell.forget_seat(forge::seat(0)), None);
}

#[test]
fn output_events_recreate_the_background() {
    let mut host = MockHost {
        outputs: vec![(forge::output(0), Rect::default())],
        ..Default::default()
    };
    let shell = Shell::new(ShellConfig {
        background_color: 0xff336699,
    });
    assert_eq!(
        shell.output_created(&mut host, forge::output(0)),
        vec![HostCall::RecreateBackground(forge::output(0), 0xff336699)]
    );
    assert_eq!(
        shell.output_resized(&mut host, forge::output(0)),
        vec![HostCall::RecreateBackground(forge::output(0), 0xff336699)]
    );
    assert_eq!(
        *host.backgrounds.borrow(),
        vec![(forge::output(0), 0xff336699), (forge::output(0), 0xff336699)]
    );
    assert_eq!(shell.config().background_color, 0xff336699);
}

#[test]
fn unknown_surfaces_are_never_activated() {
    let mut host = MockHost {
        seats: vec![forge::seat(0)],
        ..Default::default()
    };
    let mut shell = shell_with_seats(&[forge::seat(0)]);
    shell.activate_via(&mut host, forge::seat(0), forge::ds(9), ActivateVia::BusyClick);
    assert!(host.input_activations.borrow().is_empty());
    assert!(!shell.contains_surface(forge::ds(9)));
}

#[test]
fn busy_cursors_go_where_the_client_is_pointed_at() {
    let focus = vec![
        (forge::seat(0), Some(forge::ds(1))),
        (forge::seat(1), None),
        (forge::seat(2), Some(forge::ds(5))),
        (forge::seat(3), Some(forge::ds(2))),
    ];
    let client = vec![forge::ds(1), forge::ds(2)];
    assert_eq!(
        busy_targets(&focus, &client),
        vec![(forge::ds(1), forge::seat(0)), (forge::ds(2), forge::seat(3))]
    );
    assert!(refit_needed(1));
    assert!(!refit_needed(2));
}

#[test]
fn session_activation_reissues_every_seat_focus() {
    let mut host = MockHost {
        seats: vec![forge::seat(0), forge::seat(1)],
        ..Default::default()
    };
    let mut shell = shell_with_seats(&[forge::seat(0), forge::seat(1)]);
    shell.surface_added(forge::ds(0));
    commit(&mut shell, &mut host, forge::ds(0), false);
    assert_eq!(
        shell.reactivations(),
        vec![(forge::seat(0), forge::ds(0)), (forge::seat(1), forge::ds(0))]
    );
    host.input_activations.borrow_mut().clear();
    shell.session_activated(&mut host);
    assert_eq!(host.input_activations.borrow().len(), 2);
    shell.forget_seat(forge::seat(0));
    shell.seat_created(forge::seat(0));
    assert_eq!(shell.reactivations(), vec![(forge::seat(1), forge::ds(0))]);
}

#[test]
fn events_reach_their_handlers() {
    let mut host = MockHost {
        outputs: vec![(forge::output(0), Rect::default())],
        seats: vec![forge::seat(0)],
        ..Default::default()
    };
    host.tracked_for
        .borrow_mut()
        .insert(forge::ds(0), forge::surf(0));
    let mut shell = Shell::new(ShellConfig::default());
    assert!(shell.on_event(&mut host, ShellEvent::SeatCreated { seat: forge::seat(0) }).is_empty());
    assert!(shell.on_event(&mut host, ShellEvent::SurfaceAdded { surface: forge::ds(0) }).is_empty());
    assert!(shell.contains_surface(forge::ds(0)));
    commit(&mut shell, &mut host, forge::ds(0), false);
    assert_eq!(host.track_count(forge::surf(0)), 1);

    // One output, at the origin and empty: the view lies on no output
    // and is moved a quarter into it.
    let bg = HostCall::RecreateBackground(forge::output(0), ShellConfig::default().background_color);
    assert_eq!(
        shell.on_event(&mut host, ShellEvent::OutputCreated { output: forge::output(0) }),
        vec![bg, HostCall::SetPosition(forge::ds(0), 0, 0)]
    );
    assert_eq!(
        shell.on_event(
            &mut host,
            ShellEvent::OutputGone { output: forge::output(0), name: "headless".into() }
        ),
        vec![HostCall::SetPosition(forge::ds(0), 0, 0)]
    );
    assert_eq!(
        shell.on_event(&mut host, ShellEvent::OutputResized { output: forge::output(0) }),
        vec![bg]
    );
    assert_eq!(host.backgrounds.borrow().len(), 2);

    host.input_activations.borrow_mut().clear();
    assert_eq!(
        shell.on_event(&mut host, ShellEvent::SessionActivated),
        vec![HostCall::ActivateInput(
            ActivateTarget::SurfaceView(forge::ds(0)),
            forge::seat(0),
            ActivateFlags::empty()
        )]
    );
    assert_eq!(*host.input_activations.borrow(), vec![(forge::ds(0), forge::seat(0))]);

    assert_eq!(
        shell.on_event(&mut host, ShellEvent::SeatGone { seat: forge::seat(0) }),
        vec![HostCall::Untrack(forge::surf(0))]
    );
    assert!(shell.reactivations().is_empty());

    assert_eq!(
        shell.on_event(&mut host, ShellEvent::Shutdown),
        vec![HostCall::DestroySurfaceState(forge::ds(0))]
    );
    assert_eq!(*host.destroyed.borrow(), vec![forge::ds(0)]);
    assert!(shell.surface_ids().is_empty());
    let later = committed(
        &mut shell,
        &mut host,
        forge::ds(0),
        0.0,
        0.0,
        ResizeEdges::empty(),
        100,
        100,
        true,
    );
    assert!(later.is_empty());
}

#[test]
fn commits_issue_exact_calls() {
    let mut host = MockHost {
        outputs: vec![(forge::output(0), Rect { x: 0, y: 0, width: 800, height: 600 })],
        seats: vec![forge::seat(0), forge::seat(1)],
        ..Default::default()
    };
    host.tracked_for
        .borrow_mut()
        .insert(forge::ds(0), forge::surf(0));
    let mut shell = shell_with_seats(&[forge::seat(0), forge::seat(1)]);
    shell.surface_added(forge::ds(0));
    // An empty buffer and an unknown surface are ignored with no call.
    assert!(committed(&mut shell, &mut host, forge::ds(0), 0.0, 0.0, ResizeEdges::empty(), 0, 10, false).is_empty());
    assert!(committed(&mut shell, &mut host, forge::ds(7), 0.0, 0.0, ResizeEdges::empty(), 10, 10, false).is_empty());
    // First content: placement, map, raise, then per seat an input
    // activation and the focus bookkeeping.
    let calls = committed(&mut shell, &mut host, forge::ds(0), 0.0, 0.0, ResizeEdges::empty(), 100, 100, false);
    assert!(matches!(calls[0], HostCall::SetPosition(id, _, _) if id == forge::ds(0)));
    let cfg = ActivateFlags::from_bits(1);
    let view = ActivateTarget::SurfaceView(forge::ds(0));
    assert_eq!(
        calls[1..].to_vec(),
        vec![
            HostCall::MapSurface(forge::ds(0)),
            HostCall::Raise(forge::ds(0)),
            HostCall::ActivateInput(view, forge::seat(0), cfg),
            HostCall::SetActivated(forge::ds(0), true),
            HostCall::Raise(forge::ds(0)),
            HostCall::ActivateInput(view, forge::seat(1), cfg),
            HostCall::Raise(forge::ds(0)),
        ]
    );
    // A later commit with a buffer offset moves the view by it.
    let calls = committed(&mut shell, &mut host, forge::ds(0), 2.5, -1.0, ResizeEdges::empty(), 100, 100, true);
    assert_eq!(
        calls,
        vec![
            HostCall::UpdateTransforms(forge::ds(0)),
            HostCall::OffsetView(
                forge::ds(0),
                ViewOffset::Buffer(2.5f64.to_bits()),
                ViewOffset::Buffer((-1.0f64).to_bits())
            ),
            HostCall::UpdateTransforms(forge::ds(0)),
        ]
    );
    // Nothing changed: no call.
    assert!(committed(&mut shell, &mut host, forge::ds(0), -0.0, 0.0, ResizeEdges::empty(), 100, 100, true).is_empty());
}

#[test]
fn xwayland_positions_place_the_first_mapping() {
    let mut host = MockHost {
        seats: vec![forge::seat(0)],
        ..Default::default()
    };
    let mut shell = shell_with_seats(&[forge::seat(0)]);
    shell.surface_added(forge::ds(0));
    assert!(shell
        .on_event(
            &mut host,
            ShellEvent::XwaylandPosition { surface: forge::ds(0), x: 30.0f64.to_bits(), y: 40.0f64.to_bits() }
        )
        .is_empty());
    let calls = committed(&mut shell, &mut host, forge::ds(0), 0.0, 0.0, ResizeEdges::empty(), 10, 10, false);
    assert_eq!(
        calls[0],
        HostCall::PlaceView(forge::ds(0), 30.0f64.to_bits(), 40.0f64.to_bits(), 0, 0)
    );
    assert_eq!(host.view_pos.borrow().get(&forge::ds(0)).copied(), Some((30.0, 40.0)));
}

#[test]
fn output_moves_carry_their_views() {
    let mut host = MockHost {
        seats: vec![forge::seat(0)],
        ..Default::default()
    };
    let mut shell = shell_with_seats(&[forge::seat(0)]);
    shell.surface_added(forge::ds(0));
    // The stand-in reports no view on any output: nothing moves.
    assert!(shell
        .on_event(
            &mut host,
            ShellEvent::OutputMoved { output: forge::output(0), dx: 5.0f64.to_bits(), dy: 0 }
        )
        .is_empty());
}

#[test]
fn lost_views_land_a_quarter_into_the_first_output() {
    let r = Rect { x: 100, y: -40, width: 1024, height: 642 };
    assert_eq!(fallback_position(r), (100 + 256, -40 + 160));
    let odd = Rect { x: 0, y: 0, width: -7, height: 3 };
    assert_eq!(fallback_position(odd), (-1, 0));
}

#[test]
fn refit_follows_the_answers() {
    let ids = vec![forge::ds(0), forge::ds(1), forge::ds(2), forge::ds(3)];
    let areas = vec![
        Rect { x: 0, y: 0, width: 800, height: 600 },
        Rect { x: 800, y: 0, width: 1024, height: 768 },
    ];
    let inside = vec![
        vec![Some(false), Some(true)],
        vec![Some(false), Some(false)],
        vec![None],
        vec![Some(true), Some(false)],
    ];
    assert_eq!(
        refit_calls(&ids, &areas, &inside),
        vec![
            HostCall::MarkViewDirty(forge::ds(0)),
            HostCall::SetPosition(forge::ds(1), 200, 150),
            HostCall::MarkViewDirty(forge::ds(3)),
        ]
    );
    assert!(refit_calls(&ids, &Vec::new(), &inside).is_empty());
    // A missing row means no answer: nothing happens to that view.
    assert_eq!(
        refit_calls(&ids, &areas, &inside[..1].to_vec()),
        vec![HostCall::MarkViewDirty(forge::ds(0))]
    );
}

#[test]
fn shifts_follow_the_views_output() {
    let ids = vec![forge::ds(0), forge::ds(1), forge::ds(2)];
    let vos = vec![Some(forge::output(1)), None, Some(forge::output(2))];
    let dx = 5.0f64.to_bits();
    assert_eq!(
        shift_calls(&ids, &vos, forge::output(1), dx, 0),
        vec![HostCall::ShiftView(forge::ds(0), dx, 0)]
    );
    assert_eq!(
        shift_calls(&ids, &vos, forge::output(2), dx, 0),
        vec![HostCall::ShiftView(forge::ds(2), dx, 0)]
    );
    assert!(shift_calls(&ids, &vos, forge::output(3), dx, 0).is_empty());
}

#[test]
fn activation_on_given_seats() {
    let mut host = MockHost {
        seats: vec![forge::seat(0), forge::seat(1)],
        ..Default::default()
    };
    host.tracked_for
        .borrow_mut()
        .insert(forge::ds(0), forge::surf(0));
    let mut shell = shell_with_seats(&[forge::seat(0), forge::seat(1)]);
    shell.surface_added(forge::ds(0));
    let cfg = ActivateFlags::from_bits(1);
    let view = ActivateTarget::SurfaceView(forge::ds(0));
    let calls = shell.activate_on_seats(&mut host, forge::ds(0), &vec![forge::seat(1), forge::seat(0)]);
    assert_eq!(
        calls,
        vec![
            HostCall::ActivateInput(view, forge::seat(1), cfg),
            HostCall::SetActivated(forge::ds(0), true),
            HostCall::Raise(forge::ds(0)),
            HostCall::ActivateInput(view, forge::seat(0), cfg),
            HostCall::Raise(forge::ds(0)),
        ]
    );
    assert_eq!(host.track_count(forge::surf(0)), 2);
    assert!(shell.activate_on_seats(&mut host, forge::ds(0), &Vec::new()).is_empty());
}

#[test]
fn host_receives_exactly_the_returned_calls() {
    let mut host = MockHost {
        outputs: vec![(forge::output(0), Rect { x: 0, y: 0, width: 800, height: 600 })],
        seats: vec![forge::seat(0), forge::seat(1)],
        ..Default::default()
    };
    let mut shell = shell_with_seats(&[forge::seat(0), forge::seat(1)]);
    let mut all: Vec<HostCall> = Vec::new();
    all.extend(shell.on_event(&mut host, ShellEvent::SurfaceAdded { surface: forge::ds(0) }));
    all.extend(committed(&mut shell, &mut host, forge::ds(0), 0.0, 0.0, ResizeEdges::empty(), 100, 100, false));
    all.extend(committed(&mut shell, &mut host, forge::ds(0), 2.0, 0.0, ResizeEdges::empty(), 100, 100, true));
    all.extend(shell.on_event(&mut host, ShellEvent::OutputResized { output: forge::output(0) }));
    all.extend(shell.on_event(&mut host, ShellEvent::SessionActivated));
    all.extend(shell.on_event(&mut host, ShellEvent::Shutdown));
    assert!(all.contains(&HostCall::MapSurface(forge::ds(0))));
    assert!(all.contains(&HostCall::DestroySurfaceState(forge::ds(0))));
    assert_eq!(host.received, all);
}
