use westonite::compositor::repaint_window_line;
use westonite::compositor::{
    child_owner, headless_load, pipewire_output_count, startup_tuning, vnc_load, wayland_load,
    x11_head_count, ChildOwner, CompositorError, HeadlessOptions, KeyboardConfig,
    PipewireOptions, RepaintWindow, VncOptions, WaylandOptions, X11Options,
};
use westonite::config::{Cli, Config};
use westonite::grab::{
    busy_click_activates, busy_grab_action, busy_grab_holds, grab_ends, move_choice,
    resize_allowed, BusyGrabAction, GrabChoice, GrabProbe,
};
use westonite::forge;
use westonite::grab::binding_activation;
use westonite::host::ActivateVia;
use westonite::layoutput::{
    apply_attach, output_name_for, pop_victim, stage_decision, RequireOutputs, StageDecision,
    Staging, MAX_CLONE_HEADS,
};
use westonite::output_policy::{DrmHeadPlan, OutputPolicy, OutputRule};
use westonite::protocol::{format_arg, format_fixed, format_message, ArgValue};
use westonite::resolve::settle;
use westonite::startup::{
    autolaunch_command, exit_status, require_outputs_setting, runtime_dir_check, RuntimeDir,
};
use westonite::xwayland::{display_fd_step, xserver_command, DisplayFdStep};

#[test]
fn heads_group_by_output_name() {
    let mut s = Staging::new();
    s.add_head("main", "HDMI-A-1", 0x10);
    s.add_head("main", "DP-1", 0x20);
    s.add_head("DP-2", "DP-2", 0x30);
    assert_eq!(s.len(), 2);
    assert_eq!(s.find("main"), Some(0));
    assert_eq!(s.find("DP-2"), Some(1));
    assert_eq!(s.find("eDP-1"), None);
    assert_eq!(s.staged(0), vec![Some(0x10), Some(0x20)]);
    assert_eq!(s.names(0), ("main".to_string(), "HDMI-A-1".to_string()));
    assert_eq!(s.pending(), vec![0, 1]);
    s.set_staged(0, Vec::new());
    assert_eq!(s.pending(), vec![1]);
}

#[test]
fn a_group_stops_staging_below_the_clone_cap() {
    let mut s = Staging::new();
    for h in 0..20usize {
        s.add_head("big", "big", h + 1);
    }
    assert_eq!(s.staged(0).len(), MAX_CLONE_HEADS - 1);
}

#[test]
fn undo_walk_gives_heads_back_from_the_end() {
    let mut undo = vec![Some(1), Some(2), None, Some(3), None, None];
    assert_eq!(pop_victim(&mut undo), Some(3));
    assert_eq!(undo, vec![Some(1), Some(2), None]);
    assert_eq!(pop_victim(&mut undo), Some(2));
    assert_eq!(pop_victim(&mut undo), Some(1));
    assert_eq!(pop_victim(&mut undo), None);
    assert!(undo.is_empty());
}

#[test]
fn failed_attaches_leave_holes() {
    let mut staged = vec![Some(1), Some(2), Some(3), None];
    let mut failed = vec![9];
    apply_attach(&mut staged, &vec![false, false, true, false], &mut failed);
    assert_eq!(staged, vec![Some(1), None, Some(3), None]);
    assert_eq!(failed, vec![9, 2]);
    assert_eq!(output_name_for("main", "DP-1", true), "main");
    assert_eq!(output_name_for("main", "DP-1", false), "main:DP-1");
}

#[test]
fn drm_plans_decide_where_a_head_is_staged() {
    let mut p = OutputPolicy::defaults(1024, 640);
    p.rules.push(OutputRule {
        clone_of: Some("gone".into()),
        ..OutputRule::named("DP-4")
    });
    p.rules.push(OutputRule {
        off: true,
        ..OutputRule::named("DP-5")
    });
    assert_eq!(
        stage_decision(&p.decide_drm("eDP-1", false, false), "eDP-1"),
        StageDecision::Stage {
            group: "eDP-1".into(),
            section_head: "eDP-1".into(),
            log: None
        }
    );
    match stage_decision(&p.decide_drm("DP-4", false, false), "DP-4") {
        StageDecision::Stage { group, log, .. } => {
            assert_eq!(group, "DP-4");
            assert!(log.unwrap().contains("clone-of=gone"));
        }
        other => panic!("{other:?}"),
    }
    assert_eq!(stage_decision(&DrmHeadPlan::Off, "DP-5"), StageDecision::Skip);
    assert_eq!(
        stage_decision(&p.decide_drm("DP-5", false, false), "DP-5"),
        StageDecision::Skip
    );
}

#[test]
fn bring_up_defaults() {
    let kb = KeyboardConfig::default();
    let t = startup_tuning(&kb, None, 1).unwrap();
    assert_eq!((t.repeat_rate, t.repeat_delay, t.vt_switching), (40, 400, true));
    assert_eq!(t.repaint, RepaintWindow::Keep);
    assert!(!t.multi_backend);
    let kb = KeyboardConfig {
        repeat_rate: Some(25),
        vt_switching: Some(false),
        ..KeyboardConfig::default()
    };
    let t = startup_tuning(&kb, Some(1001), 2).unwrap();
    assert_eq!(t.repeat_rate, 25);
    assert!(!t.vt_switching);
    assert_eq!(t.repaint, RepaintWindow::Invalid(1001));
    assert!(t.multi_backend);
    assert_eq!(
        startup_tuning(&kb, Some(-10), 1).unwrap().repaint,
        RepaintWindow::Apply(-10)
    );
    assert_eq!(startup_tuning(&kb, None, 0), Err(CompositorError::BackendLoad));
}

#[test]
fn backend_loader_defaults() {
    let h = headless_load(&HeadlessOptions::default());
    assert_eq!((h.refresh, h.create_head), (-1, true));
    let h = headless_load(&HeadlessOptions {
        no_outputs: true,
        refresh_mhz: Some(30000),
    });
    assert_eq!((h.refresh, h.create_head), (30000, false));
    let v = vnc_load(&VncOptions::default());
    assert_eq!((v.port, v.refresh_rate), (5900, 60));
    assert_eq!(x11_head_count(&X11Options::default()), 1);
    assert_eq!(
        x11_head_count(&X11Options {
            output_count: 3,
            ..X11Options::default()
        }),
        3
    );
    let w = wayland_load(&WaylandOptions::default());
    assert_eq!((w.cursor_size, w.head_count), (32, 1));
    let w = wayland_load(&WaylandOptions {
        sprawl: true,
        cursor_size: 48,
        ..WaylandOptions::default()
    });
    assert_eq!((w.cursor_size, w.head_count), (48, 0));
    assert_eq!(pipewire_output_count(&PipewireOptions::default()), 1);
}

#[test]
fn reaped_children_are_told_apart() {
    assert_eq!(
        child_owner(7, Some((7, true)), Some(7), None),
        ChildOwner::Autolaunch { terminate: true }
    );
    assert_eq!(child_owner(8, Some((7, true)), Some(8), Some(8)), ChildOwner::Xwayland);
    assert_eq!(child_owner(9, None, None, Some(9)), ChildOwner::Screenshooter);
    assert_eq!(child_owner(10, Some((7, false)), None, None), ChildOwner::Unknown);
}

#[test]
fn xserver_is_started_rootless_with_its_descriptors() {
    let c = xserver_command("/usr/bin/Xwayland", ":1", "-listenfd", 10, 11, 12, 13);
    assert_eq!(c.program, "/usr/bin/Xwayland");
    assert_eq!(
        c.args,
        vec![
            ":1", "-rootless", "-listenfd", "10", "-listenfd", "11", "-displayfd", "12", "-wm",
            "13", "-terminate"
        ]
    );
    assert_eq!(display_fd_step(true, 3, false, b'\n'), DisplayFdStep::Close {
        loaded: true,
        read_failed: false
    });
    assert_eq!(display_fd_step(true, 1, false, b'1'), DisplayFdStep::KeepWatching);
    assert_eq!(display_fd_step(true, -1, true, 0), DisplayFdStep::KeepWatching);
    assert_eq!(display_fd_step(true, -1, false, 0), DisplayFdStep::Close {
        loaded: false,
        read_failed: true
    });
    assert_eq!(display_fd_step(true, 0, false, 0), DisplayFdStep::Close {
        loaded: false,
        read_failed: false
    });
    assert_eq!(display_fd_step(false, 3, false, b'\n'), DisplayFdStep::Close {
        loaded: false,
        read_failed: false
    });
}

#[test]
fn runtime_dir_verdicts() {
    assert!(matches!(
        runtime_dir_check(None, false, 0, 0, 0),
        RuntimeDir::Fatal(m) if m.starts_with("environment variable XDG_RUNTIME_DIR is not set.\nRefer")
    ));
    assert_eq!(
        runtime_dir_check(Some("/run/x"), false, 0, 0, 0),
        RuntimeDir::Fatal(
            "environment variable XDG_RUNTIME_DIR is set to \"/run/x\", which is not a directory."
                .into()
        )
    );
    assert_eq!(runtime_dir_check(Some("/run/x"), true, 0o40700, 1000, 1000), RuntimeDir::Fine);
    assert_eq!(
        runtime_dir_check(Some("/run/x"), true, 0o755, 0, 1000),
        RuntimeDir::Warn(format!(
            "warning: XDG_RUNTIME_DIR \"/run/x\" is not configured correctly: unix access \
             mode must be 0700 (current mode is {:04o}), and it must be owned by \
             UID {} (current owner is UID {})",
            0o755, 1000, 0
        ))
    );
}

#[test]
fn require_outputs_names() {
    assert_eq!(require_outputs_setting(&None), Ok(None));
    assert_eq!(
        require_outputs_setting(&Some("all".into())),
        Ok(Some(RequireOutputs::AllFound))
    );
    assert_eq!(
        require_outputs_setting(&Some("most".into())),
        Err("[core] require-outputs: unknown value \"most\" (any|all|none)".into())
    );
}

#[test]
fn autolaunch_commands() {
    let mut config = Config::default();
    config.autolaunch.path = Some("/bin/cfg-app".into());
    let s = settle(&Cli::default(), config, None, None).unwrap();
    assert_eq!(
        autolaunch_command(&s, true, false, Some("wayland-1")),
        Err("Specified autolaunch path (/bin/cfg-app) is not executable".into())
    );
    let c = autolaunch_command(&s, true, true, Some("wayland-1")).unwrap().unwrap();
    assert_eq!(c.program, "/bin/cfg-app");
    assert_eq!(c.env.len(), 1);
    assert_eq!(c.env[0].key, "WAYLAND_DISPLAY");
    assert_eq!(c.env[0].value, "wayland-1");
    let none = settle(&Cli::default(), Config::default(), None, None).unwrap();
    assert_eq!(autolaunch_command(&none, true, true, None), Ok(None));
    assert_eq!(exit_status(0), 0);
    assert_eq!(exit_status(3), 3);
    assert_eq!(exit_status(256), 1);
    assert_eq!(exit_status(-1), 1);
}

#[test]
fn grab_requests() {
    let on = GrabProbe {
        has_focus: true,
        focus_is_surface: true,
        buttons: 1,
        grab_serial: 5,
    };
    let elsewhere = GrabProbe {
        focus_is_surface: false,
        ..on
    };
    assert_eq!(move_choice(Some(on), None, 5, false), GrabChoice::Pointer);
    assert_eq!(move_choice(Some(on), Some(on), 5, true), GrabChoice::NoGrab);
    assert_eq!(move_choice(Some(elsewhere), Some(on), 5, false), GrabChoice::NoGrab);
    assert_eq!(move_choice(Some(on), Some(on), 6, false), GrabChoice::NoGrab);
    let touch = GrabProbe {
        buttons: 0,
        grab_serial: 6,
        ..on
    };
    assert_eq!(move_choice(Some(on), Some(touch), 6, true), GrabChoice::Touch);
    assert!(resize_allowed(Some(on), 5, false, 1 | 8));
    assert!(!resize_allowed(Some(on), 5, false, 1 | 2));
    assert!(!resize_allowed(Some(on), 5, true, 1));
    assert!(!resize_allowed(None, 5, false, 1));
    assert!(grab_ends(0, true));
    assert!(!grab_ends(1, true));
    assert!(busy_click_activates(0x110, 1, true));
    assert!(!busy_click_activates(0x111, 1, true));
    assert!(busy_grab_holds(Some(forge::ds(1)), forge::ds(1), true));
    assert!(!busy_grab_holds(None, forge::ds(1), true));
    assert_eq!(busy_grab_action(false, true), BusyGrabAction::Keep);
    assert_eq!(busy_grab_action(true, true), BusyGrabAction::End);
    assert_eq!(busy_grab_action(true, false), BusyGrabAction::Retire);
}

#[test]
fn protocol_lines_match_printf() {
    for f in [0, 1, 2, 3, 255, 256, -1, -2, 1000, 12345, -12345, i32::MAX, i32::MIN] {
        assert_eq!(format_fixed(f), format!("{:.6}", f as f64 / 256.0), "{f}");
    }
    assert_eq!(format_arg(&ArgValue::Str(Some("hi".into()))), "\"hi\"");
    assert_eq!(format_arg(&ArgValue::Str(None)), "\"\"");
    assert_eq!(format_arg(&ArgValue::Object(None)), "nil");
    assert_eq!(
        format_arg(&ArgValue::Object(Some((Some("wl_surface".into()), 3)))),
        "wl_surface@3"
    );
    assert_eq!(format_arg(&ArgValue::NewId(None, 0)), "new id [unknown]@nil");
    assert_eq!(format_arg(&ArgValue::Fd(4)), "fd 4");
    let line = format_message(
        0xdeadbeef,
        42,
        true,
        "wl_compositor",
        1,
        "create_surface",
        &vec![ArgValue::NewId(Some("wl_surface".into()), 3), ArgValue::Uint(7)],
    );
    assert_eq!(
        line,
        "client 0xdeadbeef (PID 42) rq wl_compositor@1.create_surface(new id wl_surface@3, 7)"
    );
    assert_eq!(
        format_message(0, 0, false, "wl_callback", 9, "done", &vec![]),
        "client 0x0 (PID 0) ev wl_callback@9.done()"
    );
}

#[test]
fn bindings_activate_the_focused_main_surface() {
    assert_eq!(
        binding_activation(true, Some(forge::ds(1)), Some(forge::seat(0)), false),
        Some((forge::seat(0), forge::ds(1), ActivateVia::PointerBinding))
    );
    assert_eq!(
        binding_activation(true, Some(forge::ds(1)), Some(forge::seat(0)), true),
        Some((forge::seat(0), forge::ds(1), ActivateVia::TouchBinding))
    );
    assert_eq!(binding_activation(false, Some(forge::ds(1)), Some(forge::seat(0)), false), None);
    assert_eq!(binding_activation(true, None, Some(forge::seat(0)), false), None);
}

#[test]
fn repaint_window_outside_its_range_is_logged() {
    assert_eq!(repaint_window_line(2000), "Invalid repaint_window value in config: 2000");
    assert_eq!(repaint_window_line(-11), "Invalid repaint_window value in config: -11");
}
