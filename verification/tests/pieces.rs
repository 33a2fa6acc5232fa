use westonite::compositor::{
    drm_options, fit_i32_exec, headless_options, keyboard_config, vnc_options, x11_options,
    BackendKind, CompositorError, RendererKind,
};
use westonite::config::{Cli, Config};
use westonite::grab::{fixed_to_int, resize_edges_valid, resize_size, ResizeStep};
use westonite::heads::{
    head_action, head_setup_for, mirror_mode, monitor_change_line, windowed_head_names,
    HeadAction, HeadSetup, ModeInfo, WindowedApi,
};
use westonite::layoutput::{outputs_ok, RequireOutputs};
use westonite::logging::{
    child_exit_line, log_plan, sanitize_line, LogError, LogSetup, DEFAULT_FLIGHT_REC_SCOPES,
    DEFAULT_FLIGHT_REC_SIZE,
};
use westonite::numeric::{format_i64, parse_i32, parse_u32_radix};
use westonite::output_policy::{OutputPolicy, OutputRule, OutputTransform};
use westonite::protocol::next_argument;
use westonite::resolve::{settle, Renderer};
use westonite::text::{concat3, split_char, trim};

#[test]
fn integers_parse_as_rust_does() {
    assert_eq!(parse_i32("42"), Some(42));
    assert_eq!(parse_i32("-7"), Some(-7));
    assert_eq!(parse_i32("+7"), Some(7));
    assert_eq!(parse_i32("-"), None);
    assert_eq!(parse_i32(""), None);
    assert_eq!(parse_i32("2147483647"), Some(i32::MAX));
    assert_eq!(parse_i32("2147483648"), None);
    assert_eq!(parse_i32("-2147483648"), Some(i32::MIN));
    assert_eq!(parse_u32_radix("ff336699", 16), Some(0xff336699));
    assert_eq!(parse_u32_radix("FF", 16), Some(255));
    assert_eq!(parse_u32_radix("100000000", 16), None);
    assert_eq!(parse_u32_radix("12a", 10), None);
    assert_eq!(format_i64(0), "0");
    assert_eq!(format_i64(-120), "-120");
    assert_eq!(format_i64(i64::MIN), "-9223372036854775808");
}

#[test]
fn text_helpers() {
    assert_eq!(trim("  a b \t"), "a b");
    assert_eq!(split_char("a::b", ':'), vec!["a", "", "b"]);
    assert_eq!(concat3("x", "y", "z"), "xyz");
}

#[test]
fn layout_output_requirements() {
    assert_eq!(RequireOutputs::parse("any"), Some(RequireOutputs::Any));
    assert_eq!(RequireOutputs::parse("all"), Some(RequireOutputs::AllFound));
    assert_eq!(RequireOutputs::parse("none"), Some(RequireOutputs::NoneRequired));
    assert_eq!(RequireOutputs::parse("some"), None);
    assert!(!outputs_ok(RequireOutputs::Any, 0, 0));
    assert!(outputs_ok(RequireOutputs::Any, 1, 2));
    assert!(!outputs_ok(RequireOutputs::AllFound, 1, 2));
    assert!(outputs_ok(RequireOutputs::NoneRequired, 2, 2));
}

#[test]
fn head_actions_per_backend() {
    assert_eq!(
        head_action(BackendKind::Drm, false, false, false, false, true, false),
        HeadAction::DrmPrepareEnable
    );
    assert_eq!(
        head_action(BackendKind::Drm, false, true, false, false, false, false),
        HeadAction::DrmDisable
    );
    assert_eq!(
        head_action(BackendKind::Headless, true, false, false, true, false, false),
        HeadAction::Nothing
    );
    assert_eq!(
        head_action(BackendKind::Vnc, true, false, false, false, false, true),
        HeadAction::DeferToMirrorSource
    );
    assert_eq!(
        head_action(BackendKind::X11, false, true, false, false, false, false),
        HeadAction::Disable
    );
    assert_eq!(
        head_action(BackendKind::Wayland, true, true, true, false, false, false),
        HeadAction::LogMonitorChange
    );
    assert_eq!(
        monitor_change_line("HDMI-A-1"),
        "Detected a monitor change on head 'HDMI-A-1', not bothering to do anything about it."
    );
}

#[test]
fn head_setups_use_each_backend_default() {
    let p = OutputPolicy::defaults(1024, 640);
    match head_setup_for(&p, BackendKind::X11, "X1") {
        Some(HeadSetup::Windowed(s, WindowedApi::X11)) => assert_eq!((s.width, s.height), (1024, 600)),
        other => panic!("{other:?}"),
    }
    assert!(matches!(
        head_setup_for(&p, BackendKind::Vnc, "vnc"),
        Some(HeadSetup::Vnc(_))
    ));
    assert_eq!(head_setup_for(&p, BackendKind::Drm, "eDP-1"), None);
    let mut p = p;
    p.rules.push(OutputRule {
        off: true,
        ..OutputRule::named("headless")
    });
    assert_eq!(head_setup_for(&p, BackendKind::Headless, "headless"), None);
    assert_eq!(
        WindowedApi::Headless.name(),
        "weston_windowed_output_api_headless_v2"
    );
}

#[test]
fn windowed_heads_take_section_names_first() {
    let names = vec!["X1".to_string(), "vnc".to_string(), "X7".to_string()];
    assert_eq!(
        windowed_head_names(&names, "X", "X", 3),
        vec!["X1".to_string(), "X7".to_string(), "X2".to_string()]
    );
    assert_eq!(windowed_head_names(&names, "X", "X", 1), vec!["X1".to_string()]);
    assert!(windowed_head_names(&names, "X", "X", 0).is_empty());
}

#[test]
fn mirror_mode_divides_towards_zero() {
    let native = ModeInfo {
        width: 1921,
        height: 1081,
        refresh: 60000,
    };
    assert_eq!(
        mirror_mode(native, None, 2),
        Some(ModeInfo {
            width: 960,
            height: 540,
            refresh: 60000
        })
    );
    let none = ModeInfo {
        width: 0,
        height: 0,
        refresh: 0,
    };
    assert_eq!(mirror_mode(none, None, 1), None);
    assert_eq!(mirror_mode(none, Some(native), 0), Some(native));
}

#[test]
fn log_wiring_defaults() {
    let p = log_plan(&LogSetup::default());
    assert_eq!(p.logger_scopes, vec!["log".to_string()]);
    assert!(p.flight_rec);
    assert_eq!(p.flight_rec_scopes, vec!["log", "drm-backend"]);
    let p = log_plan(&LogSetup {
        flight_rec_scopes: Some(Vec::new()),
        logger_scopes: vec!["proto".into()],
        file: None,
    });
    assert!(!p.flight_rec);
    assert_eq!(p.logger_scopes, vec!["proto".to_string()]);
    assert_eq!(DEFAULT_FLIGHT_REC_SIZE, 5 * 1024 * 1024);
    assert_eq!(DEFAULT_FLIGHT_REC_SCOPES, "log,drm-backend");
    assert_eq!(
        LogError::FileOpen("/x".into(), "denied".into()).message(),
        "cannot open log file '/x': denied"
    );
    assert_eq!(sanitize_line("a\0b"), "a\u{fffd}b");
}

#[test]
fn child_exit_lines_follow_the_wait_status() {
    assert_eq!(child_exit_line("/bin/x", 3 << 8), "/bin/x exited with status 3");
    assert_eq!(child_exit_line("/bin/x", 9), "/bin/x died on signal 9");
    assert_eq!(child_exit_line("/bin/x", 0x137f), "/bin/x disappeared");
}

#[test]
fn resize_arithmetic() {
    assert_eq!(fixed_to_int(256 * 3 + 10), 3);
    assert_eq!(fixed_to_int(-(256 * 3 + 10)), -3);
    assert!(resize_edges_valid(1 | 4));
    assert!(!resize_edges_valid(0));
    assert!(!resize_edges_valid(1 | 2));
    assert!(!resize_edges_valid(4 | 8));
    assert!(!resize_edges_valid(16));
    let step = ResizeStep {
        start_width: 100,
        start_height: 100,
        edges: 4 | 1,
        from_x: 0,
        from_y: 0,
        to_x: 10 * 256,
        to_y: -20 * 256,
        min_width: 0,
        min_height: 0,
        max_width: 0,
        max_height: 110,
    };
    assert_eq!(resize_size(step), (90, 110));
    let shrink = ResizeStep {
        to_x: 500 * 256,
        ..step
    };
    assert_eq!(resize_size(shrink).0, 1);
}

#[test]
fn signature_walk_skips_versions_and_nullables() {
    let sig = b"2?si";
    assert_eq!(next_argument(sig, 0), (Some(b's'), 3));
    assert_eq!(next_argument(sig, 3), (Some(b'i'), 4));
    assert_eq!(next_argument(sig, 4), (None, 4));
}

#[test]
fn backend_options_from_settings() {
    let cli = Cli {
        backend: Some("headless".into()),
        refresh_rate: Some(60000),
        no_outputs: true,
        output_count: Some(3),
        ..Cli::default()
    };
    let mut config = Config::default();
    config.keyboard.repeat_rate = Some(40);
    config.keyboard.keymap_layout = Some("de".into());
    let s = settle(&cli, config, None, None).unwrap();
    let h = headless_options(&s);
    assert!(h.no_outputs);
    assert_eq!(h.refresh_mhz, Some(60000));
    assert_eq!(x11_options(&s).output_count, 3);
    assert_eq!(vnc_options(&s).port, None);
    let d = drm_options(&s);
    assert_eq!(d.pageflip_timeout, 0);
    assert!(d.use_pixman_shadow);
    let k = keyboard_config(&s);
    assert_eq!(k.repeat_rate, Some(40));
    assert_eq!(k.layout, Some("de".to_string()));
    assert_eq!(fit_i32_exec(Some(u32::MAX)), None);
    assert_eq!(fit_i32_exec(Some(7)), Some(7));
    assert_eq!(RendererKind::from_renderer(Renderer::Pixman), RendererKind::Pixman);
    assert_eq!(
        CompositorError::SocketAdd.message(),
        "binding the wayland socket failed"
    );
    let _ = OutputTransform::Normal;
}

#[test]
fn log_messages_end_in_a_newline() {
    assert_eq!(westonite::logging::message("a\0b"), "a\u{fffd}b\n");
}
