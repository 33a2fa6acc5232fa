use westonite::config::{Cli, Config, Output};
use westonite::resolve::{
    choose_config, join_path, parse_color, search_dirs, settle, split_list, Backend, ConfigError,
    Renderer, Settings,
};

fn no_config() -> Cli {
    Cli {
        no_config: true,
        ..Cli::default()
    }
}

fn ok(cli: &Cli, config: Config) -> Settings {
    settle(cli, config, None, None).unwrap()
}

fn err(cli: &Cli, config: Config) -> String {
    match settle(cli, config, None, None) {
        Ok(_) => panic!("expected an error"),
        Err(e) => e.message(),
    }
}

#[test]
fn defaults_match_c() {
    let s = ok(&no_config(), Config::default());
    assert_eq!(s.backends, vec![Backend::Drm]);
    assert_eq!(s.renderer, Renderer::Auto);
    assert_eq!(s.background_color, 0xff002244);
    assert!(s.require_input);
    assert!(s.autolaunch.is_none());
    assert_eq!(s.xwayland_path, "/usr/bin/Xwayland");
    assert_eq!(s.config_path, None);
}

#[test]
fn unknown_backend_message_matches_c() {
    let c = Cli {
        backend: Some("bogus".into()),
        ..no_config()
    };
    assert_eq!(err(&c, Config::default()), "unknown backend \"bogus\"");
}

#[test]
fn hex_color_string_resolves() {
    let mut config = Config::default();
    config.shell.background_color = Some("0xff336699".into());
    let s = ok(&no_config(), config);
    assert_eq!(s.background_color, 0xff336699);
}

#[test]
fn color_accepts_hex_and_decimal_spellings() {
    for body in ["0xff336699", "4281558681", " 0XFF336699 "] {
        let mut config = Config::default();
        config.shell.background_color = Some(body.into());
        assert_eq!(ok(&no_config(), config).background_color, 0xff336699, "{body}");
    }
    let mut config = Config::default();
    config.shell.background_color = Some("blue".into());
    assert_eq!(
        err(&no_config(), config),
        "[shell] background-color: invalid color 'blue'"
    );
}

#[test]
fn conflicting_renderer_flags_are_rejected() {
    for c in [
        Cli {
            use_gl: true,
            use_pixman: true,
            ..no_config()
        },
        Cli {
            renderer: Some("gl".into()),
            use_pixman: true,
            ..no_config()
        },
    ] {
        assert_eq!(
            err(&c, Config::default()),
            "Conflicting renderer specifications",
            "{c:?}"
        );
    }
}

#[test]
fn non_positive_geometry_is_rejected() {
    for (flag, c) in [
        (
            "--width",
            Cli {
                width: Some(0),
                ..no_config()
            },
        ),
        (
            "--height",
            Cli {
                height: Some(-1),
                ..no_config()
            },
        ),
        (
            "--scale",
            Cli {
                scale: Some(0),
                ..no_config()
            },
        ),
    ] {
        let e = err(&c, Config::default());
        assert!(e.starts_with(flag), "{e}");
    }
    let c = Cli {
        height: Some(-1),
        ..no_config()
    };
    assert_eq!(err(&c, Config::default()), "--height must be positive (got -1)");
}

#[test]
fn non_positive_output_section_scale_is_rejected() {
    let mut config = Config::default();
    config.output.push(Output {
        name: Some("headless".into()),
        scale: Some(0),
        ..Output::default()
    });
    assert_eq!(
        err(&no_config(), config),
        "[output] 'headless': scale must be positive (got 0)"
    );
    let mut config = Config::default();
    config.output.push(Output {
        name: Some("headless".into()),
        scale: Some(2),
        ..Output::default()
    });
    let s = ok(&no_config(), config);
    assert_eq!(s.config.output[0].scale, Some(2));
}

#[test]
fn autolaunch_trailing_args_beat_config() {
    let mut config = Config::default();
    config.autolaunch.path = Some("/bin/cfg-app".into());
    config.autolaunch.watch = true;
    let c = Cli {
        autolaunch: vec!["/bin/cli-app".into(), "--flag".into()],
        ..Cli::default()
    };
    let s = ok(&c, config.clone());
    assert_eq!(
        s.autolaunch,
        Some(vec!["/bin/cli-app".to_string(), "--flag".to_string()])
    );
    assert!(s.autolaunch_watch);
    let s2 = ok(&Cli::default(), config);
    assert_eq!(s2.autolaunch, Some(vec!["/bin/cfg-app".to_string()]));
}

#[test]
fn positional_command_is_always_watched() {
    let c = Cli {
        autolaunch: vec!["/bin/app".into()],
        ..no_config()
    };
    assert!(ok(&c, Config::default()).autolaunch_watch);
    let mut config = Config::default();
    config.autolaunch.path = Some("/bin/cfg-app".into());
    assert!(!ok(&Cli::default(), config).autolaunch_watch);
}

#[test]
fn backend_flag_and_keys_precedence() {
    let mut config = Config::default();
    config.core.backend = Some("headless".into());
    config.core.backends = vec!["vnc".into(), "headless".into()];
    assert_eq!(
        ok(&Cli::default(), config).backends,
        vec![Backend::Vnc, Backend::Headless]
    );
    let mut config = Config::default();
    config.core.backend = Some("headless,vnc".into());
    assert_eq!(
        ok(&Cli::default(), config.clone()).backends,
        vec![Backend::Headless, Backend::Vnc]
    );
    let c = Cli {
        backend: Some("vnc".into()),
        ..Cli::default()
    };
    assert_eq!(ok(&c, config).backends, vec![Backend::Vnc]);
}

#[test]
fn list_keys_take_arrays() {
    let mut config = Config::default();
    config.core.backends = vec!["headless".into(), "vnc".into()];
    assert_eq!(
        ok(&Cli::default(), config).backends,
        vec![Backend::Headless, Backend::Vnc]
    );
    let mut config = Config::default();
    config.core.modules = vec!["a.so".into(), "b.so".into()];
    assert_eq!(
        ok(&Cli::default(), config).modules,
        vec!["a.so".to_string(), "b.so".to_string()]
    );
    assert_eq!(split_list(" a.so, ,b.so "), vec!["a.so", "b.so"]);
}

#[test]
fn backend_sections_do_not_leak_across_backends() {
    let mut config = Config::default();
    config.vnc.port = Some(5900);
    config.rdp.port = Some(3389);
    let with = |b: &str, port: Option<u16>| Cli {
        backend: Some(b.into()),
        port,
        ..Cli::default()
    };
    assert_eq!(ok(&with("rdp", None), config.clone()).rdp_vnc_port, Some(3389));
    assert_eq!(ok(&with("vnc", None), config.clone()).rdp_vnc_port, Some(5900));
    assert_eq!(ok(&with("headless", None), config.clone()).rdp_vnc_port, None);
    assert_eq!(ok(&with("vnc", Some(1234)), config).rdp_vnc_port, Some(1234));
}

#[test]
fn unknown_renderer_is_refused() {
    let c = Cli {
        renderer: Some("vulkan".into()),
        ..no_config()
    };
    assert_eq!(err(&c, Config::default()), "unknown renderer \"vulkan\"");
    let c = Cli {
        use_pixman: true,
        ..no_config()
    };
    assert_eq!(ok(&c, Config::default()).renderer, Renderer::Pixman);
}

#[test]
fn backend_names_round_trip() {
    for b in [
        Backend::Drm,
        Backend::Headless,
        Backend::Wayland,
        Backend::X11,
        Backend::Rdp,
        Backend::Vnc,
        Backend::Pipewire,
    ] {
        assert_eq!(Backend::parse(b.name()), Some(b));
    }
    assert_eq!(Backend::parse("drm-backend.so"), Some(Backend::Drm));
    assert_eq!(Backend::parse("fbdev"), None);
}

#[test]
fn parse_color_reports_the_key() {
    assert_eq!(parse_color("0x10", "k"), Ok(16));
    assert_eq!(parse_color("42", "k"), Ok(42));
    match parse_color("0x", "k") {
        Err(ConfigError::Invalid(m)) => assert_eq!(m, "k: invalid color '0x'"),
        other => panic!("{other:?}"),
    }
}

#[test]
fn discovery_directories_in_c_order() {
    let dirs = search_dirs(
        &Some("/x".into()),
        &Some("/home/u".into()),
        &Some("/etc/xdg:/opt/xdg".into()),
    );
    assert_eq!(dirs, vec!["/x", "/home/u/.config", "/etc/xdg", "/opt/xdg"]);
    let dirs = search_dirs(&None, &None, &None);
    assert_eq!(dirs, vec!["/etc/xdg"]);
    assert_eq!(join_path("/etc/xdg", "westonite.toml"), "/etc/xdg/westonite.toml");
    assert_eq!(join_path("/etc/xdg/", "a"), "/etc/xdg/a");
}

#[test]
fn first_directory_with_a_file_wins() {
    let probes = vec![(false, true), (true, false), (true, true)];
    assert_eq!(choose_config(&probes), (Some(1), Some(0)));
    let probes = vec![(false, false)];
    assert_eq!(choose_config(&probes), (None, None));
}
