use westonite::config::{Cli, ColorCharacteristics, Config, Libinput, Output, RemoteOutput};
use westonite::frontend::{
    assemble_color_setup, build_input_config, characteristics_groups, color_modes,
    finish_policy, mode_warning, output_rules, parse_mode, reject_unsupported, section_name_required,
    section_rule,
    split_scopes, unhandled_option, InputConfigError,
};
use westonite::libinput::{AccelProfile, ScrollMethod};
use westonite::output_policy::{ColorSetup, ColorimetryMode, EotfMode, OutputTransform};
use westonite::resolve::{settle, Settings};

fn settings(cli: &Cli, config: Config) -> Settings {
    settle(cli, config, None, None).unwrap()
}

fn headless() -> Cli {
    Cli {
        backend: Some("headless".into()),
        ..Cli::default()
    }
}

#[test]
fn simple_mode_grammar() {
    assert_eq!(parse_mode("1024x640"), Some((1024, 640)));
    assert_eq!(parse_mode("1920x1080@60"), Some((1920, 1080)));
    assert_eq!(parse_mode("800x500@"), Some((800, 500)));
    for bad in [
        "preferred",
        "current",
        "off",
        "1024",
        "1024x",
        "x640",
        "0x640",
        "1024x-1",
        "1024 x 640",
        "1024x640junk",
    ] {
        assert_eq!(parse_mode(bad), None, "{bad}");
    }
}

#[test]
fn scopes_are_a_trimmed_comma_list() {
    assert_eq!(split_scopes(Some("log, proto,,")), vec!["log", "proto"]);
    assert!(split_scopes(None).is_empty());
    assert_eq!(
        unhandled_option("--seat"),
        "unhandled option: --seat (not consumed by any loaded backend)"
    );
}

#[test]
fn honoured_options_pass_the_gate() {
    let c = headless();
    let s = settings(&c, Config::default());
    assert_eq!(reject_unsupported(&c, &s), None);
}

#[test]
fn backend_flags_without_their_backend_are_refused() {
    let c = Cli {
        seat: Some("seat1".into()),
        ..headless()
    };
    let s = settings(&c, Config::default());
    assert_eq!(
        reject_unsupported(&c, &s),
        Some("unhandled option: --seat (not consumed by any loaded backend)".to_string())
    );
    let c = Cli {
        rdp4_key: Some("k".into()),
        ..headless()
    };
    let s = settings(&c, Config::default());
    assert_eq!(
        reject_unsupported(&c, &s),
        Some("unhandled option: --rdp4-key (not consumed by any loaded backend)".to_string())
    );
}

#[test]
fn dropped_features_are_refused_loudly() {
    let c = Cli {
        backend: Some("rdp".into()),
        ..Cli::default()
    };
    let s = settings(&c, Config::default());
    assert!(reject_unsupported(&c, &s).unwrap().starts_with("the rdp backend is not supported"));

    let mut config = Config::default();
    config.remote_output.push(RemoteOutput::default());
    let c = headless();
    let s = settings(&c, config);
    assert!(reject_unsupported(&c, &s).unwrap().starts_with("[[remote-output]]"));

    let mut config = Config::default();
    config.libinput.enable_tap_deprecated = Some(true);
    let s = settings(&c, config);
    assert!(reject_unsupported(&c, &s).unwrap().contains("enable_tap"));

    let c = Cli {
        shell: Some("kiosk".into()),
        ..headless()
    };
    let s = settings(&c, Config::default());
    assert_eq!(
        reject_unsupported(&c, &s),
        Some(
            "unknown shell \"kiosk\": the Rust frontend ships only the built-in desktop shell"
                .to_string()
        )
    );
    let c = Cli {
        shell: Some("desktop-shell.so".into()),
        ..headless()
    };
    let s = settings(&c, Config::default());
    assert_eq!(reject_unsupported(&c, &s), None);
}

#[test]
fn drm_only_section_keys_are_refused_elsewhere() {
    let mut config = Config::default();
    config.output.push(Output {
        name: Some("X1".into()),
        max_bpc: Some(10),
        ..Output::default()
    });
    let c = headless();
    let s = settings(&c, config);
    assert_eq!(
        reject_unsupported(&c, &s),
        Some("[[output]] 'X1': max-bpc applies to the drm backend only".to_string())
    );
}

#[test]
fn input_config_is_typed_and_checked() {
    let li = Libinput {
        enable_tap: Some(true),
        accel_profile: Some("flat".into()),
        scroll_method: Some("button".into()),
        scroll_button: Some("BTN_RIGHT".into()),
        ..Libinput::default()
    };
    let c = build_input_config(&li, true, 0x111).unwrap();
    assert_eq!(c.enable_tap, Some(true));
    assert_eq!(c.accel_profile, Some(AccelProfile::Flat));
    assert_eq!(c.scroll_method, Some(ScrollMethod::Button));
    assert_eq!(c.scroll_button.unwrap().code, 0x111);

    let bad = Libinput {
        accel_profile: Some("fast".into()),
        ..Libinput::default()
    };
    assert_eq!(
        build_input_config(&bad, true, -1),
        Err(InputConfigError::Invalid(
            "[libinput] 'fast' is not a valid accel-profile. Try one of: flat adaptive".into()
        ))
    );
    let speed = Libinput {
        accel_speed: Some(2.0f64.to_bits()),
        ..Libinput::default()
    };
    assert_eq!(
        build_input_config(&speed, false, -1),
        Err(InputConfigError::AccelSpeedOutOfRange)
    );
    let unknown = Libinput {
        scroll_method: Some("button".into()),
        scroll_button: Some("BTN_NOPE".into()),
        ..Libinput::default()
    };
    assert_eq!(
        build_input_config(&unknown, true, -1),
        Err(InputConfigError::Invalid(
            "[libinput] 'BTN_NOPE' is not an evdev button name (e.g. BTN_RIGHT)".into()
        ))
    );
    let stray = Libinput {
        scroll_button: Some("BTN_RIGHT".into()),
        ..Libinput::default()
    };
    assert_eq!(
        build_input_config(&stray, true, 0x111),
        Err(InputConfigError::Invalid(
            "[libinput] scroll-button only applies with scroll-method = \"button\"".into()
        ))
    );
    let method = Libinput {
        scroll_method: Some("twofinger".into()),
        ..Libinput::default()
    };
    assert!(matches!(
        build_input_config(&method, true, -1),
        Err(InputConfigError::Invalid(_))
    ));
}

#[test]
fn colour_modes_need_the_colour_manager() {
    let out = Output {
        eotf_mode: Some("st2084".into()),
        colorimetry_mode: Some("bt2020rgb".into()),
        ..Output::default()
    };
    assert_eq!(
        color_modes(true, &out, "DP-1"),
        Ok((Some(EotfMode::St2084), Some(ColorimetryMode::Bt2020Rgb)))
    );
    assert_eq!(
        color_modes(false, &out, "DP-1"),
        Err(
            "[[output]] 'DP-1': a non-SDR eotf-mode requires [core] color-management = true"
                .to_string()
        )
    );
    let sdr = Output {
        eotf_mode: Some("sdr".into()),
        ..Output::default()
    };
    assert_eq!(color_modes(false, &sdr, "DP-1"), Ok((Some(EotfMode::Sdr), None)));
    let bad = Output {
        eotf_mode: Some("pq".into()),
        ..Output::default()
    };
    assert_eq!(
        color_modes(true, &bad, "DP-1"),
        Err(
            "[[output]] 'DP-1': 'pq' is not a valid EOTF mode. Try one of: sdr hdr-gamma st2084 hlg"
                .to_string()
        )
    );
}

#[test]
fn characteristics_groups_are_all_or_nothing() {
    let bits = 0.5f64.to_bits();
    let full = ColorCharacteristics {
        name: Some("hdr".into()),
        white_x: Some(bits),
        white_y: Some(bits),
        max_luminance: Some(bits),
        ..ColorCharacteristics::default()
    };
    let list = vec![full];
    let g = characteristics_groups(&list, "hdr", "DP-1").unwrap();
    assert_eq!((g.index, g.primaries, g.white), (0, false, true));
    assert_eq!(
        characteristics_groups(&list, "sdr", "DP-1"),
        Err("output DP-1: no [[color-characteristics]] section with 'name = \"sdr\"' found".into())
    );
    let half = ColorCharacteristics {
        name: Some("half".into()),
        red_x: Some(bits),
        green_y: Some(bits),
        ..ColorCharacteristics::default()
    };
    let list = vec![half];
    assert_eq!(
        characteristics_groups(&list, "half", "DP-1"),
        Err("[[color-characteristics]] name=half: group primaries key red-y, green-x, blue-x, blue-y is missing. You must set either none or all keys of a group.".into())
    );
    let colon = ColorCharacteristics {
        name: Some("a:b".into()),
        ..ColorCharacteristics::default()
    };
    assert_eq!(
        characteristics_groups(&vec![colon], "a:b", "DP-1"),
        Err("[[color-characteristics]] name=a:b: reserved name. Do not use ':' character in the name.".into())
    );
}

#[test]
fn sections_become_rules() {
    let out = Output {
        name: Some("X1".into()),
        mode: Some("800x600@60".into()),
        scale: Some(2),
        transform: Some("rotate-90".into()),
        force_on: Some(true),
        ..Output::default()
    };
    assert_eq!(section_name_required(&out), Ok("X1".to_string()));
    let color = assemble_color_setup(&out, None, None, None);
    assert!(color.allow_hdcp);
    let rule = section_rule(&out, "X1", color).unwrap();
    let warn = mode_warning(&out, "X1");
    assert_eq!(rule.name, "X1");
    assert_eq!(rule.size, Some((800, 600)));
    assert_eq!(rule.scale, Some(2));
    assert_eq!(rule.transform, Some(OutputTransform::Rotate90));
    assert!(rule.force_on && !rule.off);
    assert_eq!(warn, None);

    let off = Output {
        mode: Some("off".into()),
        ..Output::default()
    };
    let rule = section_rule(&off, "X2", ColorSetup::default()).unwrap();
    assert!(rule.off);
    assert_eq!(mode_warning(&off, "X2"), None);

    let modeline = Output {
        mode: Some("173.00 1920 2048 2248 2576 1080 1083 1088 1120".into()),
        ..Output::default()
    };
    let rule = section_rule(&modeline, "X3", ColorSetup::default()).unwrap();
    assert_eq!(rule.size, None);
    assert_eq!(
        mode_warning(&modeline, "X3"),
        Some("Invalid mode for output X3. Using defaults.".to_string())
    );
    let preferred = Output {
        mode: Some("preferred".into()),
        ..Output::default()
    };
    assert_eq!(mode_warning(&preferred, "X3"), None);

    let bad = Output {
        transform: Some("rotate-45".into()),
        ..Output::default()
    };
    assert_eq!(
        section_rule(&bad, "X4", ColorSetup::default()).map(|_| ()),
        Err("Invalid transform \"rotate-45\" for output X4".to_string())
    );
    assert_eq!(
        section_name_required(&Output::default()),
        Err("[[output]] section without a name= key".to_string())
    );
}

#[test]
fn the_command_line_is_the_policy_top_layer() {
    let c = Cli {
        width: Some(800),
        transform: Some("flipped".into()),
        ..headless()
    };
    let s = settings(&c, Config::default());
    let p = finish_policy(&s, Vec::new()).unwrap();
    assert_eq!(p.default_size, (1024, 640));
    assert_eq!(p.cli.width, Some(800));
    assert_eq!(p.cli.transform, Some(OutputTransform::Flipped));
    let d = p.decide("headless").unwrap();
    assert_eq!((d.width, d.height), (800, 640));

    let c = Cli {
        transform: Some("sideways".into()),
        ..headless()
    };
    let s = settings(&c, Config::default());
    assert_eq!(
        finish_policy(&s, Vec::new()).map(|_| ()),
        Err("Invalid transform \"sideways\"".to_string())
    );
}

#[test]
fn one_rule_per_output_section_in_order() {
    let a = Output {
        name: Some("DP-1".into()),
        mode: Some("1920x1080".into()),
        ..Output::default()
    };
    let b = Output {
        name: Some("HDMI-A-1".into()),
        mode: Some("bogus".into()),
        off: Some(true),
        ..Output::default()
    };
    let outs = vec![a, b];
    let (warns, rules) = output_rules(&outs, vec![Ok(ColorSetup::default()), Ok(ColorSetup::default())]);
    let rules = rules.unwrap();
    assert_eq!(rules.len(), 2);
    assert_eq!(rules[0].name, "DP-1");
    assert_eq!(rules[0].size, Some((1920, 1080)));
    assert_eq!(rules[1].name, "HDMI-A-1");
    assert!(rules[1].off);
    assert_eq!(warns, vec!["Invalid mode for output HDMI-A-1. Using defaults.".to_string()]);

    // The first refusal wins, in section order.
    let nameless = Output::default();
    let bad_transform = Output {
        name: Some("X".into()),
        transform: Some("sideways".into()),
        mode: Some("nope".into()),
        ..Output::default()
    };
    let outs = vec![bad_transform.clone(), nameless.clone()];
    let (warns, r) = output_rules(&outs, vec![Ok(ColorSetup::default()), Err(String::new())]);
    assert_eq!(r.unwrap_err(), "Invalid transform \"sideways\" for output X");
    assert_eq!(warns, vec!["Invalid mode for output X. Using defaults.".to_string()]);
    let outs = vec![nameless, bad_transform];
    let (warns, r) = output_rules(&outs, vec![Err(String::new()), Ok(ColorSetup::default())]);
    assert_eq!(r.unwrap_err(), "[[output]] section without a name= key");
    assert!(warns.is_empty());
    let outs = vec![Output { name: Some("Y".into()), ..Output::default() }];
    let (_, r) = output_rules(&outs, vec![Err("colour refused".to_string())]);
    assert_eq!(r.unwrap_err(), "colour refused");
}
