use westonite::output_policy::{
    Chromaticity, ColorCharacteristics, ColorSetup, ColorimetryMode, DrmHeadPlan, DrmMode,
    EotfMode, OutputPolicy, OutputRule, OutputSetup, OutputTransform, PipewireOutputSetup,
    VncOutputSetup,
};

#[test]
fn precedence_defaults_section_cli() {
    let mut p = OutputPolicy::defaults(1024, 640);
    assert_eq!(
        p.decide("headless").unwrap(),
        OutputSetup {
            width: 1024,
            height: 640,
            scale: 1,
            transform: OutputTransform::Normal
        }
    );
    p.rules.push(OutputRule {
        off: false,
        size: Some((640, 480)),
        scale: Some(2),
        transform: Some(OutputTransform::Rotate90),
        resizeable: None,
        gbm_format: None,
        mirror_of: None,
        ..OutputRule::named("headless")
    });
    assert_eq!(
        p.decide("headless").unwrap(),
        OutputSetup {
            width: 640,
            height: 480,
            scale: 2,
            transform: OutputTransform::Rotate90
        }
    );
    assert_eq!(p.decide("X1").unwrap().width, 1024);
    p.cli.width = Some(800);
    p.cli.scale = Some(1);
    let s = p.decide("headless").unwrap();
    assert_eq!((s.width, s.height, s.scale), (800, 480, 1));
    assert_eq!(s.transform, OutputTransform::Rotate90);
}

#[test]
fn off_rule_disables_only_its_head() {
    let mut p = OutputPolicy::defaults(1024, 640);
    p.rules.push(OutputRule {
        off: true,
        ..OutputRule::named("X1")
    });
    assert!(p.decide("X1").is_none());
    assert!(p.decide("headless").is_some());
}

#[test]
fn vnc_decision_matches_c_configure() {
    let mut p = OutputPolicy::defaults(1024, 640);
    let s = p.decide_vnc("vnc").unwrap();
    assert_eq!(
        s,
        VncOutputSetup {
            width: 640,
            height: 480,
            scale: 1,
            resizeable: true
        }
    );
    p.rules.push(OutputRule {
        size: Some((800, 500)),
        scale: Some(2),
        transform: Some(OutputTransform::Rotate90),
        resizeable: Some(false),
        gbm_format: None,
        ..OutputRule::named("vnc")
    });
    p.cli.scale = Some(3);
    p.cli.width = Some(1000);
    let s = p.decide_vnc("vnc").unwrap();
    assert_eq!(
        s,
        VncOutputSetup {
            width: 1000,
            height: 500,
            scale: 2,
            resizeable: false
        }
    );
    p.rules[0].off = true;
    assert!(p.decide_vnc("vnc").is_none());
}

#[test]
fn mirror_lookups_match_c_scan() {
    let mut p = OutputPolicy::defaults(1024, 640);
    p.rules.push(OutputRule {
        mirror_of: Some("headless".into()),
        ..OutputRule::named("vnc")
    });
    p.rules.push(OutputRule::named("X1"));
    assert!(p.has_mirror_of("vnc"));
    assert!(!p.has_mirror_of("X1"));
    assert!(!p.has_mirror_of("headless"));
    assert_eq!(
        p.mirror_rule_for_source("headless").map(|r| r.name.as_str()),
        Some("vnc")
    );
    assert!(p.mirror_rule_for_source("vnc").is_none());
    assert!(p.decide_vnc("vnc").is_some());
}

#[test]
fn transform_grammar_matches_c() {
    for (s, t) in [
        ("normal", OutputTransform::Normal),
        ("rotate-90", OutputTransform::Rotate90),
        ("rotate-180", OutputTransform::Rotate180),
        ("rotate-270", OutputTransform::Rotate270),
        ("flipped", OutputTransform::Flipped),
        ("flipped-rotate-90", OutputTransform::FlippedRotate90),
        ("flipped-rotate-180", OutputTransform::FlippedRotate180),
        ("flipped-rotate-270", OutputTransform::FlippedRotate270),
    ] {
        assert_eq!(OutputTransform::parse(s), Some(t));
    }
    assert_eq!(OutputTransform::parse("rotate-45"), None);
}

#[test]
fn drm_non_desktop_matrix_matches_c() {
    let mut p = OutputPolicy::defaults(1024, 640);
    p.rules.push(OutputRule {
        scale: Some(2),
        ..OutputRule::named("HDMI-A-1")
    });
    p.rules.push(OutputRule {
        mode_string: Some("preferred".into()),
        ..OutputRule::named("DP-1")
    });
    p.rules.push(OutputRule {
        off: true,
        mode_string: Some("off".into()),
        ..OutputRule::named("DP-2")
    });

    let is_enable = |plan: &DrmHeadPlan| matches!(plan, DrmHeadPlan::Enable(_));

    assert!(is_enable(&p.decide_drm("eDP-1", true, false)));
    assert!(is_enable(&p.decide_drm("eDP-1", false, false)));
    assert_eq!(
        p.decide_drm("HDMI-A-1", true, false),
        DrmHeadPlan::NonDesktop
    );
    assert!(is_enable(&p.decide_drm("HDMI-A-1", false, false)));
    assert!(is_enable(&p.decide_drm("DP-1", true, false)));
    assert_eq!(p.decide_drm("DP-2", true, false), DrmHeadPlan::Off);
    assert_eq!(p.decide_drm("DP-2", false, false), DrmHeadPlan::Off);
}

#[test]
fn drm_enable_plan_carries_the_section_settings() {
    let mut p = OutputPolicy::defaults(1024, 640);
    p.rules.push(OutputRule {
        scale: Some(2),
        transform: Some(OutputTransform::Flipped),
        mode_string: Some("1920x1080".into()),
        seat: Some("seat1".into()),
        max_bpc: Some(10),
        ..OutputRule::named("HDMI-A-1")
    });
    match p.decide_drm("HDMI-A-1", false, false) {
        DrmHeadPlan::Enable(plan) => {
            assert_eq!(plan.output_name, "HDMI-A-1");
            assert_eq!(plan.setup.mode, DrmMode::Modeline("1920x1080".into()));
            assert_eq!(plan.setup.scale, 2);
            assert_eq!(plan.setup.transform, Some(OutputTransform::Flipped));
            assert_eq!(plan.setup.seat, "seat1");
            assert_eq!(plan.setup.max_bpc, 10);
        }
        other => panic!("expected an enable plan, got {other:?}"),
    }
    match p.decide_drm("eDP-1", false, true) {
        DrmHeadPlan::Enable(plan) => {
            assert_eq!(plan.output_name, "eDP-1");
            assert_eq!(plan.setup.mode, DrmMode::Current);
            assert_eq!(plan.setup.scale, 1);
            assert_eq!(plan.setup.seat, "");
        }
        other => panic!("expected an enable plan, got {other:?}"),
    }
}

#[test]
fn clone_of_hands_control_to_the_named_section() {
    let mut p = OutputPolicy::defaults(1024, 640);
    p.rules.push(OutputRule {
        scale: Some(3),
        force_on: true,
        ..OutputRule::named("main")
    });
    p.rules.push(OutputRule {
        clone_of: Some("main".into()),
        ..OutputRule::named("DP-3")
    });
    p.rules.push(OutputRule {
        clone_of: Some("missing".into()),
        ..OutputRule::named("DP-4")
    });
    match p.decide_drm("DP-3", false, false) {
        DrmHeadPlan::Enable(plan) => {
            assert_eq!(plan.output_name, "main");
            assert_eq!(plan.setup.scale, 3);
        }
        other => panic!("expected an enable plan, got {other:?}"),
    }
    assert!(p.drm_force_on("DP-3"));
    assert!(!p.drm_force_on("eDP-1"));
    assert!(matches!(
        p.decide_drm("DP-4", false, false),
        DrmHeadPlan::BadCloneOf(_)
    ));
}

#[test]
fn pipewire_and_sized_decisions() {
    let mut p = OutputPolicy::defaults(1024, 640);
    assert_eq!(
        p.decide_pipewire("pipewire"),
        Some(PipewireOutputSetup {
            width: 640,
            height: 480,
            scale: 1,
            gbm_format: None
        })
    );
    assert_eq!(p.decide_sized("X1", (320, 200)).unwrap().width, 320);
    p.rules.push(OutputRule {
        gbm_format: Some("xrgb8888".into()),
        size: Some((100, 50)),
        ..OutputRule::named("pipewire")
    });
    let s = p.decide_pipewire("pipewire").unwrap();
    assert_eq!((s.width, s.height), (100, 50));
    assert_eq!(s.gbm_format, Some("xrgb8888".to_string()));
}

#[test]
fn colour_mode_grammars() {
    assert_eq!(EotfMode::parse("sdr"), Some(EotfMode::Sdr));
    assert_eq!(EotfMode::parse("hdr-gamma"), Some(EotfMode::HdrGamma));
    assert_eq!(EotfMode::parse("st2084"), Some(EotfMode::St2084));
    assert_eq!(EotfMode::parse("hlg"), Some(EotfMode::Hlg));
    assert_eq!(EotfMode::parse("SDR"), None);
    assert_eq!(ColorimetryMode::parse("default"), Some(ColorimetryMode::Default));
    assert_eq!(ColorimetryMode::parse("bt2020rgb"), Some(ColorimetryMode::Bt2020Rgb));
    assert_eq!(ColorimetryMode::parse("p3d65"), Some(ColorimetryMode::P3d65));
    assert_eq!(ColorimetryMode::parse("ictcp"), Some(ColorimetryMode::Ictcp));
    assert_eq!(ColorimetryMode::parse("bt709"), None);
}

#[test]
fn colour_and_drm_defaults_without_a_section() {
    let mut p = OutputPolicy::defaults(1024, 640);
    let mut r = OutputRule::named("DP-1");
    r.color.eotf_mode = Some(EotfMode::Hlg);
    r.color.allow_hdcp = true;
    p.rules.push(r);
    let c = p.decide_color("DP-1");
    assert_eq!(c.eotf_mode, Some(EotfMode::Hlg));
    assert!(c.allow_hdcp);
    assert_eq!(p.decide_color("HDMI-A-1"), ColorSetup::default());

    let d = p.drm_defaults(false);
    assert_eq!(d.mode, DrmMode::Preferred);
    assert_eq!((d.max_bpc, d.scale, d.transform), (16, 1, None));
    assert_eq!(d.seat, "");
    let d = p.drm_defaults(true);
    assert_eq!((d.mode, d.max_bpc), (DrmMode::Current, 0));
}

#[test]
fn characteristic_groups_form_the_mask() {
    let none = ColorCharacteristics::default();
    assert_eq!(none.group_mask(), 0);
    let some = ColorCharacteristics {
        white: Some(Chromaticity { x: 1, y: 2 }),
        max_fall: Some(3),
        ..ColorCharacteristics::default()
    };
    assert_eq!(some.group_mask(), 0x02 | 0x10);
}
