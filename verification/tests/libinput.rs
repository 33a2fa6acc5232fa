use westonite::libinput::{
    bstr, device_line, device_plan, setting_line, AccelProfile, DeviceCaps, DeviceSetting,
    InputConfig, ScrollButton, ScrollMethod,
};

#[test]
fn accel_profile_grammar_matches_c() {
    assert_eq!(AccelProfile::parse("flat"), Some(AccelProfile::Flat));
    assert_eq!(
        AccelProfile::parse("adaptive"),
        Some(AccelProfile::Adaptive)
    );
    assert_eq!(AccelProfile::parse("none"), None);
    assert_eq!(AccelProfile::parse("Flat"), None);
    assert_eq!(AccelProfile::parse(""), None);
    for n in AccelProfile::NAMES {
        assert!(AccelProfile::parse(n).is_some(), "{n}");
    }
}

#[test]
fn scroll_method_grammar_matches_c() {
    assert_eq!(
        ScrollMethod::parse("two-finger"),
        Some(ScrollMethod::TwoFinger)
    );
    assert_eq!(ScrollMethod::parse("edge"), Some(ScrollMethod::Edge));
    assert_eq!(ScrollMethod::parse("button"), Some(ScrollMethod::Button));
    assert_eq!(ScrollMethod::parse("none"), Some(ScrollMethod::NoScroll));
    assert_eq!(ScrollMethod::parse("twofinger"), None);
    for n in ScrollMethod::NAMES {
        assert!(ScrollMethod::parse(n).is_some(), "{n}");
    }
}

#[test]
fn input_names_round_trip() {
    for p in [AccelProfile::Flat, AccelProfile::Adaptive] {
        assert_eq!(AccelProfile::parse(p.name()), Some(p));
    }
    for m in [
        ScrollMethod::TwoFinger,
        ScrollMethod::Edge,
        ScrollMethod::Button,
        ScrollMethod::NoScroll,
    ] {
        assert_eq!(ScrollMethod::parse(m.name()), Some(m));
    }
}

#[test]
fn scroll_button_keeps_the_configured_name() {
    let b = ScrollButton::from_lookup("BTN_RIGHT", 0x111).unwrap();
    assert_eq!(b.code, 0x111);
    assert_eq!(b.name, "BTN_RIGHT");
    assert_eq!(ScrollButton::from_lookup("nonsense", -1), None);
    assert_eq!(ScrollButton::from_lookup("BTN_\0RIGHT", 0x111), None);
}

#[test]
fn default_config_asks_for_nothing() {
    let c = InputConfig::default();
    assert!(c.enable_tap.is_none());
    assert!(c.scroll_method.is_none());
    assert!(c.accel_speed.is_none());
    let caps = DeviceCaps {
        tap_finger_count: 3,
        dwt: true,
        middle_emulation: true,
        left_handed: true,
        rotation: true,
        accel: true,
        accel_profiles: 3,
        natural_scroll: true,
        scroll_methods: 7,
    };
    assert!(device_plan(&c, caps).is_empty());
}

#[test]
fn device_plan_skips_what_the_device_cannot_do() {
    let mut c = InputConfig::default();
    c.enable_tap = Some(true);
    c.left_handed = Some(true);
    c.accel_profile = Some(AccelProfile::Flat);
    c.accel_speed = Some(0.5f64.to_bits());
    c.scroll_method = Some(ScrollMethod::Button);
    c.scroll_button = ScrollButton::from_lookup("BTN_MIDDLE", 0x112);
    let mut caps = DeviceCaps::default();
    caps.left_handed = true;
    caps.accel = true;
    caps.accel_profiles = AccelProfile::Adaptive.bit();
    caps.scroll_methods = ScrollMethod::Button.bit();
    assert_eq!(
        device_plan(&c, caps),
        vec![
            DeviceSetting::LeftHanded(true),
            DeviceSetting::AccelSpeed(0.5f64.to_bits()),
            DeviceSetting::ScrollMethod(ScrollMethod::Button),
            DeviceSetting::ScrollButton(0x112),
        ]
    );
    caps.tap_finger_count = 1;
    caps.accel_profiles = AccelProfile::Flat.bit();
    let plan = device_plan(&c, caps);
    assert_eq!(plan[0], DeviceSetting::Tap(true));
    assert!(plan.contains(&DeviceSetting::AccelProfile(AccelProfile::Flat)));
}

#[test]
fn scroll_method_none_needs_no_device_support() {
    let mut c = InputConfig::default();
    c.scroll_method = Some(ScrollMethod::NoScroll);
    c.scroll_button = ScrollButton::from_lookup("BTN_MIDDLE", 0x112);
    let plan = device_plan(&c, DeviceCaps::default());
    assert_eq!(plan, vec![DeviceSetting::ScrollMethod(ScrollMethod::NoScroll)]);
    c.scroll_method = Some(ScrollMethod::Edge);
    assert!(device_plan(&c, DeviceCaps::default()).is_empty());
}

#[test]
fn booleans_spelled_as_c_logs_them() {
    assert_eq!(bstr(true), "true");
    assert_eq!(bstr(false), "false");
}

#[test]
fn device_log_lines_spell_each_setting() {
    assert_eq!(device_line("Touchpad"), "libinput: configuring device \"Touchpad\".");
    assert_eq!(
        setting_line(DeviceSetting::Tap(true), "").as_deref(),
        Some("          enable-tap=true.")
    );
    assert_eq!(
        setting_line(DeviceSetting::TapDragLock(false), "").as_deref(),
        Some("          tap-and-drag-lock=false.")
    );
    assert_eq!(
        setting_line(DeviceSetting::MiddleEmulation(true), "").as_deref(),
        Some("          middle-button-emulation=true")
    );
    assert_eq!(
        setting_line(DeviceSetting::Rotation(270), "").as_deref(),
        Some("          rotation=270")
    );
    assert_eq!(
        setting_line(DeviceSetting::AccelProfile(AccelProfile::Adaptive), "").as_deref(),
        Some("          accel-profile=adaptive")
    );
    assert_eq!(
        setting_line(DeviceSetting::ScrollMethod(ScrollMethod::TwoFinger), "").as_deref(),
        Some("          scroll-method=two-finger")
    );
    assert_eq!(
        setting_line(DeviceSetting::ScrollButton(274), "BTN_MIDDLE").as_deref(),
        Some("          scroll-button=BTN_MIDDLE")
    );
    assert_eq!(setting_line(DeviceSetting::AccelSpeed(0), ""), None);
}
