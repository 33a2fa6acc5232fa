use westonite::compositor::BackendKind;
use westonite::heads::{
    color_modes_check, color_profile_failed_line, configure_failed_line, create_failed_line,
    mirror_setup, mirror_target, modeline_line, no_mode_line, vnc_resizeable, HeadSetup, ModeInfo,
};
use westonite::layoutput::{drm_mode_failed_line, drm_transform};
use westonite::output_policy::{
    ColorimetryMode, EotfMode, OutputPolicy, OutputRule, OutputTransform,
};

fn policy_with_mirror() -> OutputPolicy {
    let mut p = OutputPolicy::defaults(1024, 640);
    let mut r = OutputRule::named("vnc");
    r.mirror_of = Some("headless".into());
    p.rules.push(OutputRule::named("X1"));
    p.rules.push(r);
    p
}

#[test]
fn mirror_target_follows_the_first_rule() {
    let p = policy_with_mirror();
    assert_eq!(mirror_target(&p, false, "headless").as_deref(), Some("vnc"));
    assert_eq!(mirror_target(&p, true, "headless"), None);
    assert_eq!(mirror_target(&p, false, "X1"), None);
}

#[test]
fn mirror_setup_leaves_enabled_or_unknown_heads_alone() {
    let p = policy_with_mirror();
    assert_eq!(mirror_setup(&p, true, Some(BackendKind::Vnc), "vnc"), None);
    assert_eq!(mirror_setup(&p, false, None, "vnc"), None);
    match mirror_setup(&p, false, Some(BackendKind::Vnc), "vnc") {
        Some(HeadSetup::Vnc(s)) => {
            assert_eq!((s.width, s.height, s.scale, s.resizeable), (640, 480, 1, true));
        }
        other => panic!("unexpected {other:?}"),
    }
}

#[test]
fn color_modes_are_checked_against_what_the_output_supports() {
    assert_eq!(
        color_modes_check("HDMI-A-1", EotfMode::Sdr, 1, ColorimetryMode::Default, 1),
        Ok(())
    );
    assert_eq!(
        color_modes_check("HDMI-A-1", EotfMode::St2084, 1 | 2, ColorimetryMode::Default, 1),
        Err("Error: output 'HDMI-A-1' does not support EOTF mode st2084.".to_string())
    );
    assert_eq!(
        color_modes_check("HDMI-A-1", EotfMode::Hlg, 8, ColorimetryMode::Bt2020Rgb, 1 | 2 | 4),
        Err("Error: output 'HDMI-A-1' does not support colorimetry mode bt2020rgb.".to_string())
    );
    assert_eq!(
        color_modes_check("DP-1", EotfMode::HdrGamma, 2, ColorimetryMode::Ictcp, 64),
        Ok(())
    );
}

#[test]
fn enable_lines_match_c() {
    assert_eq!(
        color_profile_failed_line("/x.icc", "DP-1"),
        "Error: failed to set color profile '/x.icc' for output DP-1"
    );
    assert_eq!(create_failed_line("h"), "Could not create an output for head \"h\".");
    assert_eq!(configure_failed_line("h"), "Cannot configure output \"h\".");
    assert_eq!(
        modeline_line("vnc", ModeInfo { width: 512, height: 320, refresh: 60000 }, 2),
        "Setting modeline to output 'vnc' to 512x320, scale: 2"
    );
    assert_eq!(
        no_mode_line("headless", "vnc"),
        "mirror-of source 'headless' has no usable mode for output 'vnc'"
    );
}

#[test]
fn a_mirror_is_never_resizeable() {
    assert_eq!(vnc_resizeable(true, false, "vnc"), (true, None));
    assert_eq!(vnc_resizeable(false, true, "vnc"), (false, None));
    assert_eq!(
        vnc_resizeable(true, true, "vnc"),
        (false, Some("Use of mirror_of disables resizing for output vnc".to_string()))
    );
}

#[test]
fn drm_output_transform_follows_a_lone_head() {
    assert_eq!(
        drm_transform(Some(OutputTransform::Flipped), 1, Some(OutputTransform::Rotate90)),
        OutputTransform::Flipped
    );
    assert_eq!(
        drm_transform(None, 1, Some(OutputTransform::Rotate90)),
        OutputTransform::Rotate90
    );
    assert_eq!(
        drm_transform(None, 2, Some(OutputTransform::Rotate90)),
        OutputTransform::Normal
    );
    assert_eq!(drm_transform(None, 1, None), OutputTransform::Normal);
    assert_eq!(
        drm_mode_failed_line("DP-1"),
        "Cannot configure output \"DP-1\" using weston_drm_output_api."
    );
}
