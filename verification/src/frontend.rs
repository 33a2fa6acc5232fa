//! Startup validation and resolution of the frontend: the fail-loud
//! gate over options that are not honoured, the windowed mode grammar,
//! the log-scope lists, and the typed `[libinput]` and `[[output]]`
//! slices.
//!
//! Every message here is startup-fatal; the caller logs it as
//! `fatal: <message>` and exits.

use vstd::prelude::*;
use crate::config::{Cli, Libinput, Output};
use crate::libinput::{
    accel_profile_named, scroll_method_named, AccelProfile, InputConfig, ScrollButton, ScrollMethod,
};
use crate::numeric::{parse_i32, parse_i32_spec};
use crate::output_policy::{
    colorimetry_named, eotf_named, transform_named, ColorCharacteristics, ColorSetup,
    ColorimetryMode, EotfMode, OutputPolicy, OutputRule, OutputTransform,
};
use crate::resolve::{section_name, Backend, Settings};
use crate::text::{
    find_char, index_of, lemma_index_of, clone_opt, comma_list, concat2, concat3, has_prefix, list_items, owned, split_on, split_trimmed, str_eq,
    substring, views,
};

verus! {

// ---------------------------------------------------------------------
// Small grammars
// ---------------------------------------------------------------------

/// The text before the first `@` (all of it when there is none).
pub open spec fn before_at(s: Seq<char>) -> Seq<char> {
    match index_of(s, '@') {
        Some(i) => s.subrange(0, i),
        None => s,
    }
}

/// `"WxH"` or `"WxH@rate"`: both dimensions `i32` literals and positive;
/// the rate is ignored.  Everything else (`preferred`, `current`, a
/// modeline, embedded spaces, trailing junk) is `None`.
pub open spec fn parse_mode_spec(mode: Seq<char>) -> Option<(i32, i32)> {
    let core = before_at(mode);
    match index_of(core, 'x') {
        None => None,
        Some(i) => match (
            parse_i32_spec(core.subrange(0, i)),
            parse_i32_spec(core.subrange(i + 1, core.len() as int)),
        ) {
            (Some(w), Some(h)) => if w > 0 && h > 0 {
                Some((w, h))
            } else {
                None
            },
            _ => None,
        },
    }
}

pub fn parse_mode(mode: &str) -> (r: Option<(i32, i32)>)
    ensures
        r == parse_mode_spec(mode@),
{
    proof {
        lemma_index_of(mode@, '@');
    }
    let core = match find_char(mode, '@') {
        Some(i) => substring(mode, 0, i),
        None => owned(mode),
    };
    assert(core@ =~= before_at(mode@));
    let cs = core.as_str();
    proof {
        lemma_index_of(cs@, 'x');
    }
    let i = match find_char(cs, 'x') {
        None => return None,
        Some(i) => i,
    };
    let ws = substring(cs, 0, i);
    proof {
        lemma_index_of(cs@, 'x');
    }
    let n = cs.unicode_len();
    assert(i < n);
    let hs = substring(cs, i + 1, n);
    match (parse_i32(ws.as_str()), parse_i32(hs.as_str())) {
        (Some(w), Some(h)) => if w > 0 && h > 0 {
            Some((w, h))
        } else {
            None
        },
        _ => None,
    }
}

/// `--logger-scopes` / `--flight-rec-scopes`: a comma list, trimmed,
/// empties dropped; an absent flag is the empty list.
pub fn split_scopes(v: Option<&str>) -> (r: Vec<String>)
    ensures
        views(r@) == comma_list(
            match v {
                Some(s) => s@,
                None => Seq::empty(),
            },
        ),
{
    proof {
        reveal_strlit("");
    }
    match v {
        Some(s) => split_trimmed(s, ','),
        None => split_trimmed("", ','),
    }
}

/// The leftover-argument message.
pub open spec fn unhandled_spec(flag: Seq<char>) -> Seq<char> {
    "unhandled option: "@ + flag + " (not consumed by any loaded backend)"@
}

pub fn unhandled_option(flag: &str) -> (r: String)
    ensures
        r@ == unhandled_spec(flag@),
{
    concat3("unhandled option: ", flag, " (not consumed by any loaded backend)")
}

// ---------------------------------------------------------------------
// The fail-loud gate
// ---------------------------------------------------------------------

pub open spec fn has_backend(s: Settings, b: Backend) -> bool {
    s.backends@.contains(b)
}

/// The first backend-specific flag given that no loaded backend
/// consumes: the per-backend option tables.  `--width`/`--height` are
/// in every table and never appear.
pub open spec fn misplaced_flag(cli: Cli, s: Settings) -> Option<Seq<char>> {
    let drm = has_backend(s, Backend::Drm);
    let headless = has_backend(s, Backend::Headless);
    let x11 = has_backend(s, Backend::X11);
    let wayland = has_backend(s, Backend::Wayland);
    let vnc = has_backend(s, Backend::Vnc);
    if cli.seat is Some && !drm {
        Some("--seat"@)
    } else if cli.drm_device is Some && !drm {
        Some("--drm-device"@)
    } else if cli.additional_devices is Some && !drm {
        Some("--additional-devices"@)
    } else if cli.current_mode && !drm {
        Some("--current-mode"@)
    } else if cli.continue_without_input && !drm {
        Some("--continue-without-input"@)
    } else if s.scale is Some && !(headless || x11 || wayland) {
        Some("--scale"@)
    } else if s.transform is Some && !headless {
        Some("--transform"@)
    } else if s.no_outputs && !headless {
        Some("--no-outputs"@)
    } else if s.refresh_rate is Some && !headless {
        Some("--refresh-rate"@)
    } else if cli.use_gl && !headless {
        Some("--use-gl"@)
    } else if cli.use_pixman && !(headless || x11 || wayland) {
        Some("--use-pixman"@)
    } else if cli.fullscreen && !(x11 || wayland) {
        Some("--fullscreen"@)
    } else if cli.output_count is Some && !(x11 || wayland) {
        Some("--output-count"@)
    } else if cli.no_input && !x11 {
        Some("--no-input"@)
    } else if cli.sprawl && !wayland {
        Some("--sprawl"@)
    } else if cli.display is Some && !wayland {
        Some("--display"@)
    } else if cli.port is Some && !vnc {
        Some("--port"@)
    } else if cli.address is Some && !vnc {
        Some("--address"@)
    } else if cli.vnc_tls_cert is Some && !vnc {
        Some("--vnc-tls-cert"@)
    } else if cli.vnc_tls_key is Some && !vnc {
        Some("--vnc-tls-key"@)
    } else if cli.disable_transport_layer_security && !vnc {
        Some("--disable-transport-layer-security"@)
    } else {
        None
    }
}

/// The first flag given that no shipped backend consumes at all (the
/// rdp options).
pub open spec fn orphan_flag(cli: Cli) -> Option<Seq<char>> {
    if cli.rdp_tls_cert is Some {
        Some("--rdp-tls-cert"@)
    } else if cli.rdp_tls_key is Some {
        Some("--rdp-tls-key"@)
    } else if cli.external_listener_fd is Some {
        Some("--external-listener-fd"@)
    } else if cli.no_resizeable {
        Some("--no-resizeable"@)
    } else if cli.rdp4_key is Some {
        Some("--rdp4-key"@)
    } else if cli.env_socket {
        Some("--env-socket"@)
    } else if cli.no_remotefx_codec {
        Some("--no-remotefx-codec"@)
    } else if cli.force_no_compression {
        Some("--force-no-compression"@)
    } else {
        None
    }
}

fn contains_backend(v: &Vec<Backend>, b: Backend) -> (r: bool)
    ensures
        r == v@.contains(b),
{
    let mut i: usize = 0;
    while i < v.len()
        invariant
            i <= v@.len(),
            forall|k: int| 0 <= k < i ==> v@[k] != b,
        decreases v@.len() - i,
    {
        if v[i] == b {
            assert(v@[i as int] == b);
            return true;
        }
        i += 1;
    }
    false
}

fn misplaced_flag_exec(cli: &Cli, s: &Settings) -> (r: Option<&'static str>)
    ensures
        match r {
            Some(f) => misplaced_flag(*cli, *s) == Some(f@),
            None => misplaced_flag(*cli, *s) is None,
        },
{
    let drm = contains_backend(&s.backends, Backend::Drm);
    let headless = contains_backend(&s.backends, Backend::Headless);
    let x11 = contains_backend(&s.backends, Backend::X11);
    let wayland = contains_backend(&s.backends, Backend::Wayland);
    let vnc = contains_backend(&s.backends, Backend::Vnc);
    if cli.seat.is_some() && !drm {
        Some("--seat")
    } else if cli.drm_device.is_some() && !drm {
        Some("--drm-device")
    } else if cli.additional_devices.is_some() && !drm {
        Some("--additional-devices")
    } else if cli.current_mode && !drm {
        Some("--current-mode")
    } else if cli.continue_without_input && !drm {
        Some("--continue-without-input")
    } else if s.scale.is_some() && !(headless || x11 || wayland) {
        Some("--scale")
    } else if s.transform.is_some() && !headless {
        Some("--transform")
    } else if s.no_outputs && !headless {
        Some("--no-outputs")
    } else if s.refresh_rate.is_some() && !headless {
        Some("--refresh-rate")
    } else if cli.use_gl && !headless {
        Some("--use-gl")
    } else if cli.use_pixman && !(headless || x11 || wayland) {
        Some("--use-pixman")
    } else if cli.fullscreen && !(x11 || wayland) {
        Some("--fullscreen")
    } else if cli.output_count.is_some() && !(x11 || wayland) {
        Some("--output-count")
    } else if cli.no_input && !x11 {
        Some("--no-input")
    } else if cli.sprawl && !wayland {
        Some("--sprawl")
    } else if cli.display.is_some() && !wayland {
        Some("--display")
    } else if cli.port.is_some() && !vnc {
        Some("--port")
    } else if cli.address.is_some() && !vnc {
        Some("--address")
    } else if cli.vnc_tls_cert.is_some() && !vnc {
        Some("--vnc-tls-cert")
    } else if cli.vnc_tls_key.is_some() && !vnc {
        Some("--vnc-tls-key")
    } else if cli.disable_transport_layer_security && !vnc {
        Some("--disable-transport-layer-security")
    } else {
        None
    }
}

fn orphan_flag_exec(cli: &Cli) -> (r: Option<&'static str>)
    ensures
        match r {
            Some(f) => orphan_flag(*cli) == Some(f@),
            None => orphan_flag(*cli) is None,
        },
{
    if cli.rdp_tls_cert.is_some() {
        Some("--rdp-tls-cert")
    } else if cli.rdp_tls_key.is_some() {
        Some("--rdp-tls-key")
    } else if cli.external_listener_fd.is_some() {
        Some("--external-listener-fd")
    } else if cli.no_resizeable {
        Some("--no-resizeable")
    } else if cli.rdp4_key.is_some() {
        Some("--rdp4-key")
    } else if cli.env_socket {
        Some("--env-socket")
    } else if cli.no_remotefx_codec {
        Some("--no-remotefx-codec")
    } else if cli.force_no_compression {
        Some("--force-no-compression")
    } else {
        None
    }
}

pub open spec fn output_msg(name: Seq<char>, tail: Seq<char>) -> Seq<char> {
    "[[output]] '"@ + name + "': "@ + tail
}

fn output_message(name: &str, tail: &str) -> (r: String)
    ensures
        r@ == output_msg(name@, tail@),
{
    let a = concat3("[[output]] '", name, "': ");
    concat2(a.as_str(), tail)
}

/// What is wrong with one `[[output]]` section, if anything: DRM-only
/// keys off DRM, `mirror-of` outside the vnc head, an ICC profile
/// without the colour manager.
pub open spec fn section_reason(out: Output, s: Settings) -> Option<Seq<char>> {
    let name = section_name(out.name);
    let drm = has_backend(s, Backend::Drm);
    if out.clone_of is Some && !drm {
        Some(output_msg(name, "clone-of applies to the drm backend only"@))
    } else if out.mirror_of is Some && !has_backend(s, Backend::Vnc) {
        Some(
            output_msg(
                name,
                "mirror-of requires a remote backend (vnc) in the loaded backends"@,
            ),
        )
    } else if out.mirror_of is Some && name != "vnc"@ {
        Some(output_msg(name, "mirror-of is supported on remote outputs only (the vnc head)"@))
    } else if out.mirror_of is Some && out.mirror_of->0@ == name {
        Some(output_msg(name, "mirror-of must name a different output"@))
    } else if out.max_bpc is Some && !drm {
        Some(output_msg(name, "max-bpc applies to the drm backend only"@))
    } else if !drm && (out.eotf_mode is Some || out.colorimetry_mode is Some
        || out.color_characteristics is Some) {
        Some(
            output_msg(
                name,
                "eotf-mode, colorimetry-mode and color-characteristics apply to the drm backend only"@,
            ),
        )
    } else if out.icc_profile is Some && !s.color_management {
        Some(output_msg(name, "icc-profile requires [core] color-management = true"@))
    } else {
        None
    }
}

pub open spec fn first_section_reason(outs: Seq<Output>, s: Settings, i: int) -> Option<Seq<char>>
    decreases outs.len() - i,
{
    if i < 0 || i >= outs.len() {
        None
    } else {
        match section_reason(outs[i], s) {
            Some(m) => Some(m),
            None => first_section_reason(outs, s, i + 1),
        }
    }
}

pub open spec fn rdp_msg() -> Seq<char> {
    "the rdp backend is not supported by westonite (deliberately dropped); use the vnc backend for remote access"@
}

pub open spec fn remote_output_msg() -> Seq<char> {
    "[[remote-output]] is not supported by westonite (the remoting plugin is deliberately dropped); use the vnc backend for remote access"@
}

pub open spec fn pipewire_output_msg() -> Seq<char> {
    "[[pipewire-output]] is not supported by westonite (the pipewire virtual-output plugin is deliberately dropped); the pipewire *backend* (--backend=pipewire) is supported"@
}

pub open spec fn calibrator_msg() -> Seq<char> {
    "[libinput] touchscreen-calibrator is not supported by westonite (the touch calibration protocol is deliberately dropped; no calibrator client ships with it)"@
}

pub open spec fn calibration_helper_msg() -> Seq<char> {
    "[libinput] calibration-helper is only consulted by touchscreen-calibrator, which is not supported by westonite"@
}

pub open spec fn enable_tap_msg() -> Seq<char> {
    "[libinput] enable_tap is C's deprecated spelling and is not supported by westonite; spell it enable-tap"@
}

pub open spec fn modules_msg() -> Seq<char> {
    "--modules / [core] modules is not supported by westonite (third-party plugin loading is deliberately dropped); the shell is built in"@
}

pub open spec fn shell_msg(shell: Seq<char>) -> Seq<char> {
    "unknown shell \""@ + shell
        + "\": the Rust frontend ships only the built-in desktop shell"@
}

/// Why startup must refuse, checked in this order; `None` when every
/// requested option is honoured.
pub open spec fn unsupported_reason(cli: Cli, s: Settings) -> Option<Seq<char>> {
    let li = s.config.libinput;
    if has_backend(s, Backend::Rdp) {
        Some(rdp_msg())
    } else if s.config.remote_output@.len() > 0 {
        Some(remote_output_msg())
    } else if s.config.pipewire_output@.len() > 0 {
        Some(pipewire_output_msg())
    } else if misplaced_flag(cli, s) is Some {
        Some(unhandled_spec(misplaced_flag(cli, s)->0))
    } else if orphan_flag(cli) is Some {
        Some(unhandled_spec(orphan_flag(cli)->0))
    } else if li.touchscreen_calibrator == Some(true) {
        Some(calibrator_msg())
    } else if li.calibration_helper matches Some(h) && h@.len() > 0 {
        Some(calibration_helper_msg())
    } else if li.enable_tap_deprecated is Some {
        Some(enable_tap_msg())
    } else if s.modules@.len() > 0 {
        Some(modules_msg())
    } else if first_section_reason(s.config.output@, s, 0) is Some {
        first_section_reason(s.config.output@, s, 0)
    } else if cli.shell matches Some(sh) && sh@ != "desktop"@ && sh@ != "desktop-shell.so"@ {
        Some(shell_msg(cli.shell->0@))
    } else {
        None
    }
}

fn section_check(out: &Output, s: &Settings) -> (r: Option<String>)
    ensures
        match r {
            Some(m) => section_reason(*out, *s) == Some(m@),
            None => section_reason(*out, *s) is None,
        },
{
    let name = match &out.name {
        Some(n) => n.clone(),
        None => owned("<unnamed>"),
    };
    proof {
        reveal_strlit("<unnamed>");
    }
    let nm = name.as_str();
    let drm = contains_backend(&s.backends, Backend::Drm);
    if out.clone_of.is_some() && !drm {
        return Some(output_message(nm, "clone-of applies to the drm backend only"));
    }
    match &out.mirror_of {
        Some(src) => {
            if !contains_backend(&s.backends, Backend::Vnc) {
                return Some(
                    output_message(
                        nm,
                        "mirror-of requires a remote backend (vnc) in the loaded backends",
                    ),
                );
            }
            if !str_eq(nm, "vnc") {
                return Some(
                    output_message(nm, "mirror-of is supported on remote outputs only (the vnc head)"),
                );
            }
            if str_eq(src.as_str(), nm) {
                return Some(output_message(nm, "mirror-of must name a different output"));
            }
        },
        None => {},
    }
    if out.max_bpc.is_some() && !drm {
        return Some(output_message(nm, "max-bpc applies to the drm backend only"));
    }
    if !drm && (out.eotf_mode.is_some() || out.colorimetry_mode.is_some()
        || out.color_characteristics.is_some()) {
        return Some(
            output_message(
                nm,
                "eotf-mode, colorimetry-mode and color-characteristics apply to the drm backend only",
            ),
        );
    }
    if out.icc_profile.is_some() && !s.color_management {
        return Some(output_message(nm, "icc-profile requires [core] color-management = true"));
    }
    None
}

fn sections_check(outs: &Vec<Output>, s: &Settings) -> (r: Option<String>)
    ensures
        match r {
            Some(m) => first_section_reason(outs@, *s, 0) == Some(m@),
            None => first_section_reason(outs@, *s, 0) is None,
        },
{
    let mut i: usize = 0;
    while i < outs.len()
        invariant
            i <= outs@.len(),
            first_section_reason(outs@, *s, 0) == first_section_reason(outs@, *s, i as int),
        decreases outs@.len() - i,
    {
        match section_check(&outs[i], s) {
            Some(m) => return Some(m),
            None => {},
        }
        i += 1;
    }
    None
}

/// The fail-loud gate: options whose behaviour is not honoured are
/// startup errors, never silent no-ops.  Returns the fatal message.
pub fn reject_unsupported(cli: &Cli, settings: &Settings) -> (r: Option<String>)
    ensures
        match r {
            Some(m) => unsupported_reason(*cli, *settings) == Some(m@),
            None => unsupported_reason(*cli, *settings) is None,
        },
{
    if contains_backend(&settings.backends, Backend::Rdp) {
        return Some(
            owned(
                "the rdp backend is not supported by westonite (deliberately dropped); use the vnc backend for remote access",
            ),
        );
    }
    if settings.config.remote_output.len() > 0 {
        return Some(
            owned(
                "[[remote-output]] is not supported by westonite (the remoting plugin is deliberately dropped); use the vnc backend for remote access",
            ),
        );
    }
    if settings.config.pipewire_output.len() > 0 {
        return Some(
            owned(
                "[[pipewire-output]] is not supported by westonite (the pipewire virtual-output plugin is deliberately dropped); the pipewire *backend* (--backend=pipewire) is supported",
            ),
        );
    }
    match misplaced_flag_exec(cli, settings) {
        Some(f) => return Some(unhandled_option(f)),
        None => {},
    }
    match orphan_flag_exec(cli) {
        Some(f) => return Some(unhandled_option(f)),
        None => {},
    }
    let li = &settings.config.libinput;
    if li.touchscreen_calibrator == Some(true) {
        return Some(
            owned(
                "[libinput] touchscreen-calibrator is not supported by westonite (the touch calibration protocol is deliberately dropped; no calibrator client ships with it)",
            ),
        );
    }
    match &li.calibration_helper {
        Some(h) => if h.unicode_len() > 0 {
            return Some(
                owned(
                    "[libinput] calibration-helper is only consulted by touchscreen-calibrator, which is not supported by westonite",
                ),
            );
        },
        None => {},
    }
    if li.enable_tap_deprecated.is_some() {
        return Some(
            owned(
                "[libinput] enable_tap is C's deprecated spelling and is not supported by westonite; spell it enable-tap",
            ),
        );
    }
    if settings.modules.len() > 0 {
        return Some(
            owned(
                "--modules / [core] modules is not supported by westonite (third-party plugin loading is deliberately dropped); the shell is built in",
            ),
        );
    }
    match sections_check(&settings.config.output, settings) {
        Some(m) => return Some(m),
        None => {},
    }
    match &cli.shell {
        Some(sh) => {
            let ss = sh.as_str();
            if !str_eq(ss, "desktop") && !str_eq(ss, "desktop-shell.so") {
                return Some(
                    concat3(
                        "unknown shell \"",
                        ss,
                        "\": the Rust frontend ships only the built-in desktop shell",
                    ),
                );
            }
        },
        None => {},
    }
    None
}


// ---------------------------------------------------------------------
// [libinput]
// ---------------------------------------------------------------------

/// Why `[libinput]` cannot be honoured.  An out-of-range `accel-speed`
/// is reported with the value, which the caller formats.
#[derive(Debug, Clone, PartialEq, Eq)]
pub enum InputConfigError {
    Invalid(String),
    AccelSpeedOutOfRange,
}

pub open spec fn accel_profile_msg(p: Seq<char>) -> Seq<char> {
    "[libinput] '"@ + p + "' is not a valid accel-profile. Try one of: flat adaptive"@
}

pub open spec fn scroll_method_msg(m: Seq<char>) -> Seq<char> {
    "[libinput] '"@ + m + "' is not a valid scroll-method. Try one of: two-finger edge button none"@
}

pub open spec fn scroll_button_msg(b: Seq<char>) -> Seq<char> {
    "[libinput] '"@ + b + "' is not an evdev button name (e.g. BTN_RIGHT)"@
}

pub open spec fn button_method_msg() -> Seq<char> {
    "[libinput] scroll-button only applies with scroll-method = \"button\""@
}

pub open spec fn parsed_method(li: Libinput) -> Option<ScrollMethod> {
    match li.scroll_method {
        Some(m) => scroll_method_named(m@),
        None => None,
    }
}

/// Why `[libinput]` is refused, checks in order: `None` when it is not,
/// `Some(None)` for an out-of-range accel-speed, `Some(Some(m))` for a
/// message.  `accel_speed_in_range` says whether the speed is within
/// -1.0..=1.0, and `button_code` is what libevdev gave for the
/// scroll-button name (-1 for an unknown one).
pub open spec fn input_error(li: Libinput, accel_speed_in_range: bool, button_code: i32) -> Option<
    Option<Seq<char>>,
> {
    if li.accel_profile matches Some(p) && accel_profile_named(p@) is None {
        Some(Some(accel_profile_msg(li.accel_profile->0@)))
    } else if li.accel_speed is Some && !accel_speed_in_range {
        Some(None)
    } else if li.scroll_method matches Some(m) && scroll_method_named(m@) is None {
        Some(Some(scroll_method_msg(li.scroll_method->0@)))
    } else if li.scroll_button matches Some(b) && (b@.contains('\0') || button_code < 0) {
        Some(Some(scroll_button_msg(li.scroll_button->0@)))
    } else if li.scroll_button is Some && parsed_method(li) != Some(ScrollMethod::Button) {
        Some(Some(button_method_msg()))
    } else {
        None
    }
}

/// The typed `[libinput]` slice the DRM backend applies per device.
pub fn build_input_config(li: &Libinput, accel_speed_in_range: bool, button_code: i32) -> (r: Result<
    InputConfig,
    InputConfigError,
>)
    ensures
        match r {
            Ok(c) => {
                &&& input_error(*li, accel_speed_in_range, button_code) is None
                &&& c.enable_tap == li.enable_tap
                &&& c.tap_and_drag == li.tap_and_drag
                &&& c.tap_and_drag_lock == li.tap_and_drag_lock
                &&& c.disable_while_typing == li.disable_while_typing
                &&& c.middle_button_emulation == li.middle_button_emulation
                &&& c.left_handed == li.left_handed
                &&& c.rotation == li.rotation
                &&& c.accel_profile == match li.accel_profile {
                    Some(p) => accel_profile_named(p@),
                    None => None,
                }
                &&& c.accel_speed == li.accel_speed
                &&& c.natural_scroll == li.natural_scroll
                &&& c.scroll_method == parsed_method(*li)
                &&& (match c.scroll_button {
                    Some(b) => li.scroll_button matches Some(n) && b.name@ == n@ && b.code
                        == button_code,
                    None => li.scroll_button is None,
                })
            },
            Err(InputConfigError::AccelSpeedOutOfRange) => input_error(
                *li,
                accel_speed_in_range,
                button_code,
            ) == Some(None::<Seq<char>>),
            Err(InputConfigError::Invalid(m)) => input_error(*li, accel_speed_in_range, button_code)
                == Some(Some(m@)),
        },
{
    let accel_profile = match &li.accel_profile {
        Some(p) => match AccelProfile::parse(p.as_str()) {
            Some(v) => Some(v),
            None => {
                return Err(
                    InputConfigError::Invalid(
                        concat3(
                            "[libinput] '",
                            p.as_str(),
                            "' is not a valid accel-profile. Try one of: flat adaptive",
                        ),
                    ),
                );
            },
        },
        None => None,
    };
    if li.accel_speed.is_some() && !accel_speed_in_range {
        return Err(InputConfigError::AccelSpeedOutOfRange);
    }
    let scroll_method = match &li.scroll_method {
        Some(m) => match ScrollMethod::parse(m.as_str()) {
            Some(v) => Some(v),
            None => {
                return Err(
                    InputConfigError::Invalid(
                        concat3(
                            "[libinput] '",
                            m.as_str(),
                            "' is not a valid scroll-method. Try one of: two-finger edge button none",
                        ),
                    ),
                );
            },
        },
        None => None,
    };
    let scroll_button = match &li.scroll_button {
        Some(b) => match ScrollButton::from_lookup(b.as_str(), button_code) {
            Some(v) => Some(v),
            None => {
                return Err(
                    InputConfigError::Invalid(
                        concat3(
                            "[libinput] '",
                            b.as_str(),
                            "' is not an evdev button name (e.g. BTN_RIGHT)",
                        ),
                    ),
                );
            },
        },
        None => None,
    };
    if scroll_button.is_some() && scroll_method != Some(ScrollMethod::Button) {
        return Err(
            InputConfigError::Invalid(
                owned("[libinput] scroll-button only applies with scroll-method = \"button\""),
            ),
        );
    }
    Ok(
        InputConfig {
            enable_tap: li.enable_tap,
            tap_and_drag: li.tap_and_drag,
            tap_and_drag_lock: li.tap_and_drag_lock,
            disable_while_typing: li.disable_while_typing,
            middle_button_emulation: li.middle_button_emulation,
            left_handed: li.left_handed,
            rotation: li.rotation,
            accel_profile,
            accel_speed: li.accel_speed,
            natural_scroll: li.natural_scroll,
            scroll_method,
            scroll_button,
        },
    )
}


// ---------------------------------------------------------------------
// [[output]] colour slice
// ---------------------------------------------------------------------

pub open spec fn eotf_msg(name: Seq<char>, m: Seq<char>) -> Seq<char> {
    output_msg(name, "'"@ + m + "' is not a valid EOTF mode. Try one of: sdr hdr-gamma st2084 hlg"@)
}

pub open spec fn colorimetry_msg(name: Seq<char>, m: Seq<char>) -> Seq<char> {
    output_msg(
        name,
        "'"@ + m
            + "' is not a valid colorimetry mode. Try one of: default bt2020cycc bt2020ycc bt2020rgb p3d65 p3dci ictcp"@,
    )
}

pub open spec fn parsed_eotf(out: Output) -> Option<EotfMode> {
    match out.eotf_mode {
        Some(m) => eotf_named(m@),
        None => None,
    }
}

pub open spec fn parsed_colorimetry(out: Output) -> Option<ColorimetryMode> {
    match out.colorimetry_mode {
        Some(m) => colorimetry_named(m@),
        None => None,
    }
}

/// Why the EOTF / colorimetry keys of a section are refused: unknown
/// names, or a non-default mode without the colour manager.
pub open spec fn color_modes_error(color_management: bool, out: Output, name: Seq<char>) -> Option<
    Seq<char>,
> {
    if out.eotf_mode matches Some(m) && eotf_named(m@) is None {
        Some(eotf_msg(name, out.eotf_mode->0@))
    } else if out.colorimetry_mode matches Some(m) && colorimetry_named(m@) is None {
        Some(colorimetry_msg(name, out.colorimetry_mode->0@))
    } else if parsed_eotf(out) matches Some(e) && e != EotfMode::Sdr && !color_management {
        Some(output_msg(name, "a non-SDR eotf-mode requires [core] color-management = true"@))
    } else if parsed_colorimetry(out) matches Some(c) && c != ColorimetryMode::Default
        && !color_management {
        Some(
            output_msg(
                name,
                "a non-default colorimetry-mode requires [core] color-management = true"@,
            ),
        )
    } else {
        None
    }
}

/// The EOTF and colorimetry modes of a section.
pub fn color_modes(color_management: bool, out: &Output, name: &str) -> (r: Result<
    (Option<EotfMode>, Option<ColorimetryMode>),
    String,
>)
    ensures
        match r {
            Ok((e, c)) => color_modes_error(color_management, *out, name@) is None && e
                == parsed_eotf(*out) && c == parsed_colorimetry(*out),
            Err(m) => color_modes_error(color_management, *out, name@) == Some(m@),
        },
{
    let eotf = match &out.eotf_mode {
        Some(m) => match EotfMode::parse(m.as_str()) {
            Some(v) => Some(v),
            None => {
                let t = concat3(
                    "'",
                    m.as_str(),
                    "' is not a valid EOTF mode. Try one of: sdr hdr-gamma st2084 hlg",
                );
                return Err(output_message(name, t.as_str()));
            },
        },
        None => None,
    };
    let colorimetry = match &out.colorimetry_mode {
        Some(m) => match ColorimetryMode::parse(m.as_str()) {
            Some(v) => Some(v),
            None => {
                let t = concat3(
                    "'",
                    m.as_str(),
                    "' is not a valid colorimetry mode. Try one of: default bt2020cycc bt2020ycc bt2020rgb p3d65 p3dci ictcp",
                );
                return Err(output_message(name, t.as_str()));
            },
        },
        None => None,
    };
    match eotf {
        Some(e) => if e != EotfMode::Sdr && !color_management {
            return Err(
                output_message(name, "a non-SDR eotf-mode requires [core] color-management = true"),
            );
        },
        None => {},
    }
    match colorimetry {
        Some(c) => if c != ColorimetryMode::Default && !color_management {
            return Err(
                output_message(
                    name,
                    "a non-default colorimetry-mode requires [core] color-management = true",
                ),
            );
        },
        None => {},
    }
    Ok((eotf, colorimetry))
}

/// A named `[[color-characteristics]]` section, and which of its two
/// multi-key groups (primaries, white point) are given.
#[derive(Debug, Clone, Copy, PartialEq, Eq, Structural)]
pub struct CharacteristicsGroups {
    pub index: usize,
    pub primaries: bool,
    pub white: bool,
}

/// First index at or after `i` of the section named `n`.
pub open spec fn cc_index_from(list: Seq<crate::config::ColorCharacteristics>, n: Seq<char>, i: int) -> Option<
    int,
>
    decreases list.len() - i,
{
    if i < 0 || i >= list.len() {
        None
    } else if list[i].name matches Some(x) && x@ == n {
        Some(i)
    } else {
        cc_index_from(list, n, i + 1)
    }
}

/// The missing key names of a group, joined with ", ".
pub open spec fn missing_join(items: Seq<(Seq<char>, bool)>) -> Seq<char>
    decreases items.len(),
{
    if items.len() == 0 {
        Seq::empty()
    } else {
        let r = missing_join(items.drop_last());
        if items.last().1 {
            r
        } else if r.len() == 0 {
            items.last().0
        } else {
            r + ", "@ + items.last().0
        }
    }
}

pub open spec fn count_present(items: Seq<(Seq<char>, bool)>) -> nat
    decreases items.len(),
{
    if items.len() == 0 {
        0
    } else {
        count_present(items.drop_last()) + if items.last().1 {
            1nat
        } else {
            0nat
        }
    }
}

pub open spec fn primary_keys(cc: crate::config::ColorCharacteristics) -> Seq<(Seq<char>, bool)> {
    seq![
        ("red-x"@, cc.red_x is Some),
        ("red-y"@, cc.red_y is Some),
        ("green-x"@, cc.green_x is Some),
        ("green-y"@, cc.green_y is Some),
        ("blue-x"@, cc.blue_x is Some),
        ("blue-y"@, cc.blue_y is Some),
    ]
}

pub open spec fn white_keys(cc: crate::config::ColorCharacteristics) -> Seq<(Seq<char>, bool)> {
    seq![("white-x"@, cc.white_x is Some), ("white-y"@, cc.white_y is Some)]
}

pub open spec fn cc_msg(cc_name: Seq<char>, tail: Seq<char>) -> Seq<char> {
    "[[color-characteristics]] name="@ + cc_name + ": "@ + tail
}

/// A group given in part: the message naming its missing keys.
pub open spec fn group_error(cc_name: Seq<char>, label: Seq<char>, items: Seq<(Seq<char>, bool)>) -> Option<
    Seq<char>,
> {
    let set = count_present(items);
    if set == 0 || set == items.len() {
        None
    } else {
        Some(
            cc_msg(
                cc_name,
                "group "@ + label + " key "@ + missing_join(items)
                    + " is missing. You must set either none or all keys of a group."@,
            ),
        )
    }
}

/// The characteristics a section names: it must exist, its name must
/// not hold ':', and each group is given entirely or not at all.
pub open spec fn characteristics_error(
    list: Seq<crate::config::ColorCharacteristics>,
    cc_name: Seq<char>,
    output: Seq<char>,
) -> Option<Seq<char>> {
    match cc_index_from(list, cc_name, 0) {
        None => Some(
            "output "@ + output + ": no [[color-characteristics]] section with 'name = \""@
                + cc_name + "\"' found"@,
        ),
        Some(i) => if cc_name.contains(':') {
            Some(cc_msg(cc_name, "reserved name. Do not use ':' character in the name."@))
        } else if group_error(cc_name, "primaries"@, primary_keys(list[i])) is Some {
            group_error(cc_name, "primaries"@, primary_keys(list[i]))
        } else {
            group_error(cc_name, "white"@, white_keys(list[i]))
        },
    }
}

/// One key of a group: its name and whether it is given.
pub struct KeyPresence {
    pub key: &'static str,
    pub present: bool,
}

pub open spec fn presence_view(v: Seq<KeyPresence>) -> Seq<(Seq<char>, bool)> {
    Seq::new(v.len(), |i: int| (v[i].key@, v[i].present))
}

fn group_check(cc_name: &str, label: &str, items: &Vec<KeyPresence>) -> (r: Option<String>)
    ensures
        opt_seq(r) == group_error(cc_name@, label@, presence_view(items@)),
{
    let ghost iv = presence_view(items@);
    let mut set: usize = 0;
    let mut missing = String::new();
    let mut i: usize = 0;
    while i < items.len()
        invariant
            i <= items@.len(),
            iv == presence_view(items@),
            set == count_present(iv.take(i as int)),
            set <= i,
            missing@ == missing_join(iv.take(i as int)),
        decreases items@.len() - i,
    {
        assert(iv.take(i + 1).drop_last() =~= iv.take(i as int));
        if items[i].present {
            set = set + 1;
        } else {
            if missing.unicode_len() == 0 {
                missing = owned(items[i].key);
            } else {
                missing = concat3(missing.as_str(), ", ", items[i].key);
            }
        }
        i += 1;
    }
    assert(iv.take(i as int) =~= iv);
    if set == 0 || set == items.len() {
        None
    } else {
        let a = concat3("group ", label, " key ");
        let b = concat3(
            a.as_str(),
            missing.as_str(),
            " is missing. You must set either none or all keys of a group.",
        );
        Some(cc_message(cc_name, b.as_str()))
    }
}

pub open spec fn opt_seq(o: Option<String>) -> Option<Seq<char>> {
    match o {
        Some(s) => Some(s@),
        None => None,
    }
}

fn cc_message(cc_name: &str, tail: &str) -> (r: String)
    ensures
        r@ == cc_msg(cc_name@, tail@),
{
    let a = concat3("[[color-characteristics]] name=", cc_name, ": ");
    concat2(a.as_str(), tail)
}

proof fn lemma_cc_index(list: Seq<crate::config::ColorCharacteristics>, n: Seq<char>, i: int)
    requires
        0 <= i,
    ensures
        cc_index_from(list, n, i) matches Some(k) ==> i <= k < list.len(),
    decreases list.len() - i,
{
    if i < list.len() && !(list[i].name matches Some(x) && x@ == n) {
        lemma_cc_index(list, n, i + 1);
    }
}

fn find_cc(list: &Vec<crate::config::ColorCharacteristics>, cc_name: &str) -> (r: Option<usize>)
    ensures
        match r {
            Some(k) => cc_index_from(list@, cc_name@, 0) == Some(k as int),
            None => cc_index_from(list@, cc_name@, 0) is None,
        },
{
    let mut i: usize = 0;
    while i < list.len()
        invariant
            i <= list@.len(),
            cc_index_from(list@, cc_name@, 0) == cc_index_from(list@, cc_name@, i as int),
        decreases list@.len() - i,
    {
        match &list[i].name {
            Some(x) => if str_eq(x.as_str(), cc_name) {
                return Some(i);
            },
            None => {},
        }
        i += 1;
    }
    None
}

/// Find and group-check the characteristics `cc_name` that output
/// `output` asks for.
pub fn characteristics_groups(
    list: &Vec<crate::config::ColorCharacteristics>,
    cc_name: &str,
    output: &str,
) -> (r: Result<CharacteristicsGroups, String>)
    ensures
        match r {
            Ok(g) => {
                &&& characteristics_error(list@, cc_name@, output@) is None
                &&& cc_index_from(list@, cc_name@, 0) == Some(g.index as int)
                &&& g.primaries == (count_present(primary_keys(list@[g.index as int])) > 0)
                &&& g.white == (count_present(white_keys(list@[g.index as int])) > 0)
            },
            Err(m) => characteristics_error(list@, cc_name@, output@) == Some(m@),
        },
{
    let found = find_cc(list, cc_name);
    let idx = match found {
        Some(k) => k,
        None => {
            let a = concat3("output ", output, ": no [[color-characteristics]] section with 'name = \"");
            return Err(concat3(a.as_str(), cc_name, "\"' found"));
        },
    };
    assert(cc_index_from(list@, cc_name@, 0) == Some(idx as int));
    proof {
        lemma_cc_index(list@, cc_name@, 0);
    }
    if crate::text::contains_char(cc_name, ':') {
        return Err(cc_message(cc_name, "reserved name. Do not use ':' character in the name."));
    }
    let cc = &list[idx];
    let prim = vec![
        KeyPresence { key: "red-x", present: cc.red_x.is_some() },
        KeyPresence { key: "red-y", present: cc.red_y.is_some() },
        KeyPresence { key: "green-x", present: cc.green_x.is_some() },
        KeyPresence { key: "green-y", present: cc.green_y.is_some() },
        KeyPresence { key: "blue-x", present: cc.blue_x.is_some() },
        KeyPresence { key: "blue-y", present: cc.blue_y.is_some() },
    ];
    assert(presence_view(prim@) =~= primary_keys(*cc));
    match group_check(cc_name, "primaries", &prim) {
        Some(m) => return Err(m),
        None => {},
    }
    let white = vec![
        KeyPresence { key: "white-x", present: cc.white_x.is_some() },
        KeyPresence { key: "white-y", present: cc.white_y.is_some() },
    ];
    assert(presence_view(white@) =~= white_keys(*cc));
    match group_check(cc_name, "white", &white) {
        Some(m) => return Err(m),
        None => {},
    }
    let primaries = cc.red_x.is_some() || cc.red_y.is_some() || cc.green_x.is_some()
        || cc.green_y.is_some() || cc.blue_x.is_some() || cc.blue_y.is_some();
    let w = cc.white_x.is_some() || cc.white_y.is_some();
    proof {
        reveal_with_fuel(count_present, 7);
    }
    Ok(CharacteristicsGroups { index: idx, primaries, white: w })
}

/// The colour slice of one section, once its modes and characteristics
/// are resolved; `allow-hdcp` defaults to true.
pub fn assemble_color_setup(
    out: &Output,
    eotf_mode: Option<EotfMode>,
    colorimetry_mode: Option<ColorimetryMode>,
    characteristics: Option<ColorCharacteristics>,
) -> (r: ColorSetup)
    ensures
        r.icc_profile == out.icc_profile,
        r.eotf_mode == eotf_mode,
        r.colorimetry_mode == colorimetry_mode,
        r.characteristics == characteristics,
        r.allow_hdcp == match out.allow_hdcp {
            Some(b) => b,
            None => true,
        },
{
    ColorSetup {
        icc_profile: clone_opt(&out.icc_profile),
        eotf_mode,
        colorimetry_mode,
        characteristics,
        allow_hdcp: match out.allow_hdcp {
            Some(b) => b,
            None => true,
        },
    }
}

// ---------------------------------------------------------------------
// The output policy
// ---------------------------------------------------------------------

/// A section without `name=` could never match a head.
pub fn section_name_required(out: &Output) -> (r: Result<String, String>)
    ensures
        match r {
            Ok(n) => out.name == Some(n),
            Err(m) => out.name is None && m@ == "[[output]] section without a name= key"@,
        },
{
    match &out.name {
        Some(n) => Ok(n.clone()),
        None => Err(owned("[[output]] section without a name= key")),
    }
}

pub open spec fn transform_msg(t: Seq<char>, name: Seq<char>) -> Seq<char> {
    "Invalid transform \""@ + t + "\" for output "@ + name
}

pub open spec fn invalid_mode_msg(name: Seq<char>) -> Seq<char> {
    "Invalid mode for output "@ + name + ". Using defaults."@
}

/// The warning for a present but unusable `mode` (only DRM makes sense
/// of anything but `WxH`, `off`, `preferred`, `current`).
pub open spec fn mode_warning_spec(out: Output, name: Seq<char>) -> Option<Seq<char>> {
    match out.mode {
        Some(m) => if m@ != "off"@ && parse_mode_spec(m@) is None && m@ != "preferred"@ && m@
            != "current"@ {
            Some(invalid_mode_msg(name))
        } else {
            None
        },
        None => None,
    }
}

pub fn mode_warning(out: &Output, name: &str) -> (r: Option<String>)
    ensures
        opt_seq(r) == mode_warning_spec(*out, name@),
{
    match &out.mode {
        Some(m) => {
            let ms = m.as_str();
            if !str_eq(ms, "off") && parse_mode(ms).is_none() && !str_eq(ms, "preferred") && !str_eq(
                ms,
                "current",
            ) {
                Some(concat3("Invalid mode for output ", name, ". Using defaults."))
            } else {
                None
            }
        },
        None => None,
    }
}

/// Whether a section's `transform=`, when present, is a valid name.
pub open spec fn transform_ok(out: Output) -> bool {
    !(out.transform matches Some(t) && transform_named(t@) is None)
}

/// What the rule of a section named `name` with colour slice `color`
/// holds.
pub open spec fn rule_of(out: Output, name: Seq<char>, color: ColorSetup, rule: OutputRule) -> bool {
    &&& rule.name@ == name
    &&& rule.off == (out.off == Some(true) || (out.mode matches Some(m) && m@ == "off"@))
    &&& rule.size == match out.mode {
        Some(m) => if m@ == "off"@ {
            None
        } else {
            parse_mode_spec(m@)
        },
        None => None,
    }
    &&& rule.scale == out.scale
    &&& rule.transform == match out.transform {
        Some(t) => transform_named(t@),
        None => None,
    }
    &&& rule.resizeable == out.resizeable
    &&& rule.gbm_format == out.gbm_format
    &&& rule.mirror_of == out.mirror_of
    &&& rule.mode_string == out.mode
    &&& rule.max_bpc == out.max_bpc
    &&& rule.content_type == out.content_type
    &&& rule.seat == out.seat
    &&& rule.force_on == (out.force_on == Some(true))
    &&& rule.clone_of == out.clone_of
    &&& rule.color == color
}

/// The rule a named section becomes, with its resolved colour slice.
pub fn section_rule(out: &Output, name: &str, color: ColorSetup) -> (r: Result<OutputRule, String>)
    ensures
        match r {
            Ok(rule) => transform_ok(*out) && rule_of(*out, name@, color, rule),
            Err(m) => out.transform matches Some(t) && transform_named(t@) is None && m@
                == transform_msg(t@, name@),
        },
{
    let mut off = out.off == Some(true);
    let mut size: Option<(i32, i32)> = None;
    match &out.mode {
        Some(m) => {
            let ms = m.as_str();
            if str_eq(ms, "off") {
                off = true;
            } else {
                size = parse_mode(ms);
            }
        },
        None => {},
    }
    let transform = match &out.transform {
        Some(t) => match OutputTransform::parse(t.as_str()) {
            Some(v) => Some(v),
            None => {
                let a = concat3("Invalid transform \"", t.as_str(), "\" for output ");
                return Err(concat2(a.as_str(), name));
            },
        },
        None => None,
    };
    let rule = OutputRule {
        name: owned(name),
        off,
        size,
        scale: out.scale,
        transform,
        resizeable: out.resizeable,
        gbm_format: clone_opt(&out.gbm_format),
        mode_string: clone_opt(&out.mode),
        max_bpc: out.max_bpc,
        content_type: clone_opt(&out.content_type),
        seat: clone_opt(&out.seat),
        force_on: out.force_on == Some(true),
        clone_of: clone_opt(&out.clone_of),
        color,
        mirror_of: clone_opt(&out.mirror_of),
    };
    Ok(rule)
}

/// Why section `out` is refused, given its resolved colour slice: no
/// name, then the colour slice's own error, then an invalid transform.
pub open spec fn section_error(out: Output, color: Result<ColorSetup, String>) -> Option<Seq<char>> {
    match out.name {
        None => Some("[[output]] section without a name= key"@),
        Some(n) => match color {
            Err(e) => Some(e@),
            Ok(_) => match out.transform {
                Some(t) => if transform_named(t@) is None {
                    Some(transform_msg(t@, n@))
                } else {
                    None
                },
                None => None,
            },
        },
    }
}

/// The mode warning of a named section whose colour slice resolved.
pub open spec fn section_warnings(out: Output, color: Result<ColorSetup, String>) -> Seq<Seq<char>> {
    match out.name {
        Some(n) => if color is Ok {
            match mode_warning_spec(out, n@) {
                Some(w) => seq![w],
                None => Seq::empty(),
            }
        } else {
            Seq::empty()
        },
        None => Seq::empty(),
    }
}

/// The warnings of the first `n` sections, in order.
pub open spec fn warnings_upto(
    outs: Seq<Output>,
    colors: Seq<Result<ColorSetup, String>>,
    n: int,
) -> Seq<Seq<char>>
    decreases n,
{
    if n <= 0 {
        Seq::empty()
    } else {
        warnings_upto(outs, colors, n - 1) + section_warnings(outs[n - 1], colors[n - 1])
    }
}

/// Section `out` with colour slice `c` was accepted with `rule`.
#[verifier::opaque]
pub open spec fn section_done(out: Output, c: Result<ColorSetup, String>, rule: OutputRule) -> bool {
    &&& out.name is Some
    &&& c is Ok
    &&& transform_ok(out)
    &&& rule_of(out, out.name->0@, c->Ok_0, rule)
    &&& section_error(out, c) is None
}

proof fn lemma_section_done(out: Output, c: Result<ColorSetup, String>, rule: OutputRule)
    requires
        section_done(out, c, rule),
    ensures
        out.name is Some,
        c is Ok,
        transform_ok(out),
        rule_of(out, out.name->0@, c->Ok_0, rule),
        section_error(out, c) is None,
{
    reveal(section_done);
}

/// The warnings a list holding at most one warning contributes.
pub open spec fn warn_seq(o: Option<String>) -> Seq<Seq<char>> {
    match o {
        Some(w) => seq![w@],
        None => Seq::empty(),
    }
}

/// One section: its mode warning (when it is named and its colour
/// slice resolved), then its rule or its refusal.
fn section_step(out: &Output, c: Result<ColorSetup, String>) -> (r: (
    Option<String>,
    Result<OutputRule, String>,
))
    ensures
        warn_seq(r.0) == section_warnings(*out, c),
        match r.1 {
            Ok(rule) => section_done(*out, c, rule),
            Err(m) => section_error(*out, c) == Some(m@),
        },
{
    reveal(section_done);
    let name = match section_name_required(out) {
        Ok(n) => n,
        Err(m) => {
            return (None, Err(m));
        },
    };
    let color = match c {
        Ok(col) => col,
        Err(e) => {
            return (None, Err(e));
        },
    };
    let w = mode_warning(out, name.as_str());
    proof {
        assert(warn_seq(w) =~= section_warnings(*out, Ok(color)));
    }
    (w, section_rule(out, name.as_str(), color))
}

fn push_warning(warns: &mut Vec<String>, w: Option<String>)
    ensures
        views(final(warns)@) == views(old(warns)@) + warn_seq(w),
{
    match w {
        Some(ws) => {
            warns.push(ws);
        },
        None => {},
    }
    assert(views(warns@) =~= views(old(warns)@) + warn_seq(w));
}

proof fn lemma_refused(
    outs: Seq<Output>,
    cs: Seq<Result<ColorSetup, String>>,
    rules: Seq<OutputRule>,
    k: int,
    m: Seq<char>,
    ws: Seq<Seq<char>>,
)
    requires
        0 <= k < outs.len(),
        rules.len() >= k,
        forall|j: int| 0 <= j < k ==> #[trigger] section_done(outs[j], cs[j], rules[j]),
        section_error(outs[k], cs[k]) == Some(m),
        ws == warnings_upto(outs, cs, k) + section_warnings(outs[k], cs[k]),
    ensures
        exists|kk: int|
            0 <= kk < outs.len() && (forall|j: int|
                0 <= j < kk ==> #[trigger] section_error(outs[j], cs[j]) is None) && section_error(
                outs[kk],
                cs[kk],
            ) == Some(m) && ws == warnings_upto(outs, cs, kk + 1),
{
    assert forall|j: int| 0 <= j < k implies #[trigger] section_error(outs[j], cs[j]) is None by {
        lemma_section_done(outs[j], cs[j], rules[j]);
    }
    assert(ws == warnings_upto(outs, cs, k + 1));
}

/// One rule per `[[output]]` section, in order.  `colors[i]` is the
/// resolved colour slice of section `i`, or the error resolving it (any
/// value for a section without a name).  Each section needs a name,
/// then its colour slice, then a valid transform; the first refusal is
/// the result.  The mode warnings of the sections reached come first,
/// in order.
#[verifier::rlimit(60)]
pub fn output_rules(outs: &Vec<Output>, colors: Vec<Result<ColorSetup, String>>) -> (r: (
    Vec<String>,
    Result<Vec<OutputRule>, String>,
))
    requires
        outs@.len() == colors@.len(),
    ensures
        match r.1 {
            Ok(rules) => {
                &&& rules@.len() == outs@.len()
                &&& forall|i: int|
                    0 <= i < outs@.len() ==> {
                        &&& #[trigger] outs@[i].name is Some
                        &&& colors@[i] is Ok
                        &&& transform_ok(outs@[i])
                        &&& rule_of(outs@[i], outs@[i].name->0@, colors@[i]->Ok_0, rules@[i])
                    }
                &&& views(r.0@) == warnings_upto(outs@, colors@, outs@.len() as int)
            },
            Err(m) => exists|k: int|
                0 <= k < outs@.len() && (forall|i: int|
                    0 <= i < k ==> #[trigger] section_error(outs@[i], colors@[i]) is None)
                    && section_error(outs@[k], colors@[k]) == Some(m@) && views(r.0@)
                    == warnings_upto(outs@, colors@, k + 1),
        },
{
    let mut warns: Vec<String> = Vec::new();
    let mut rules: Vec<OutputRule> = Vec::new();
    let mut pending = colors;
    let ghost cs = pending@;
    assert(pending@ =~= cs.subrange(0, cs.len() as int));
    let mut i: usize = 0;
    while i < outs.len()
        invariant
            i <= outs@.len(),
            outs@.len() == cs.len(),
            pending@ == cs.subrange(i as int, cs.len() as int),
            cs == colors@,
            rules@.len() == i,
            forall|j: int| 0 <= j < i ==> #[trigger] section_done(outs@[j], cs[j], rules@[j]),
            views(warns@) == warnings_upto(outs@, cs, i as int),
        decreases outs@.len() - i,
    {
        let c = pending.remove(0);
        assert(c == cs[i as int]);
        assert(pending@ =~= cs.subrange(i + 1, cs.len() as int));
        let (w, res) = section_step(&outs[i], c);
        push_warning(&mut warns, w);
        match res {
            Ok(rule) => {
                let ghost r0 = rules@;
                rules.push(rule);
                assert forall|j: int| 0 <= j < i + 1 implies #[trigger] section_done(
                    outs@[j],
                    cs[j],
                    rules@[j],
                ) by {
                    if j < i {
                        assert(rules@[j] == r0[j]);
                    }
                }
            },
            Err(m) => {
                proof {
                    lemma_refused(outs@, cs, rules@, i as int, m@, views(warns@));
                }
                return (warns, Err(m));
            },
        }
        i += 1;
    }
    proof {
        assert forall|j: int| 0 <= j < outs@.len() implies {
            &&& #[trigger] outs@[j].name is Some
            &&& cs[j] is Ok
            &&& transform_ok(outs@[j])
            &&& rule_of(outs@[j], outs@[j].name->0@, cs[j]->Ok_0, rules@[j])
        } by {
            lemma_section_done(outs@[j], cs[j], rules@[j]);
        }
    }
    (warns, Ok(rules))
}

/// The policy: 1024x640 defaults, the section rules in order, and the
/// command line as the overriding layer.
pub fn finish_policy(settings: &Settings, rules: Vec<OutputRule>) -> (r: Result<OutputPolicy, String>)
    ensures
        match r {
            Ok(p) => {
                &&& !(settings.transform matches Some(t) && transform_named(t@) is None)
                &&& p.default_size == (1024i32, 640i32)
                &&& p.default_scale == 1
                &&& p.default_transform == OutputTransform::Normal
                &&& p.rules@ == rules@
                &&& p.cli.width == settings.width
                &&& p.cli.height == settings.height
                &&& p.cli.scale == settings.scale
                &&& p.cli.transform == match settings.transform {
                    Some(t) => transform_named(t@),
                    None => None,
                }
            },
            Err(m) => settings.transform matches Some(t) && transform_named(t@) is None && m@
                == "Invalid transform \""@ + t@ + "\""@,
        },
{
    let mut policy = OutputPolicy::defaults(1024, 640);
    policy.rules = rules;
    policy.cli.width = settings.width;
    policy.cli.height = settings.height;
    policy.cli.scale = settings.scale;
    match &settings.transform {
        Some(t) => match OutputTransform::parse(t.as_str()) {
            Some(v) => policy.cli.transform = Some(v),
            None => return Err(concat3("Invalid transform \"", t.as_str(), "\"")),
        },
        None => {},
    }
    Ok(policy)
}

} // verus!
