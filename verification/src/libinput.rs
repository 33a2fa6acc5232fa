//! `[libinput]` device configuration as data: the names the grammar
//! accepts, the resolved section, and the per-device plan (which
//! settings a device gets, given what it can do).

use vstd::prelude::*;
use crate::text::{concat2, concat3, contains_char, owned, str_eq};
use crate::numeric::{decimal, format_i64};

verus! {

/// `libinput_config_accel_profile`, restricted to the two names the
/// configuration accepts.
#[derive(Debug, Clone, Copy, PartialEq, Eq, Structural)]
pub enum AccelProfile {
    Flat,
    Adaptive,
}

pub open spec fn accel_profile_named(s: Seq<char>) -> Option<AccelProfile> {
    if s == "flat"@ {
        Some(AccelProfile::Flat)
    } else if s == "adaptive"@ {
        Some(AccelProfile::Adaptive)
    } else {
        None
    }
}

pub open spec fn accel_profile_name(p: AccelProfile) -> Seq<char> {
    match p {
        AccelProfile::Flat => "flat"@,
        AccelProfile::Adaptive => "adaptive"@,
    }
}

/// libinput's bit for a profile.
pub open spec fn accel_profile_bit(p: AccelProfile) -> u32 {
    match p {
        AccelProfile::Flat => 1,
        AccelProfile::Adaptive => 2,
    }
}

impl AccelProfile {
    pub const NAMES: [&'static str; 2] = ["flat", "adaptive"];

    pub fn parse(s: &str) -> (r: Option<AccelProfile>)
        ensures
            r == accel_profile_named(s@),
    {
        if str_eq(s, "flat") {
            Some(AccelProfile::Flat)
        } else if str_eq(s, "adaptive") {
            Some(AccelProfile::Adaptive)
        } else {
            None
        }
    }

    pub fn name(&self) -> (r: &'static str)
        ensures
            r@ == accel_profile_name(*self),
    {
        match self {
            AccelProfile::Flat => "flat",
            AccelProfile::Adaptive => "adaptive",
        }
    }

    /// `LIBINPUT_CONFIG_ACCEL_PROFILE_*`.
    pub fn bit(&self) -> (r: u32)
        ensures
            r == accel_profile_bit(*self),
    {
        match self {
            AccelProfile::Flat => 1,
            AccelProfile::Adaptive => 2,
        }
    }
}

/// `libinput_config_scroll_method`, by its four configuration names.
#[derive(Debug, Clone, Copy, PartialEq, Eq, Structural)]
pub enum ScrollMethod {
    TwoFinger,
    Edge,
    Button,
    NoScroll,
}

pub open spec fn scroll_method_named(s: Seq<char>) -> Option<ScrollMethod> {
    if s == "two-finger"@ {
        Some(ScrollMethod::TwoFinger)
    } else if s == "edge"@ {
        Some(ScrollMethod::Edge)
    } else if s == "button"@ {
        Some(ScrollMethod::Button)
    } else if s == "none"@ {
        Some(ScrollMethod::NoScroll)
    } else {
        None
    }
}

pub open spec fn scroll_method_name(m: ScrollMethod) -> Seq<char> {
    match m {
        ScrollMethod::TwoFinger => "two-finger"@,
        ScrollMethod::Edge => "edge"@,
        ScrollMethod::Button => "button"@,
        ScrollMethod::NoScroll => "none"@,
    }
}

/// libinput's bit for a method (none is 0).
pub open spec fn scroll_method_bit(m: ScrollMethod) -> u32 {
    match m {
        ScrollMethod::TwoFinger => 1,
        ScrollMethod::Edge => 2,
        ScrollMethod::Button => 4,
        ScrollMethod::NoScroll => 0,
    }
}

impl ScrollMethod {
    pub const NAMES: [&'static str; 4] = ["two-finger", "edge", "button", "none"];

    pub fn parse(s: &str) -> (r: Option<ScrollMethod>)
        ensures
            r == scroll_method_named(s@),
    {
        if str_eq(s, "two-finger") {
            Some(ScrollMethod::TwoFinger)
        } else if str_eq(s, "edge") {
            Some(ScrollMethod::Edge)
        } else if str_eq(s, "button") {
            Some(ScrollMethod::Button)
        } else if str_eq(s, "none") {
            Some(ScrollMethod::NoScroll)
        } else {
            None
        }
    }

    pub fn name(&self) -> (r: &'static str)
        ensures
            r@ == scroll_method_name(*self),
    {
        match self {
            ScrollMethod::TwoFinger => "two-finger",
            ScrollMethod::Edge => "edge",
            ScrollMethod::Button => "button",
            ScrollMethod::NoScroll => "none",
        }
    }

    /// `LIBINPUT_CONFIG_SCROLL_*`.
    pub fn bit(&self) -> (r: u32)
        ensures
            r == scroll_method_bit(*self),
    {
        match self {
            ScrollMethod::TwoFinger => 1,
            ScrollMethod::Edge => 2,
            ScrollMethod::Button => 4,
            ScrollMethod::NoScroll => 0,
        }
    }
}

/// Every accepted name parses back to its value.
pub proof fn law_input_names_round_trip(p: AccelProfile, m: ScrollMethod)
    ensures
        accel_profile_named(accel_profile_name(p)) == Some(p),
        scroll_method_named(scroll_method_name(m)) == Some(m),
{
    reveal_strlit("flat");
    reveal_strlit("adaptive");
    reveal_strlit("two-finger");
    reveal_strlit("edge");
    reveal_strlit("button");
    reveal_strlit("none");
    assert("flat"@.len() == 4 && "adaptive"@.len() == 8);
    assert("two-finger"@.len() == 10 && "button"@.len() == 6);
    assert("edge"@[0] == 'e' && "none"@[0] == 'n');
}

/// A resolved `scroll-button`: the configured name (echoed in the
/// log line) and the evdev code libevdev gave for it.
#[derive(Debug, Clone, PartialEq, Eq)]
pub struct ScrollButton {
    pub name: String,
    pub code: u32,
}

impl ScrollButton {
    /// The button for `name`, given what `libevdev_event_code_from_name`
    /// returned for it (-1 for an unknown name).  A name holding NUL
    /// cannot be passed to C and resolves to nothing.
    pub fn from_lookup(name: &str, code: i32) -> (r: Option<ScrollButton>)
        ensures
            match r {
                Some(b) => !name@.contains('\0') && code >= 0 && b.name@ == name@ && b.code == code,
                None => name@.contains('\0') || code < 0,
            },
    {
        if contains_char(name, '\0') || code < 0 {
            None
        } else {
            Some(ScrollButton { name: owned(name), code: code as u32 })
        }
    }
}

/// The `[libinput]` section, resolved.  `None` means "key absent": the
/// device keeps libinput's own default.  `accel_speed` is `f64` bits.
#[derive(Debug, Clone, Default, PartialEq, Eq)]
pub struct InputConfig {
    pub enable_tap: Option<bool>,
    pub tap_and_drag: Option<bool>,
    pub tap_and_drag_lock: Option<bool>,
    pub disable_while_typing: Option<bool>,
    pub middle_button_emulation: Option<bool>,
    pub left_handed: Option<bool>,
    pub rotation: Option<u32>,
    pub accel_profile: Option<AccelProfile>,
    pub accel_speed: Option<u64>,
    pub natural_scroll: Option<bool>,
    pub scroll_method: Option<ScrollMethod>,
    /// Only consulted when `scroll_method` is `Button`.
    pub scroll_button: Option<ScrollButton>,
}

/// `true` / `false`, as booleans are spelled in the log lines.
pub fn bstr(v: bool) -> (r: &'static str)
    ensures
        r@ == if v {
            "true"@
        } else {
            "false"@
        },
{
    if v {
        "true"
    } else {
        "false"
    }
}

/// What a device can do, as libinput reports it.
#[derive(Debug, Clone, Copy, PartialEq, Eq, Structural, Default)]
pub struct DeviceCaps {
    pub tap_finger_count: i32,
    pub dwt: bool,
    pub middle_emulation: bool,
    pub left_handed: bool,
    pub rotation: bool,
    pub accel: bool,
    /// Bits of the accel profiles the device offers.
    pub accel_profiles: u32,
    pub natural_scroll: bool,
    /// Bits of the scroll methods the device offers.
    pub scroll_methods: u32,
}

/// One device setting; a device's settings are applied in the order
/// of the variants.
#[derive(Debug, Clone, Copy, PartialEq, Eq, Structural)]
pub enum DeviceSetting {
    Tap(bool),
    TapDrag(bool),
    TapDragLock(bool),
    DisableWhileTyping(bool),
    MiddleEmulation(bool),
    LeftHanded(bool),
    Rotation(u32),
    AccelProfile(AccelProfile),
    /// `f64` bits.
    AccelSpeed(u64),
    NaturalScroll(bool),
    ScrollMethod(ScrollMethod),
    ScrollButton(u32),
}

pub open spec fn opt_setting(c: bool, s: DeviceSetting) -> Seq<DeviceSetting> {
    if c {
        seq![s]
    } else {
        Seq::empty()
    }
}

pub open spec fn tap_settings(cfg: InputConfig, caps: DeviceCaps) -> Seq<DeviceSetting> {
    let tap = caps.tap_finger_count > 0;
    opt_setting(tap && cfg.enable_tap is Some, DeviceSetting::Tap(cfg.enable_tap->0))
        + opt_setting(tap && cfg.tap_and_drag is Some, DeviceSetting::TapDrag(cfg.tap_and_drag->0))
        + opt_setting(
        tap && cfg.tap_and_drag_lock is Some,
        DeviceSetting::TapDragLock(cfg.tap_and_drag_lock->0),
    )
}

pub open spec fn switch_settings(cfg: InputConfig, caps: DeviceCaps) -> Seq<DeviceSetting> {
    opt_setting(
        cfg.disable_while_typing is Some && caps.dwt,
        DeviceSetting::DisableWhileTyping(cfg.disable_while_typing->0),
    ) + opt_setting(
        cfg.middle_button_emulation is Some && caps.middle_emulation,
        DeviceSetting::MiddleEmulation(cfg.middle_button_emulation->0),
    ) + opt_setting(
        cfg.left_handed is Some && caps.left_handed,
        DeviceSetting::LeftHanded(cfg.left_handed->0),
    ) + opt_setting(cfg.rotation is Some && caps.rotation, DeviceSetting::Rotation(cfg.rotation->0))
}

pub open spec fn accel_settings(cfg: InputConfig, caps: DeviceCaps) -> Seq<DeviceSetting> {
    opt_setting(
        caps.accel && cfg.accel_profile is Some && accel_profile_bit(cfg.accel_profile->0)
            & caps.accel_profiles != 0,
        DeviceSetting::AccelProfile(cfg.accel_profile->0),
    ) + opt_setting(caps.accel && cfg.accel_speed is Some, DeviceSetting::AccelSpeed(cfg.accel_speed->0))
}

pub open spec fn scroll_settings(cfg: InputConfig, caps: DeviceCaps) -> Seq<DeviceSetting> {
    let method_ok = match cfg.scroll_method {
        Some(m) => m == ScrollMethod::NoScroll || scroll_method_bit(m) & caps.scroll_methods != 0,
        None => false,
    };
    opt_setting(
        cfg.natural_scroll is Some && caps.natural_scroll,
        DeviceSetting::NaturalScroll(cfg.natural_scroll->0),
    ) + opt_setting(method_ok, DeviceSetting::ScrollMethod(cfg.scroll_method->0)) + opt_setting(
        method_ok && cfg.scroll_method == Some(ScrollMethod::Button) && cfg.scroll_button is Some,
        DeviceSetting::ScrollButton(cfg.scroll_button->0.code),
    )
}

/// Configuring one device: what it gets, in application
/// order.  Keys are skipped when absent or when the device lacks the
/// capability; a scroll method other than none must be offered by the
/// device, and the scroll button only goes with the button method.
pub open spec fn device_plan_spec(cfg: InputConfig, caps: DeviceCaps) -> Seq<DeviceSetting> {
    tap_settings(cfg, caps) + switch_settings(cfg, caps) + accel_settings(cfg, caps)
        + scroll_settings(cfg, caps)
}

/// A setting a device may get: the value configured for its key, on a
/// device with the matching capability.
pub open spec fn configured_setting(cfg: InputConfig, caps: DeviceCaps, s: DeviceSetting) -> bool {
    match s {
        DeviceSetting::Tap(v) => cfg.enable_tap == Some(v) && caps.tap_finger_count > 0,
        DeviceSetting::TapDrag(v) => cfg.tap_and_drag == Some(v) && caps.tap_finger_count > 0,
        DeviceSetting::TapDragLock(v) => cfg.tap_and_drag_lock == Some(v) && caps.tap_finger_count > 0,
        DeviceSetting::DisableWhileTyping(v) => cfg.disable_while_typing == Some(v) && caps.dwt,
        DeviceSetting::MiddleEmulation(v) => cfg.middle_button_emulation == Some(v) && caps.middle_emulation,
        DeviceSetting::LeftHanded(v) => cfg.left_handed == Some(v) && caps.left_handed,
        DeviceSetting::Rotation(v) => cfg.rotation == Some(v) && caps.rotation,
        DeviceSetting::AccelProfile(p) => cfg.accel_profile == Some(p) && caps.accel,
        DeviceSetting::AccelSpeed(v) => cfg.accel_speed == Some(v) && caps.accel,
        DeviceSetting::NaturalScroll(v) => cfg.natural_scroll == Some(v) && caps.natural_scroll,
        DeviceSetting::ScrollMethod(m) => cfg.scroll_method == Some(m),
        DeviceSetting::ScrollButton(c) => cfg.scroll_method == Some(ScrollMethod::Button)
            && (cfg.scroll_button matches Some(b) && b.code == c),
    }
}

pub open spec fn all_configured(cfg: InputConfig, caps: DeviceCaps, p: Seq<DeviceSetting>) -> bool {
    forall|k: int| 0 <= k < p.len() ==> configured_setting(cfg, caps, #[trigger] p[k])
}

proof fn lemma_opt_configured(cfg: InputConfig, caps: DeviceCaps, c: bool, x: DeviceSetting)
    requires
        c ==> configured_setting(cfg, caps, x),
    ensures
        all_configured(cfg, caps, opt_setting(c, x)),
        c ==> opt_setting(c, x).contains(x),
{
    if c {
        assert(opt_setting(c, x)[0] == x);
    }
}

proof fn lemma_concat_configured(cfg: InputConfig, caps: DeviceCaps, a: Seq<DeviceSetting>, b: Seq<DeviceSetting>)
    requires
        all_configured(cfg, caps, a),
        all_configured(cfg, caps, b),
    ensures
        all_configured(cfg, caps, a + b),
{
    assert forall|k: int| 0 <= k < (a + b).len() implies configured_setting(cfg, caps, #[trigger] (a + b)[k]) by {
        if k < a.len() {
            assert((a + b)[k] == a[k]);
        } else {
            assert((a + b)[k] == b[k - a.len()]);
        }
    }
}

proof fn lemma_concat_contains(a: Seq<DeviceSetting>, b: Seq<DeviceSetting>, x: DeviceSetting)
    ensures
        a.contains(x) ==> (a + b).contains(x),
        b.contains(x) ==> (a + b).contains(x),
{
    if a.contains(x) {
        let i = choose|i: int| 0 <= i < a.len() && a[i] == x;
        assert((a + b)[i] == x);
    }
    if b.contains(x) {
        let i = choose|i: int| 0 <= i < b.len() && b[i] == x;
        assert((a + b)[a.len() + i] == x);
    }
}

proof fn lemma_in_plan(cfg: InputConfig, caps: DeviceCaps, x: DeviceSetting)
    ensures
        tap_settings(cfg, caps).contains(x) || switch_settings(cfg, caps).contains(x) || accel_settings(
            cfg,
            caps,
        ).contains(x) || scroll_settings(cfg, caps).contains(x) ==> device_plan_spec(cfg, caps).contains(x),
{
    let t = tap_settings(cfg, caps);
    let w = switch_settings(cfg, caps);
    let a = accel_settings(cfg, caps);
    let c = scroll_settings(cfg, caps);
    lemma_concat_contains(t, w, x);
    lemma_concat_contains(t + w, a, x);
    lemma_concat_contains(t + w + a, c, x);
}

proof fn lemma_tap_group(cfg: InputConfig, caps: DeviceCaps)
    ensures
        all_configured(cfg, caps, tap_settings(cfg, caps)),
        cfg.enable_tap matches Some(v) ==> caps.tap_finger_count > 0 ==> tap_settings(cfg, caps).contains(DeviceSetting::Tap(v)),
        cfg.tap_and_drag matches Some(v) ==> caps.tap_finger_count > 0 ==> tap_settings(cfg, caps).contains(DeviceSetting::TapDrag(v)),
        cfg.tap_and_drag_lock matches Some(v) ==> caps.tap_finger_count > 0 ==> tap_settings(cfg, caps).contains(DeviceSetting::TapDragLock(v)),
{
    let tap = caps.tap_finger_count > 0;
    let (c1, x1) = (tap && cfg.enable_tap is Some, DeviceSetting::Tap(cfg.enable_tap->0));
    let (c2, x2) = (tap && cfg.tap_and_drag is Some, DeviceSetting::TapDrag(cfg.tap_and_drag->0));
    let (c3, x3) = (tap && cfg.tap_and_drag_lock is Some, DeviceSetting::TapDragLock(cfg.tap_and_drag_lock->0));
    lemma_opt_configured(cfg, caps, c1, x1);
    lemma_opt_configured(cfg, caps, c2, x2);
    lemma_opt_configured(cfg, caps, c3, x3);
    let (o1, o2, o3) = (opt_setting(c1, x1), opt_setting(c2, x2), opt_setting(c3, x3));
    lemma_concat_configured(cfg, caps, o1, o2);
    lemma_concat_configured(cfg, caps, o1 + o2, o3);
    lemma_concat_contains(o1, o2, x1);
    lemma_concat_contains(o1, o2, x2);
    lemma_concat_contains(o1 + o2, o3, x1);
    lemma_concat_contains(o1 + o2, o3, x2);
    lemma_concat_contains(o1 + o2, o3, x3);
}

proof fn lemma_switch_group(cfg: InputConfig, caps: DeviceCaps)
    ensures
        all_configured(cfg, caps, switch_settings(cfg, caps)),
        cfg.disable_while_typing matches Some(v) ==> caps.dwt ==> switch_settings(cfg, caps).contains(DeviceSetting::DisableWhileTyping(v)),
        cfg.middle_button_emulation matches Some(v) ==> caps.middle_emulation ==> switch_settings(cfg, caps).contains(DeviceSetting::MiddleEmulation(v)),
        cfg.left_handed matches Some(v) ==> caps.left_handed ==> switch_settings(cfg, caps).contains(DeviceSetting::LeftHanded(v)),
        cfg.rotation matches Some(v) ==> caps.rotation ==> switch_settings(cfg, caps).contains(DeviceSetting::Rotation(v)),
{
    let (d1, y1) = (cfg.disable_while_typing is Some && caps.dwt, DeviceSetting::DisableWhileTyping(cfg.disable_while_typing->0));
    let (d2, y2) = (cfg.middle_button_emulation is Some && caps.middle_emulation, DeviceSetting::MiddleEmulation(cfg.middle_button_emulation->0));
    let (d3, y3) = (cfg.left_handed is Some && caps.left_handed, DeviceSetting::LeftHanded(cfg.left_handed->0));
    let (d4, y4) = (cfg.rotation is Some && caps.rotation, DeviceSetting::Rotation(cfg.rotation->0));
    lemma_opt_configured(cfg, caps, d1, y1);
    lemma_opt_configured(cfg, caps, d2, y2);
    lemma_opt_configured(cfg, caps, d3, y3);
    lemma_opt_configured(cfg, caps, d4, y4);
    let (q1, q2, q3, q4) = (opt_setting(d1, y1), opt_setting(d2, y2), opt_setting(d3, y3), opt_setting(d4, y4));
    lemma_concat_configured(cfg, caps, q1, q2);
    lemma_concat_configured(cfg, caps, q1 + q2, q3);
    lemma_concat_configured(cfg, caps, q1 + q2 + q3, q4);
    lemma_concat_contains(q1, q2, y1);
    lemma_concat_contains(q1, q2, y2);
    lemma_concat_contains(q1 + q2, q3, y1);
    lemma_concat_contains(q1 + q2, q3, y2);
    lemma_concat_contains(q1 + q2, q3, y3);
    lemma_concat_contains(q1 + q2 + q3, q4, y1);
    lemma_concat_contains(q1 + q2 + q3, q4, y2);
    lemma_concat_contains(q1 + q2 + q3, q4, y3);
    lemma_concat_contains(q1 + q2 + q3, q4, y4);
}

proof fn lemma_accel_group(cfg: InputConfig, caps: DeviceCaps)
    ensures
        all_configured(cfg, caps, accel_settings(cfg, caps)),
        cfg.accel_speed matches Some(v) ==> caps.accel ==> accel_settings(cfg, caps).contains(DeviceSetting::AccelSpeed(v)),
{
    let (e1, z1) = (
        caps.accel && cfg.accel_profile is Some && accel_profile_bit(cfg.accel_profile->0) & caps.accel_profiles != 0,
        DeviceSetting::AccelProfile(cfg.accel_profile->0),
    );
    let (e2, z2) = (caps.accel && cfg.accel_speed is Some, DeviceSetting::AccelSpeed(cfg.accel_speed->0));
    lemma_opt_configured(cfg, caps, e1, z1);
    lemma_opt_configured(cfg, caps, e2, z2);
    lemma_concat_configured(cfg, caps, opt_setting(e1, z1), opt_setting(e2, z2));
    lemma_concat_contains(opt_setting(e1, z1), opt_setting(e2, z2), z2);
}

proof fn lemma_scroll_group(cfg: InputConfig, caps: DeviceCaps)
    ensures
        all_configured(cfg, caps, scroll_settings(cfg, caps)),
        cfg.natural_scroll matches Some(v) ==> caps.natural_scroll ==> scroll_settings(cfg, caps).contains(DeviceSetting::NaturalScroll(v)),
{
    let method_ok = match cfg.scroll_method {
        Some(m) => m == ScrollMethod::NoScroll || scroll_method_bit(m) & caps.scroll_methods != 0,
        None => false,
    };
    let (f1, w1) = (cfg.natural_scroll is Some && caps.natural_scroll, DeviceSetting::NaturalScroll(cfg.natural_scroll->0));
    let (f2, w2) = (method_ok, DeviceSetting::ScrollMethod(cfg.scroll_method->0));
    let (f3, w3) = (
        method_ok && cfg.scroll_method == Some(ScrollMethod::Button) && cfg.scroll_button is Some,
        DeviceSetting::ScrollButton(cfg.scroll_button->0.code),
    );
    lemma_opt_configured(cfg, caps, f1, w1);
    lemma_opt_configured(cfg, caps, f2, w2);
    lemma_opt_configured(cfg, caps, f3, w3);
    let (r1, r2, r3) = (opt_setting(f1, w1), opt_setting(f2, w2), opt_setting(f3, w3));
    lemma_concat_configured(cfg, caps, r1, r2);
    lemma_concat_configured(cfg, caps, r1 + r2, r3);
    lemma_concat_contains(r1, r2, w1);
    lemma_concat_contains(r1 + r2, r3, w1);

}

/// A device gets only configured values, each on a device able to take
/// it; and every boolean key that is set, every rotation and every accel
/// speed reaches a device with the capability, with its configured value.
pub proof fn law_device_plan_follows_config(cfg: InputConfig, caps: DeviceCaps)
    ensures
        forall|k: int|
            0 <= k < device_plan_spec(cfg, caps).len() ==> configured_setting(
                cfg,
                caps,
                #[trigger] device_plan_spec(cfg, caps)[k],
            ),
        cfg.natural_scroll matches Some(v) ==> caps.natural_scroll ==> device_plan_spec(cfg, caps).contains(
            DeviceSetting::NaturalScroll(v),
        ),
        cfg.enable_tap matches Some(v) ==> caps.tap_finger_count > 0 ==> device_plan_spec(cfg, caps).contains(
            DeviceSetting::Tap(v),
        ),
        cfg.tap_and_drag matches Some(v) ==> caps.tap_finger_count > 0 ==> device_plan_spec(cfg, caps).contains(
            DeviceSetting::TapDrag(v),
        ),
        cfg.tap_and_drag_lock matches Some(v) ==> caps.tap_finger_count > 0 ==> device_plan_spec(
            cfg,
            caps,
        ).contains(DeviceSetting::TapDragLock(v)),
        cfg.disable_while_typing matches Some(v) ==> caps.dwt ==> device_plan_spec(cfg, caps).contains(
            DeviceSetting::DisableWhileTyping(v),
        ),
        cfg.middle_button_emulation matches Some(v) ==> caps.middle_emulation ==> device_plan_spec(
            cfg,
            caps,
        ).contains(DeviceSetting::MiddleEmulation(v)),
        cfg.left_handed matches Some(v) ==> caps.left_handed ==> device_plan_spec(cfg, caps).contains(
            DeviceSetting::LeftHanded(v),
        ),
        cfg.rotation matches Some(v) ==> caps.rotation ==> device_plan_spec(cfg, caps).contains(
            DeviceSetting::Rotation(v),
        ),
        cfg.accel_speed matches Some(v) ==> caps.accel ==> device_plan_spec(cfg, caps).contains(
            DeviceSetting::AccelSpeed(v),
        ),
{
    lemma_tap_group(cfg, caps);
    lemma_switch_group(cfg, caps);
    lemma_accel_group(cfg, caps);
    lemma_scroll_group(cfg, caps);
    let t = tap_settings(cfg, caps);
    let w = switch_settings(cfg, caps);
    let a = accel_settings(cfg, caps);
    let c = scroll_settings(cfg, caps);
    lemma_concat_configured(cfg, caps, t, w);
    lemma_concat_configured(cfg, caps, t + w, a);
    lemma_concat_configured(cfg, caps, t + w + a, c);
    assert(all_configured(cfg, caps, device_plan_spec(cfg, caps)));
    if let Some(v) = cfg.natural_scroll {
        lemma_in_plan(cfg, caps, DeviceSetting::NaturalScroll(v));
    }
    if let Some(v) = cfg.enable_tap {
        lemma_in_plan(cfg, caps, DeviceSetting::Tap(v));
    }
    if let Some(v) = cfg.tap_and_drag {
        lemma_in_plan(cfg, caps, DeviceSetting::TapDrag(v));
    }
    if let Some(v) = cfg.tap_and_drag_lock {
        lemma_in_plan(cfg, caps, DeviceSetting::TapDragLock(v));
    }
    if let Some(v) = cfg.disable_while_typing {
        lemma_in_plan(cfg, caps, DeviceSetting::DisableWhileTyping(v));
    }
    if let Some(v) = cfg.middle_button_emulation {
        lemma_in_plan(cfg, caps, DeviceSetting::MiddleEmulation(v));
    }
    if let Some(v) = cfg.left_handed {
        lemma_in_plan(cfg, caps, DeviceSetting::LeftHanded(v));
    }
    if let Some(v) = cfg.rotation {
        lemma_in_plan(cfg, caps, DeviceSetting::Rotation(v));
    }
    if let Some(v) = cfg.accel_speed {
        lemma_in_plan(cfg, caps, DeviceSetting::AccelSpeed(v));
    }
}

fn push_if(v: &mut Vec<DeviceSetting>, c: bool, s: DeviceSetting)
    ensures
        final(v)@ == old(v)@ + opt_setting(c, s),
{
    if c {
        v.push(s);
    }
    assert(final(v)@ =~= old(v)@ + opt_setting(c, s));
}

fn push_tap(v: &mut Vec<DeviceSetting>, cfg: &InputConfig, caps: DeviceCaps)
    ensures
        final(v)@ == old(v)@ + tap_settings(*cfg, caps),
{
    let tap = caps.tap_finger_count > 0;
    push_if(v, tap && cfg.enable_tap.is_some(), DeviceSetting::Tap(unwrap_bool(cfg.enable_tap)));
    push_if(v, tap && cfg.tap_and_drag.is_some(), DeviceSetting::TapDrag(unwrap_bool(cfg.tap_and_drag)));
    push_if(
        v,
        tap && cfg.tap_and_drag_lock.is_some(),
        DeviceSetting::TapDragLock(unwrap_bool(cfg.tap_and_drag_lock)),
    );
    assert(final(v)@ =~= old(v)@ + tap_settings(*cfg, caps));
}

fn push_switches(v: &mut Vec<DeviceSetting>, cfg: &InputConfig, caps: DeviceCaps)
    ensures
        final(v)@ == old(v)@ + switch_settings(*cfg, caps),
{
    push_if(
        v,
        cfg.disable_while_typing.is_some() && caps.dwt,
        DeviceSetting::DisableWhileTyping(unwrap_bool(cfg.disable_while_typing)),
    );
    push_if(
        v,
        cfg.middle_button_emulation.is_some() && caps.middle_emulation,
        DeviceSetting::MiddleEmulation(unwrap_bool(cfg.middle_button_emulation)),
    );
    push_if(
        v,
        cfg.left_handed.is_some() && caps.left_handed,
        DeviceSetting::LeftHanded(unwrap_bool(cfg.left_handed)),
    );
    let rot = match cfg.rotation {
        Some(r) => r,
        None => 0,
    };
    push_if(v, cfg.rotation.is_some() && caps.rotation, DeviceSetting::Rotation(rot));
    assert(final(v)@ =~= old(v)@ + switch_settings(*cfg, caps));
}

fn push_accel(v: &mut Vec<DeviceSetting>, cfg: &InputConfig, caps: DeviceCaps)
    ensures
        final(v)@ == old(v)@ + accel_settings(*cfg, caps),
{
    let (prof_ok, prof) = match cfg.accel_profile {
        Some(p) => (p.bit() & caps.accel_profiles != 0, p),
        None => (false, AccelProfile::Flat),
    };
    push_if(v, caps.accel && cfg.accel_profile.is_some() && prof_ok, DeviceSetting::AccelProfile(prof));
    let speed = match cfg.accel_speed {
        Some(s) => s,
        None => 0,
    };
    push_if(v, caps.accel && cfg.accel_speed.is_some(), DeviceSetting::AccelSpeed(speed));
    assert(final(v)@ =~= old(v)@ + accel_settings(*cfg, caps));
}

fn push_scroll(v: &mut Vec<DeviceSetting>, cfg: &InputConfig, caps: DeviceCaps)
    ensures
        final(v)@ == old(v)@ + scroll_settings(*cfg, caps),
{
    push_if(
        v,
        cfg.natural_scroll.is_some() && caps.natural_scroll,
        DeviceSetting::NaturalScroll(unwrap_bool(cfg.natural_scroll)),
    );
    let (method_ok, method) = match cfg.scroll_method {
        Some(m) => (m == ScrollMethod::NoScroll || m.bit() & caps.scroll_methods != 0, m),
        None => (false, ScrollMethod::NoScroll),
    };
    push_if(v, method_ok, DeviceSetting::ScrollMethod(method));
    let (has_button, code) = match &cfg.scroll_button {
        Some(b) => (true, b.code),
        None => (false, 0),
    };
    push_if(
        v,
        method_ok && cfg.scroll_method == Some(ScrollMethod::Button) && has_button,
        DeviceSetting::ScrollButton(code),
    );
    assert(final(v)@ =~= old(v)@ + scroll_settings(*cfg, caps));
}

/// The settings a device gets, in application order.
pub fn device_plan(cfg: &InputConfig, caps: DeviceCaps) -> (r: Vec<DeviceSetting>)
    ensures
        r@ == device_plan_spec(*cfg, caps),
{
    let mut v: Vec<DeviceSetting> = Vec::new();
    push_tap(&mut v, cfg, caps);
    push_switches(&mut v, cfg, caps);
    push_accel(&mut v, cfg, caps);
    push_scroll(&mut v, cfg, caps);
    assert(v@ =~= device_plan_spec(*cfg, caps));
    v
}

fn unwrap_bool(o: Option<bool>) -> (r: bool)
    ensures
        o is Some ==> r == o->0,
{
    match o {
        Some(b) => b,
        None => false,
    }
}

/// The line logged before a device is configured.
pub fn device_line(name: &str) -> (r: String)
    ensures
        r@ == "libinput: configuring device \""@ + name@ + "\"."@,
{
    concat3("libinput: configuring device \"", name, "\".")
}

/// The indentation before each logged setting.
pub open spec fn setting_indent() -> Seq<char> {
    "          "@
}

/// The spelling of `v` in the log lines.
pub open spec fn bool_word(v: bool) -> Seq<char> {
    if v {
        "true"@
    } else {
        "false"@
    }
}

/// The line logged for one setting, where it holds no float: `button` is the configured scroll-button name.  The speed of
/// `AccelSpeed` is printed with three decimals by the caller.
pub open spec fn setting_line_spec(s: DeviceSetting, button: Seq<char>) -> Option<Seq<char>> {
    match s {
        DeviceSetting::Tap(v) => Some(kv("enable-tap="@, bool_word(v), "."@)),
        DeviceSetting::TapDrag(v) => Some(kv("tap-and-drag="@, bool_word(v), "."@)),
        DeviceSetting::TapDragLock(v) => Some(kv("tap-and-drag-lock="@, bool_word(v), "."@)),
        DeviceSetting::DisableWhileTyping(v) => Some(
            kv("disable-while-typing="@, bool_word(v), "."@),
        ),
        DeviceSetting::MiddleEmulation(v) => Some(
            kv("middle-button-emulation="@, bool_word(v), ""@),
        ),
        DeviceSetting::LeftHanded(v) => Some(kv("left-handed="@, bool_word(v), ""@)),
        DeviceSetting::Rotation(d) => Some(kv("rotation="@, decimal(d as int), ""@)),
        DeviceSetting::AccelProfile(p) => Some(kv("accel-profile="@, accel_profile_name(p), ""@)),
        DeviceSetting::AccelSpeed(_) => None,
        DeviceSetting::NaturalScroll(v) => Some(kv("natural-scroll="@, bool_word(v), ""@)),
        DeviceSetting::ScrollMethod(m) => Some(kv("scroll-method="@, scroll_method_name(m), ""@)),
        DeviceSetting::ScrollButton(_) => Some(kv("scroll-button="@, button, ""@)),
    }
}

/// One logged setting: the indentation, the key with its `=`, the
/// value, and what follows it.
pub open spec fn kv(key: Seq<char>, value: Seq<char>, tail: Seq<char>) -> Seq<char> {
    setting_indent() + key + value + tail
}

fn key_value(key: &str, value: &str, tail: &str) -> (r: String)
    ensures
        r@ == kv(key@, value@, tail@),
{
    let head = concat2("          ", key);
    proof {
        reveal_strlit("          ");
    }
    let r = concat3(head.as_str(), value, tail);
    assert(r@ =~= kv(key@, value@, tail@));
    r
}

/// The log line for `s` (see `setting_line_spec`).
pub fn setting_line(s: DeviceSetting, button: &str) -> (r: Option<String>)
    ensures
        match r {
            Some(l) => setting_line_spec(s, button@) == Some(l@),
            None => setting_line_spec(s, button@) is None,
        },
{
    match s {
        DeviceSetting::Tap(v) => Some(key_value("enable-tap=", bstr(v), ".")),
        DeviceSetting::TapDrag(v) => Some(key_value("tap-and-drag=", bstr(v), ".")),
        DeviceSetting::TapDragLock(v) => Some(key_value("tap-and-drag-lock=", bstr(v), ".")),
        DeviceSetting::DisableWhileTyping(v) => Some(
            key_value("disable-while-typing=", bstr(v), "."),
        ),
        DeviceSetting::MiddleEmulation(v) => Some(
            key_value("middle-button-emulation=", bstr(v), ""),
        ),
        DeviceSetting::LeftHanded(v) => Some(key_value("left-handed=", bstr(v), "")),
        DeviceSetting::Rotation(d) => {
            let n = format_i64(d as i64);
            Some(key_value("rotation=", n.as_str(), ""))
        },
        DeviceSetting::AccelProfile(p) => Some(key_value("accel-profile=", p.name(), "")),
        DeviceSetting::AccelSpeed(_) => None,
        DeviceSetting::NaturalScroll(v) => Some(key_value("natural-scroll=", bstr(v), "")),
        DeviceSetting::ScrollMethod(m) => Some(key_value("scroll-method=", m.name(), "")),
        DeviceSetting::ScrollButton(_) => Some(key_value("scroll-button=", button, "")),
    }
}

} // verus!
