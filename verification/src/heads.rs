//! The heads-changed decisions: what happens to each head of a flush,
//! which configurator a head's backend uses, which heads a windowed
//! backend creates, and the modeline a mirroring remote output takes.

use vstd::prelude::*;
use crate::compositor::BackendKind;
use crate::numeric::{decimal, format_i64};
use crate::output_policy::{
    colorimetry_named, decide_pipewire_spec, decide_sized_spec, decide_vnc_spec, eotf_named,
    ColorimetryMode, EotfMode,
    OutputPolicy, OutputSetup, PipewireOutputSetup, VncOutputSetup,
};
use crate::text::{clone_strings, concat2, concat3, has_prefix, owned, starts_with, views};

verus! {

/// What the flush does with one head.
#[derive(Debug, Clone, Copy, PartialEq, Eq, Structural)]
pub enum HeadAction {
    /// DRM: stage the head on its layout output.
    DrmPrepareEnable,
    /// DRM: detach the head (and drop its output when it was the last).
    DrmDisable,
    /// Configure and enable the head's own output.
    Enable,
    /// A remote head mirroring another output: wait for the source.
    DeferToMirrorSource,
    /// Destroy the output of a head that went away.
    Disable,
    /// Log that the monitor changed, and do nothing about it.
    LogMonitorChange,
    Nothing,
}

/// The per-head rules of a heads-changed flush.  DRM heads are enabled
/// when connected or forced on; other heads when connected and meant for
/// the desktop.
pub open spec fn head_action_spec(
    kind: BackendKind,
    connected: bool,
    enabled: bool,
    changed: bool,
    non_desktop: bool,
    forced: bool,
    has_mirror: bool,
) -> HeadAction {
    if kind == BackendKind::Drm {
        if (connected || forced) && !enabled {
            HeadAction::DrmPrepareEnable
        } else if !(connected || forced) && enabled {
            HeadAction::DrmDisable
        } else if enabled && changed {
            HeadAction::LogMonitorChange
        } else {
            HeadAction::Nothing
        }
    } else if connected && !enabled && !non_desktop {
        if kind == BackendKind::Vnc && has_mirror {
            HeadAction::DeferToMirrorSource
        } else {
            HeadAction::Enable
        }
    } else if !connected && enabled {
        HeadAction::Disable
    } else if enabled && changed {
        HeadAction::LogMonitorChange
    } else {
        HeadAction::Nothing
    }
}

/// What a heads-changed flush does with one head.  On DRM, a head that is
/// connected or forced on and not yet enabled is staged for enabling, and
/// an enabled one that is neither is disabled; nothing else enables or
/// disables a DRM head.  On other backends a connected desktop head that
/// is not enabled is enabled (a VNC head mirroring another output waits
/// for its source instead), and an enabled head that went away is
/// disabled.  A head already in the wanted state is at most logged as
/// changed.
pub proof fn law_head_action(
    kind: BackendKind,
    connected: bool,
    enabled: bool,
    changed: bool,
    non_desktop: bool,
    forced: bool,
    has_mirror: bool,
)
    ensures
        ({
            let r = head_action_spec(kind, connected, enabled, changed, non_desktop, forced, has_mirror);
            &&& kind == BackendKind::Drm ==> {
                &&& (r == HeadAction::DrmPrepareEnable <==> (connected || forced) && !enabled)
                &&& (r == HeadAction::DrmDisable <==> !connected && !forced && enabled)
                &&& r != HeadAction::Enable && r != HeadAction::Disable && r != HeadAction::DeferToMirrorSource
                &&& (r == HeadAction::LogMonitorChange <==> (connected || forced) && enabled && changed)
            }
            &&& kind != BackendKind::Drm ==> {
                &&& (r == HeadAction::Enable <==> connected && !enabled && !non_desktop && !(kind
                    == BackendKind::Vnc && has_mirror))
                &&& (r == HeadAction::DeferToMirrorSource <==> connected && !enabled && !non_desktop
                    && kind == BackendKind::Vnc && has_mirror)
                &&& (r == HeadAction::Disable <==> !connected && enabled)
                &&& r != HeadAction::DrmPrepareEnable && r != HeadAction::DrmDisable
                &&& (r == HeadAction::LogMonitorChange <==> connected && enabled && changed)
            }
        }),
{
}

/// `forced` is the head's `force-on=` (DRM only); `has_mirror` whether
/// its section carries `mirror-of=`.
pub fn head_action(
    kind: BackendKind,
    connected: bool,
    enabled: bool,
    changed: bool,
    non_desktop: bool,
    forced: bool,
    has_mirror: bool,
) -> (r: HeadAction)
    ensures
        r == head_action_spec(kind, connected, enabled, changed, non_desktop, forced, has_mirror),
{
    if kind == BackendKind::Drm {
        if (connected || forced) && !enabled {
            HeadAction::DrmPrepareEnable
        } else if !(connected || forced) && enabled {
            HeadAction::DrmDisable
        } else if enabled && changed {
            HeadAction::LogMonitorChange
        } else {
            HeadAction::Nothing
        }
    } else if connected && !enabled && !non_desktop {
        if kind == BackendKind::Vnc && has_mirror {
            HeadAction::DeferToMirrorSource
        } else {
            HeadAction::Enable
        }
    } else if !connected && enabled {
        HeadAction::Disable
    } else if enabled && changed {
        HeadAction::LogMonitorChange
    } else {
        HeadAction::Nothing
    }
}

/// The monitor-change line.
pub fn monitor_change_line(name: &str) -> (r: String)
    ensures
        r@ == "Detected a monitor change on head '"@ + name@
            + "', not bothering to do anything about it."@,
{
    let a = concat2("Detected a monitor change on head '", name);
    concat2(a.as_str(), "', not bothering to do anything about it.")
}

/// Which windowed-output API a windowed head is driven through.
#[derive(Debug, Clone, Copy, PartialEq, Eq, Structural)]
pub enum WindowedApi {
    Headless,
    X11,
    Wayland,
}

impl WindowedApi {
    /// The plugin API name libweston registers it under.
    pub fn name(&self) -> (r: &'static str)
        ensures
            r@ == match *self {
                WindowedApi::Headless => "weston_windowed_output_api_headless_v2"@,
                WindowedApi::X11 => "weston_windowed_output_api_x11_v2"@,
                WindowedApi::Wayland => "weston_windowed_output_api_wayland_v2"@,
            },
    {
        match self {
            WindowedApi::Headless => "weston_windowed_output_api_headless_v2",
            WindowedApi::X11 => "weston_windowed_output_api_x11_v2",
            WindowedApi::Wayland => "weston_windowed_output_api_wayland_v2",
        }
    }
}

/// The per-backend configure decision.
#[derive(Debug, Clone, PartialEq)]
pub enum HeadSetup {
    Windowed(OutputSetup, WindowedApi),
    Vnc(VncOutputSetup),
    Pipewire(PipewireOutputSetup),
}

/// The configurator a backend's heads take, with its default size;
/// `None` when the policy leaves the head off, and for DRM, whose heads
/// go through the layout-output path instead.
pub open spec fn head_setup_spec(p: OutputPolicy, kind: BackendKind, name: Seq<char>) -> Option<
    HeadSetup,
> {
    match kind {
        BackendKind::Headless => match decide_sized_spec(p, name, p.default_size) {
            Some(s) => Some(HeadSetup::Windowed(s, WindowedApi::Headless)),
            None => None,
        },
        BackendKind::X11 => match decide_sized_spec(p, name, (1024i32, 600i32)) {
            Some(s) => Some(HeadSetup::Windowed(s, WindowedApi::X11)),
            None => None,
        },
        BackendKind::Wayland => match decide_sized_spec(p, name, (1024i32, 640i32)) {
            Some(s) => Some(HeadSetup::Windowed(s, WindowedApi::Wayland)),
            None => None,
        },
        BackendKind::Vnc => match decide_vnc_spec(p, name) {
            Some(s) => Some(HeadSetup::Vnc(s)),
            None => None,
        },
        BackendKind::Pipewire => match decide_pipewire_spec(p, name) {
            Some(s) => Some(HeadSetup::Pipewire(s)),
            None => None,
        },
        BackendKind::Drm => None,
    }
}

pub fn head_setup_for(p: &OutputPolicy, kind: BackendKind, name: &str) -> (r: Option<HeadSetup>)
    ensures
        r == head_setup_spec(*p, kind, name@),
{
    match kind {
        BackendKind::Headless => match p.decide(name) {
            Some(s) => Some(HeadSetup::Windowed(s, WindowedApi::Headless)),
            None => None,
        },
        BackendKind::X11 => match p.decide_sized(name, (1024, 600)) {
            Some(s) => Some(HeadSetup::Windowed(s, WindowedApi::X11)),
            None => None,
        },
        BackendKind::Wayland => match p.decide_sized(name, (1024, 640)) {
            Some(s) => Some(HeadSetup::Windowed(s, WindowedApi::Wayland)),
            None => None,
        },
        BackendKind::Vnc => match p.decide_vnc(name) {
            Some(s) => Some(HeadSetup::Vnc(s)),
            None => None,
        },
        BackendKind::Pipewire => match p.decide_pipewire(name) {
            Some(s) => Some(HeadSetup::Pipewire(s)),
            None => None,
        },
        BackendKind::Drm => None,
    }
}

/// The section names with `prefix`, in file order, at most `count`.
pub open spec fn prefixed_names(names: Seq<Seq<char>>, prefix: Seq<char>, count: int) -> Seq<
    Seq<char>,
>
    decreases names.len(),
{
    if names.len() == 0 {
        Seq::empty()
    } else {
        let r = prefixed_names(names.drop_last(), prefix, count);
        if has_prefix(names.last(), prefix) && r.len() < count {
            r.push(names.last())
        } else {
            r
        }
    }
}

/// `base` followed by `i` in decimal, for `i` from `from` to `count - 1`.
pub open spec fn default_names(base: Seq<char>, from: int, count: int) -> Seq<Seq<char>>
    decreases count - from,
{
    if from >= count {
        Seq::empty()
    } else {
        seq![base + decimal(from)] + default_names(base, from + 1, count)
    }
}

/// The heads a windowed backend creates: the sections whose name starts
/// with the backend's prefix, in file order, up to `count`; then
/// `<base><i>` for the rest up to `count`.
pub open spec fn windowed_head_names_spec(
    names: Seq<Seq<char>>,
    prefix: Seq<char>,
    base: Seq<char>,
    count: int,
) -> Seq<Seq<char>> {
    let named = prefixed_names(names, prefix, count);
    named + default_names(base, named.len() as int, count)
}

proof fn lemma_prefixed_len(names: Seq<Seq<char>>, prefix: Seq<char>, count: int)
    requires
        count >= 0,
    ensures
        prefixed_names(names, prefix, count).len() <= count,
    decreases names.len(),
{
    if names.len() > 0 {
        lemma_prefixed_len(names.drop_last(), prefix, count);
    }
}

proof fn lemma_prefixed_nonpositive(names: Seq<Seq<char>>, prefix: Seq<char>, count: int)
    requires
        count <= 0,
    ensures
        prefixed_names(names, prefix, count).len() == 0,
    decreases names.len(),
{
    if names.len() > 0 {
        lemma_prefixed_nonpositive(names.drop_last(), prefix, count);
    }
}

pub fn windowed_head_names(names: &Vec<String>, prefix: &str, base: &str, count: i32) -> (r: Vec<
    String,
>)
    ensures
        views(r@) == windowed_head_names_spec(views(names@), prefix@, base@, count as int),
{
    let ghost ns = views(names@);
    let mut out: Vec<String> = Vec::new();
    let mut i: usize = 0;
    while i < names.len()
        invariant
            i <= names@.len(),
            ns == views(names@),
            views(out@) == prefixed_names(ns.take(i as int), prefix@, count as int),
        decreases names@.len() - i,
    {
        assert(ns.take(i + 1).drop_last() =~= ns.take(i as int));
        assert(ns.take(i + 1).last() == names@[i as int]@);
        if starts_with(names[i].as_str(), prefix) && count > 0 && out.len() < count as usize {
            out.push(names[i].clone());
            assert(views(out@) =~= prefixed_names(ns.take(i as int), prefix@, count as int).push(
                names@[i as int]@,
            ));
        }
        i += 1;
    }
    assert(ns.take(i as int) =~= ns);
    let ghost named = views(out@);
    proof {
        if count >= 0 {
            lemma_prefixed_len(ns, prefix@, count as int);
        } else {
            lemma_prefixed_nonpositive(ns, prefix@, count as int);
        }
    }
    assert(out@.len() <= 0x7fff_ffff);
    let mut k: i64 = out.len() as i64;
    while k < count as i64
        invariant
            count >= 0 ==> named.len() <= count,
            named.len() <= k,
            k <= (if count >= named.len() { count as int } else { named.len() as int }),
            views(out@) + default_names(base@, k as int, count as int) == named + default_names(
                base@,
                named.len() as int,
                count as int,
            ),
        decreases count - k,
    {
        let d = format_i64(k);
        let name = concat2(base, d.as_str());
        let ghost before = views(out@);
        out.push(name);
        assert(views(out@) =~= before.push(base@ + decimal(k as int)));
        assert(default_names(base@, k as int, count as int) =~= seq![base@ + decimal(k as int)]
            + default_names(base@, k + 1, count as int));
        assert(views(out@) + default_names(base@, k + 1, count as int) =~= before
            + default_names(base@, k as int, count as int));
        k += 1;
    }
    assert(default_names(base@, k as int, count as int) =~= Seq::<Seq<char>>::empty());
    assert(views(out@) =~= views(out@) + default_names(base@, k as int, count as int));
    out
}

/// A video mode.
#[derive(Debug, Clone, Copy, PartialEq, Eq, Structural)]
pub struct ModeInfo {
    pub width: i32,
    pub height: i32,
    pub refresh: i32,
}

/// `v / d` as Rust's integer division computes it (towards zero).
pub open spec fn trunc_div(v: int, d: int) -> int {
    if v >= 0 {
        v / d
    } else {
        -((-v) / d)
    }
}

/// The modeline a remote output mirroring `src` takes: the source's
/// native mode when it has one (width > 0), else its current mode,
/// divided by the remote output's scale (at least 1); `None` when the
/// source has no usable mode.
pub open spec fn mirror_mode_spec(native: ModeInfo, current: Option<ModeInfo>, remote_scale: i32) -> Option<
    ModeInfo,
> {
    let s: int = if remote_scale < 1 {
        1
    } else {
        remote_scale as int
    };
    let src = if native.width > 0 {
        Some(native)
    } else {
        current
    };
    match src {
        Some(m) => Some(
            ModeInfo {
                width: trunc_div(m.width as int, s) as i32,
                height: trunc_div(m.height as int, s) as i32,
                refresh: m.refresh,
            },
        ),
        None => None,
    }
}

fn div_toward_zero(v: i32, d: i32) -> (r: i32)
    requires
        d >= 1,
    ensures
        r == trunc_div(v as int, d as int),
{
    let w = v as i64;
    let q: i64 = if w >= 0 {
        w / (d as i64)
    } else {
        -((-w) / (d as i64))
    };
    proof {
        let dd = d as int;
        if w >= 0 {
            let ww = w as int;
            assert(0 <= ww / dd <= ww) by (nonlinear_arith)
                requires
                    ww >= 0,
                    dd >= 1,
            ;
        } else {
            let nw = -(w as int);
            assert(0 <= nw / dd <= nw) by (nonlinear_arith)
                requires
                    nw >= 0,
                    dd >= 1,
            ;
        }
    }
    q as i32
}

pub fn mirror_mode(native: ModeInfo, current: Option<ModeInfo>, remote_scale: i32) -> (r: Option<
    ModeInfo,
>)
    ensures
        r == mirror_mode_spec(native, current, remote_scale),
{
    let s = if remote_scale < 1 {
        1
    } else {
        remote_scale
    };
    let src = if native.width > 0 {
        Some(native)
    } else {
        current
    };
    match src {
        Some(m) => Some(
            ModeInfo {
                width: div_toward_zero(m.width, s),
                height: div_toward_zero(m.height, s),
                refresh: m.refresh,
            },
        ),
        None => None,
    }
}

/// Whether rule `i` is the first that mirrors `source`.
pub open spec fn first_mirror_of(p: OutputPolicy, source: Seq<char>, i: int) -> bool {
    &&& 0 <= i < p.rules@.len()
    &&& p.rules@[i].mirror_of is Some
    &&& p.rules@[i].mirror_of->0@ == source
    &&& forall|j: int|
        0 <= j < i ==> !(#[trigger] p.rules@[j].mirror_of is Some && p.rules@[j].mirror_of->0@
            == source)
}

/// Whether some rule mirrors `source`.
pub open spec fn mirrored(p: OutputPolicy, source: Seq<char>) -> bool {
    exists|i: int|
        0 <= i < p.rules@.len() && (#[trigger] p.rules@[i].mirror_of) is Some
            && p.rules@[i].mirror_of->0@ == source
}

/// A native output named `source` was created: the name of the remote
/// head to enable as its mirror, if any.  An output of a remote backend
/// is never a mirror source; else the first rule with `mirror-of` equal
/// to the output's name names the head.
pub fn mirror_target(p: &OutputPolicy, source_remote: bool, source: &str) -> (r: Option<String>)
    ensures
        r is None <==> (source_remote || !mirrored(*p, source@)),
        r matches Some(n) ==> exists|i: int|
            first_mirror_of(*p, source@, i) && #[trigger] p.rules@[i].name@ == n@,
{
    if source_remote {
        return None;
    }
    match p.mirror_rule_for_source(source) {
        Some(rule) => Some(owned(rule.name.as_str())),
        None => None,
    }
}

/// The configurator the mirror head takes: none when it is already
/// enabled (it is left alone), when its backend is not one the frontend
/// loaded, or when the policy leaves it off.
pub fn mirror_setup(p: &OutputPolicy, head_enabled: bool, head_kind: Option<BackendKind>, name: &str)
    -> (r: Option<HeadSetup>)
    ensures
        r == if head_enabled || head_kind is None {
            None
        } else {
            head_setup_spec(*p, head_kind->0, name@)
        },
{
    if head_enabled {
        return None;
    }
    match head_kind {
        Some(k) => head_setup_for(p, k, name),
        None => None,
    }
}

/// The bit libweston gives an EOTF mode.
pub open spec fn eotf_bit(m: EotfMode) -> u32 {
    match m {
        EotfMode::Sdr => 1,
        EotfMode::HdrGamma => 2,
        EotfMode::St2084 => 4,
        EotfMode::Hlg => 8,
    }
}

/// The name printed for an EOTF mode.
pub open spec fn eotf_name(m: EotfMode) -> Seq<char> {
    match m {
        EotfMode::Sdr => "sdr"@,
        EotfMode::HdrGamma => "hdr-gamma"@,
        EotfMode::St2084 => "st2084"@,
        EotfMode::Hlg => "hlg"@,
    }
}

/// The bit libweston gives a colorimetry mode.
pub open spec fn colorimetry_bit(m: ColorimetryMode) -> u32 {
    match m {
        ColorimetryMode::Default => 1,
        ColorimetryMode::Bt2020Cycc => 2,
        ColorimetryMode::Bt2020Ycc => 4,
        ColorimetryMode::Bt2020Rgb => 8,
        ColorimetryMode::P3d65 => 16,
        ColorimetryMode::P3dci => 32,
        ColorimetryMode::Ictcp => 64,
    }
}

/// The name printed for a colorimetry mode.
pub open spec fn colorimetry_name(m: ColorimetryMode) -> Seq<char> {
    match m {
        ColorimetryMode::Default => "default"@,
        ColorimetryMode::Bt2020Cycc => "bt2020cycc"@,
        ColorimetryMode::Bt2020Ycc => "bt2020ycc"@,
        ColorimetryMode::Bt2020Rgb => "bt2020rgb"@,
        ColorimetryMode::P3d65 => "p3d65"@,
        ColorimetryMode::P3dci => "p3dci"@,
        ColorimetryMode::Ictcp => "ictcp"@,
    }
}

/// The mode names an error line prints are the names that select those
/// modes in the configuration.
pub proof fn law_color_mode_names_round_trip(e: EotfMode, c: ColorimetryMode)
    ensures
        eotf_named(eotf_name(e)) == Some(e),
        colorimetry_named(colorimetry_name(c)) == Some(c),
{
    reveal_strlit("sdr");
    reveal_strlit("hdr-gamma");
    reveal_strlit("st2084");
    reveal_strlit("hlg");
    reveal_strlit("default");
    reveal_strlit("bt2020cycc");
    reveal_strlit("bt2020ycc");
    reveal_strlit("bt2020rgb");
    reveal_strlit("p3d65");
    reveal_strlit("p3dci");
    reveal_strlit("ictcp");
    assert("sdr"@.len() == 3 && "hdr-gamma"@.len() == 9 && "st2084"@.len() == 6);
    assert("hlg"@.len() == 3 && "sdr"@[0] == 's' && "hlg"@[0] == 'h');
    assert("default"@.len() == 7 && "bt2020cycc"@.len() == 10 && "bt2020ycc"@.len() == 9);
    assert("bt2020rgb"@.len() == 9 && "bt2020ycc"@[6] == 'y' && "bt2020rgb"@[6] == 'r');
    assert("p3d65"@.len() == 5 && "p3dci"@.len() == 5 && "ictcp"@.len() == 5);
    assert("p3d65"@[3] == '6' && "p3dci"@[3] == 'c' && "ictcp"@[0] == 'i' && "p3d65"@[0] == 'p');
    assert("p3dci"@[0] == 'p');
}

fn eotf_bit_exec(m: EotfMode) -> (r: u32)
    ensures
        r == eotf_bit(m),
{
    match m {
        EotfMode::Sdr => 1,
        EotfMode::HdrGamma => 2,
        EotfMode::St2084 => 4,
        EotfMode::Hlg => 8,
    }
}

fn eotf_name_exec(m: EotfMode) -> (r: &'static str)
    ensures
        r@ == eotf_name(m),
{
    match m {
        EotfMode::Sdr => "sdr",
        EotfMode::HdrGamma => "hdr-gamma",
        EotfMode::St2084 => "st2084",
        EotfMode::Hlg => "hlg",
    }
}

fn colorimetry_bit_exec(m: ColorimetryMode) -> (r: u32)
    ensures
        r == colorimetry_bit(m),
{
    match m {
        ColorimetryMode::Default => 1,
        ColorimetryMode::Bt2020Cycc => 2,
        ColorimetryMode::Bt2020Ycc => 4,
        ColorimetryMode::Bt2020Rgb => 8,
        ColorimetryMode::P3d65 => 16,
        ColorimetryMode::P3dci => 32,
        ColorimetryMode::Ictcp => 64,
    }
}

fn colorimetry_name_exec(m: ColorimetryMode) -> (r: &'static str)
    ensures
        r@ == colorimetry_name(m),
{
    match m {
        ColorimetryMode::Default => "default",
        ColorimetryMode::Bt2020Cycc => "bt2020cycc",
        ColorimetryMode::Bt2020Ycc => "bt2020ycc",
        ColorimetryMode::Bt2020Rgb => "bt2020rgb",
        ColorimetryMode::P3d65 => "p3d65",
        ColorimetryMode::P3dci => "p3dci",
        ColorimetryMode::Ictcp => "ictcp",
    }
}

/// Whether output `name` can take the EOTF and colorimetry modes its
/// configuration asks for, given the modes it supports (bit sets): the
/// EOTF mode is checked first; a refusal carries the error line.
pub fn color_modes_check(
    name: &str,
    eotf: EotfMode,
    supported_eotf: u32,
    colorimetry: ColorimetryMode,
    supported_colorimetry: u32,
) -> (r: Result<(), String>)
    ensures
        (supported_eotf & eotf_bit(eotf)) == 0 ==> (r matches Err(m) && m@ == "Error: output '"@
            + name@ + "' does not support EOTF mode "@ + eotf_name(eotf) + "."@),
        (supported_eotf & eotf_bit(eotf)) != 0 && (supported_colorimetry & colorimetry_bit(
            colorimetry,
        )) == 0 ==> (r matches Err(m) && m@ == "Error: output '"@ + name@
            + "' does not support colorimetry mode "@ + colorimetry_name(colorimetry) + "."@),
        (supported_eotf & eotf_bit(eotf)) != 0 && (supported_colorimetry & colorimetry_bit(
            colorimetry,
        )) != 0 ==> r is Ok,
{
    if supported_eotf & eotf_bit_exec(eotf) == 0 {
        let a = concat3("Error: output '", name, "' does not support EOTF mode ");
        let b = concat3(a.as_str(), eotf_name_exec(eotf), ".");
        return Err(b);
    }
    if supported_colorimetry & colorimetry_bit_exec(colorimetry) == 0 {
        let a = concat3("Error: output '", name, "' does not support colorimetry mode ");
        let b = concat3(a.as_str(), colorimetry_name_exec(colorimetry), ".");
        return Err(b);
    }
    Ok(())
}

/// The line logged when setting the colour profile `icc` on output
/// `name` failed.
pub fn color_profile_failed_line(icc: &str, name: &str) -> (r: String)
    ensures
        r@ == "Error: failed to set color profile '"@ + icc@ + "' for output "@ + name@,
{
    let a = concat3("Error: failed to set color profile '", icc, "' for output ");
    concat2(a.as_str(), name)
}

/// Whether a VNC output may be resized by its client: a mirror never
/// may, and turning a configured `resizeable` off is logged with the
/// returned line.
pub fn vnc_resizeable(resizeable: bool, mirrored: bool, name: &str) -> (r: (bool, Option<String>))
    ensures
        r.0 == (resizeable && !mirrored),
        r.1 is Some <==> (resizeable && mirrored),
        r.1 matches Some(m) ==> m@ == "Use of mirror_of disables resizing for output "@ + name@,
{
    if mirrored && resizeable {
        (false, Some(concat2("Use of mirror_of disables resizing for output ", name)))
    } else {
        (resizeable, None)
    }
}

/// The line logged when no output could be created for head `name`.
pub fn create_failed_line(name: &str) -> (r: String)
    ensures
        r@ == "Could not create an output for head \""@ + name@ + "\"."@,
{
    concat3("Could not create an output for head \"", name, "\".")
}

/// The line logged when the output of head `name` could not be
/// configured.
pub fn configure_failed_line(name: &str) -> (r: String)
    ensures
        r@ == "Cannot configure output \""@ + name@ + "\"."@,
{
    concat3("Cannot configure output \"", name, "\".")
}

/// The line logged when the modeline `m` is set on the mirror `name`;
/// `scale` is the source's current scale.
pub fn modeline_line(name: &str, m: ModeInfo, scale: i32) -> (r: String)
    ensures
        r@ == "Setting modeline to output '"@ + name@ + "' to "@ + decimal(m.width as int)
            + "x"@ + decimal(m.height as int) + ", scale: "@ + decimal(scale as int),
{
    let w = format_i64(m.width as i64);
    let h = format_i64(m.height as i64);
    let sc = format_i64(scale as i64);
    let a = concat3("Setting modeline to output '", name, "' to ");
    let b = concat3(a.as_str(), w.as_str(), "x");
    let c = concat3(b.as_str(), h.as_str(), ", scale: ");
    concat2(c.as_str(), sc.as_str())
}

/// The line logged when the mirror source `source` of output `name`
/// has no usable mode.
pub fn no_mode_line(source: &str, name: &str) -> (r: String)
    ensures
        r@ == "mirror-of source '"@ + source@ + "' has no usable mode for output '"@ + name@
            + "'"@,
{
    let a = concat3("mirror-of source '", source, "' has no usable mode for output '");
    let b = concat2(a.as_str(), name);
    concat2(b.as_str(), "'")
}

} // verus!
