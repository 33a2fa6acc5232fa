//! Compositor bring-up options: what each backend loader is given, and
//! how the resolved settings become those options.

use vstd::prelude::*;
use crate::resolve::{Renderer, Settings};
use crate::text::{clone_opt, concat2};
use crate::numeric::{decimal, format_i64};

verus! {

#[derive(Debug, Clone, Copy, PartialEq, Eq, Structural)]
pub enum BackendKind {
    Headless,
    Vnc,
    X11,
    Wayland,
    Pipewire,
    Drm,
}

/// Headless backend options.
#[derive(Debug, Clone, Default, PartialEq, Eq)]
pub struct HeadlessOptions {
    /// `--no-outputs`: create no head at all.
    pub no_outputs: bool,
    /// `--refresh-rate`, mHz.
    pub refresh_mhz: Option<i32>,
}

/// VNC backend options (CLI and `[vnc]`, already merged).
#[derive(Debug, Clone, Default, PartialEq, Eq)]
pub struct VncOptions {
    pub bind_address: Option<String>,
    /// Backend default 5900.
    pub port: Option<i32>,
    /// Hz; 60 otherwise.
    pub refresh_rate_hz: Option<i32>,
    pub tls_cert: Option<String>,
    pub tls_key: Option<String>,
    pub disable_tls: bool,
}

/// DRM/KMS backend options.
#[derive(Debug, Clone, Default, PartialEq, Eq)]
pub struct DrmOptions {
    pub seat_id: Option<String>,
    pub specific_device: Option<String>,
    pub additional_devices: Option<String>,
    /// `[core] gbm-format`, the backend-wide default.
    pub gbm_format: Option<String>,
    /// ms; 0 disables.
    pub pageflip_timeout: u32,
    pub use_pixman_shadow: bool,
    pub current_mode: bool,
    pub continue_without_input: bool,
}

/// X11 backend options.
#[derive(Debug, Clone, Default, PartialEq, Eq)]
pub struct X11Options {
    pub fullscreen: bool,
    pub no_input: bool,
    pub output_count: i32,
}

/// Nested wayland backend options.
#[derive(Debug, Clone, Default, PartialEq, Eq)]
pub struct WaylandOptions {
    pub display_name: Option<String>,
    pub fullscreen: bool,
    pub sprawl: bool,
    pub output_count: i32,
    pub cursor_theme: Option<String>,
    pub cursor_size: i32,
}

/// PipeWire backend options.
#[derive(Debug, Clone, Default, PartialEq, Eq)]
pub struct PipewireOptions {
    pub gbm_format: Option<String>,
    pub num_outputs: i32,
}

/// The `[keyboard]` slice; `None` fields take libweston's defaults.
#[derive(Debug, Clone, Default, PartialEq, Eq)]
pub struct KeyboardConfig {
    pub rules: Option<String>,
    pub model: Option<String>,
    pub layout: Option<String>,
    pub variant: Option<String>,
    pub options: Option<String>,
    pub repeat_rate: Option<i32>,
    pub repeat_delay: Option<i32>,
    pub vt_switching: Option<bool>,
}

#[derive(Debug, Clone, Copy, PartialEq, Eq, Structural)]
pub enum RendererKind {
    Auto,
    Noop,
    Pixman,
    Gl,
}

#[derive(Debug, Clone, Copy, PartialEq, Eq, Structural)]
pub enum CompositorError {
    DisplayCreate,
    LogCtxCreate,
    CompositorCreate,
    BackendLoad,
    WindowedOutputApi,
    HeadCreate,
    SocketAdd,
    SignalSource,
    ShellInit,
    OutputInit,
    Xwayland,
    ColorManager,
}

pub open spec fn compositor_error_text(e: CompositorError) -> Seq<char> {
    match e {
        CompositorError::DisplayCreate => "wl_display_create failed"@,
        CompositorError::LogCtxCreate => "weston_log_ctx_create failed"@,
        CompositorError::CompositorCreate => "weston_compositor_create failed"@,
        CompositorError::BackendLoad => "loading the backend failed"@,
        CompositorError::ColorManager => "loading the color manager failed"@,
        CompositorError::WindowedOutputApi => "windowed output API unavailable"@,
        CompositorError::HeadCreate => "creating the head failed"@,
        CompositorError::SocketAdd => "binding the wayland socket failed"@,
        CompositorError::SignalSource => "installing signal sources failed"@,
        CompositorError::ShellInit => "shell initialization failed"@,
        CompositorError::OutputInit => "configuring the outputs failed"@,
        CompositorError::Xwayland => "loading the xwayland module failed"@,
    }
}

impl CompositorError {
    /// The message, as the startup log prints it.
    pub fn message(&self) -> (r: &'static str)
        ensures
            r@ == compositor_error_text(*self),
    {
        match self {
            CompositorError::DisplayCreate => "wl_display_create failed",
            CompositorError::LogCtxCreate => "weston_log_ctx_create failed",
            CompositorError::CompositorCreate => "weston_compositor_create failed",
            CompositorError::BackendLoad => "loading the backend failed",
            CompositorError::ColorManager => "loading the color manager failed",
            CompositorError::WindowedOutputApi => "windowed output API unavailable",
            CompositorError::HeadCreate => "creating the head failed",
            CompositorError::SocketAdd => "binding the wayland socket failed",
            CompositorError::SignalSource => "installing signal sources failed",
            CompositorError::ShellInit => "shell initialization failed",
            CompositorError::OutputInit => "configuring the outputs failed",
            CompositorError::Xwayland => "loading the xwayland module failed",
        }
    }
}

pub open spec fn renderer_kind_of(r: Renderer) -> RendererKind {
    match r {
        Renderer::Auto => RendererKind::Auto,
        Renderer::Noop => RendererKind::Noop,
        Renderer::Gl => RendererKind::Gl,
        Renderer::Pixman => RendererKind::Pixman,
    }
}

impl RendererKind {
    /// The one global choice, `Auto` included: each backend resolves
    /// `Auto` itself, so the result follows the load order.
    pub fn from_renderer(r: Renderer) -> (k: RendererKind)
        ensures
            k == renderer_kind_of(r),
    {
        match r {
            Renderer::Auto => RendererKind::Auto,
            Renderer::Noop => RendererKind::Noop,
            Renderer::Gl => RendererKind::Gl,
            Renderer::Pixman => RendererKind::Pixman,
        }
    }
}

/// `u32` to `i32` when it fits (`i32::try_from(v).ok()`).
pub open spec fn fit_i32(v: Option<u32>) -> Option<i32> {
    match v {
        Some(x) => if x <= i32::MAX {
            Some(x as i32)
        } else {
            None
        },
        None => None,
    }
}

pub fn fit_i32_exec(v: Option<u32>) -> (r: Option<i32>)
    ensures
        r == fit_i32(v),
{
    match v {
        Some(x) => if x <= 0x7fff_ffff {
            Some(x as i32)
        } else {
            None
        },
        None => None,
    }
}

pub open spec fn count_or_one(v: Option<u32>) -> i32 {
    match fit_i32(v) {
        Some(x) => x,
        None => 1,
    }
}

pub fn headless_options(s: &Settings) -> (o: HeadlessOptions)
    ensures
        o.no_outputs == s.no_outputs,
        o.refresh_mhz == s.refresh_rate,
{
    HeadlessOptions { no_outputs: s.no_outputs, refresh_mhz: s.refresh_rate }
}

pub fn vnc_options(s: &Settings) -> (o: VncOptions)
    ensures
        o.bind_address == s.vnc_bind_address,
        o.port == match s.rdp_vnc_port {
            Some(p) => Some(p as i32),
            None => None,
        },
        o.refresh_rate_hz == fit_i32(s.vnc_refresh_rate),
        o.tls_cert == s.vnc_tls_cert,
        o.tls_key == s.vnc_tls_key,
        o.disable_tls == s.vnc_disable_tls,
{
    VncOptions {
        bind_address: clone_opt(&s.vnc_bind_address),
        port: match s.rdp_vnc_port {
            Some(p) => Some(p as i32),
            None => None,
        },
        refresh_rate_hz: fit_i32_exec(s.vnc_refresh_rate),
        tls_cert: clone_opt(&s.vnc_tls_cert),
        tls_key: clone_opt(&s.vnc_tls_key),
        disable_tls: s.vnc_disable_tls,
    }
}

pub fn x11_options(s: &Settings) -> (o: X11Options)
    ensures
        o.fullscreen == s.fullscreen,
        o.no_input == s.no_input,
        o.output_count == count_or_one(s.output_count),
{
    X11Options {
        fullscreen: s.fullscreen,
        no_input: s.no_input,
        output_count: match fit_i32_exec(s.output_count) {
            Some(n) => n,
            None => 1,
        },
    }
}

pub fn wayland_options(s: &Settings) -> (o: WaylandOptions)
    ensures
        o.display_name == s.wayland_display,
        o.fullscreen == s.fullscreen,
        o.sprawl == s.sprawl,
        o.output_count == count_or_one(s.output_count),
        o.cursor_theme == s.cursor_theme,
        o.cursor_size == s.cursor_size,
{
    WaylandOptions {
        display_name: clone_opt(&s.wayland_display),
        fullscreen: s.fullscreen,
        sprawl: s.sprawl,
        output_count: match fit_i32_exec(s.output_count) {
            Some(n) => n,
            None => 1,
        },
        cursor_theme: clone_opt(&s.cursor_theme),
        cursor_size: s.cursor_size,
    }
}

pub fn pipewire_options(s: &Settings) -> (o: PipewireOptions)
    ensures
        o.gbm_format == s.gbm_format,
        o.num_outputs == count_or_one(s.pipewire_num_outputs),
{
    PipewireOptions {
        gbm_format: clone_opt(&s.gbm_format),
        num_outputs: match fit_i32_exec(s.pipewire_num_outputs) {
            Some(n) => n,
            None => 1,
        },
    }
}

pub fn drm_options(s: &Settings) -> (o: DrmOptions)
    ensures
        o.seat_id == s.drm_seat,
        o.specific_device == s.drm_device,
        o.additional_devices == s.drm_additional_devices,
        o.gbm_format == s.gbm_format,
        o.pageflip_timeout == match s.config.core.pageflip_timeout {
            Some(t) => t,
            None => 0,
        },
        o.use_pixman_shadow == match s.config.core.pixman_shadow {
            Some(b) => b,
            None => true,
        },
        o.current_mode == s.drm_current_mode,
        o.continue_without_input == s.continue_without_input,
{
    DrmOptions {
        seat_id: clone_opt(&s.drm_seat),
        specific_device: clone_opt(&s.drm_device),
        additional_devices: clone_opt(&s.drm_additional_devices),
        gbm_format: clone_opt(&s.gbm_format),
        pageflip_timeout: match s.config.core.pageflip_timeout {
            Some(t) => t,
            None => 0,
        },
        use_pixman_shadow: match s.config.core.pixman_shadow {
            Some(b) => b,
            None => true,
        },
        current_mode: s.drm_current_mode,
        continue_without_input: s.continue_without_input,
    }
}

pub fn keyboard_config(s: &Settings) -> (k: KeyboardConfig)
    ensures
        k.rules == s.config.keyboard.keymap_rules,
        k.model == s.config.keyboard.keymap_model,
        k.layout == s.config.keyboard.keymap_layout,
        k.variant == s.config.keyboard.keymap_variant,
        k.options == s.config.keyboard.keymap_options,
        k.repeat_rate == fit_i32(s.config.keyboard.repeat_rate),
        k.repeat_delay == fit_i32(s.config.keyboard.repeat_delay),
        k.vt_switching == s.config.keyboard.vt_switching,
{
    let kb = &s.config.keyboard;
    KeyboardConfig {
        rules: clone_opt(&kb.keymap_rules),
        model: clone_opt(&kb.keymap_model),
        layout: clone_opt(&kb.keymap_layout),
        variant: clone_opt(&kb.keymap_variant),
        options: clone_opt(&kb.keymap_options),
        repeat_rate: fit_i32_exec(kb.repeat_rate),
        repeat_delay: fit_i32_exec(kb.repeat_delay),
        vt_switching: kb.vt_switching,
    }
}


// ---------------------------------------------------------------------
// Bring-up decisions
// ---------------------------------------------------------------------

/// What happens to `[core] repaint-window`: libweston keeps its own
/// default when the key is absent; a value outside -10..=1000 is logged
/// and ignored.
#[derive(Debug, Clone, Copy, PartialEq, Eq, Structural)]
pub enum RepaintWindow {
    Keep,
    Apply(i32),
    Invalid(i32),
}

/// The line logged for a `repaint-window` outside -10..=1000.
pub fn repaint_window_line(msec: i32) -> (r: String)
    ensures
        r@ == "Invalid repaint_window value in config: "@ + decimal(msec as int),
{
    let n = format_i64(msec as i64);
    concat2("Invalid repaint_window value in config: ", n.as_str())
}

/// The compositor-wide settings applied between compositor creation and
/// backend load.
#[derive(Debug, Clone, Copy, PartialEq, Eq, Structural)]
pub struct StartupTuning {
    pub repeat_rate: i32,
    pub repeat_delay: i32,
    pub vt_switching: bool,
    pub repaint: RepaintWindow,
    /// More than one backend is loaded (libweston's `multi_backend`).
    pub multi_backend: bool,
}

pub open spec fn repaint_spec(msec: Option<i32>) -> RepaintWindow {
    match msec {
        None => RepaintWindow::Keep,
        Some(m) => if -10 <= m <= 1000 {
            RepaintWindow::Apply(m)
        } else {
            RepaintWindow::Invalid(m)
        },
    }
}

/// The bring-up settings: repeat rate 40 and delay 400 unless given,
/// VT switching on unless turned off.  No backend at all is refused
/// before anything is created.
pub fn startup_tuning(kb: &KeyboardConfig, repaint_msec: Option<i32>, backends: usize) -> (r: Result<
    StartupTuning,
    CompositorError,
>)
    ensures
        match r {
            Ok(t) => {
                &&& backends > 0
                &&& t.repeat_rate == match kb.repeat_rate {
                    Some(v) => v,
                    None => 40,
                }
                &&& t.repeat_delay == match kb.repeat_delay {
                    Some(v) => v,
                    None => 400,
                }
                &&& t.vt_switching == match kb.vt_switching {
                    Some(v) => v,
                    None => true,
                }
                &&& t.repaint == repaint_spec(repaint_msec)
                &&& t.multi_backend == (backends > 1)
            },
            Err(e) => backends == 0 && e == CompositorError::BackendLoad,
        },
{
    if backends == 0 {
        return Err(CompositorError::BackendLoad);
    }
    let repaint = match repaint_msec {
        None => RepaintWindow::Keep,
        Some(m) => if -10 <= m && m <= 1000 {
            RepaintWindow::Apply(m)
        } else {
            RepaintWindow::Invalid(m)
        },
    };
    Ok(
        StartupTuning {
            repeat_rate: match kb.repeat_rate {
                Some(v) => v,
                None => 40,
            },
            repeat_delay: match kb.repeat_delay {
                Some(v) => v,
                None => 400,
            },
            vt_switching: match kb.vt_switching {
                Some(v) => v,
                None => true,
            },
            repaint,
            multi_backend: backends > 1,
        },
    )
}

/// What the headless loader passes: the refresh in mHz, -1 for the
/// backend's own default; and whether it creates its head.
#[derive(Debug, Clone, Copy, PartialEq, Eq, Structural)]
pub struct HeadlessLoad {
    pub refresh: i32,
    pub create_head: bool,
}

pub fn headless_load(o: &HeadlessOptions) -> (r: HeadlessLoad)
    ensures
        r.refresh == match o.refresh_mhz {
            Some(v) => v,
            None => -1i32,
        },
        r.create_head == !o.no_outputs,
{
    HeadlessLoad {
        refresh: match o.refresh_mhz {
            Some(v) => v,
            None => -1,
        },
        create_head: !o.no_outputs,
    }
}

/// What the VNC loader passes besides the strings: port 5900 and 60 Hz
/// unless given.
#[derive(Debug, Clone, Copy, PartialEq, Eq, Structural)]
pub struct VncLoad {
    pub port: i32,
    pub refresh_rate: i32,
}

pub fn vnc_load(o: &VncOptions) -> (r: VncLoad)
    ensures
        r.port == match o.port {
            Some(v) => v,
            None => 5900,
        },
        r.refresh_rate == match o.refresh_rate_hz {
            Some(v) => v,
            None => 60,
        },
{
    VncLoad {
        port: match o.port {
            Some(v) => v,
            None => 5900,
        },
        refresh_rate: match o.refresh_rate_hz {
            Some(v) => v,
            None => 60,
        },
    }
}

pub open spec fn at_least_one(v: i32) -> i32 {
    if v < 1 {
        1
    } else {
        v
    }
}

/// The number of X11 heads: at least one.
pub fn x11_head_count(o: &X11Options) -> (r: i32)
    ensures
        r == at_least_one(o.output_count),
{
    if o.output_count < 1 {
        1
    } else {
        o.output_count
    }
}

/// What the Wayland loader passes: cursor size 32 unless a positive one
/// is given; no heads of its own in sprawl mode, else at least one.
#[derive(Debug, Clone, Copy, PartialEq, Eq, Structural)]
pub struct WaylandLoad {
    pub cursor_size: i32,
    pub head_count: i32,
}

pub fn wayland_load(o: &WaylandOptions) -> (r: WaylandLoad)
    ensures
        r.cursor_size == if o.cursor_size > 0 {
            o.cursor_size
        } else {
            32
        },
        r.head_count == if o.sprawl {
            0
        } else {
            at_least_one(o.output_count)
        },
{
    WaylandLoad {
        cursor_size: if o.cursor_size > 0 {
            o.cursor_size
        } else {
            32
        },
        head_count: if o.sprawl {
            0
        } else if o.output_count < 1 {
            1
        } else {
            o.output_count
        },
    }
}

/// The number of PipeWire outputs: at least one.
pub fn pipewire_output_count(o: &PipewireOptions) -> (r: i32)
    ensures
        r == at_least_one(o.num_outputs),
{
    if o.num_outputs < 1 {
        1
    } else {
        o.num_outputs
    }
}

/// Whose child a reaped pid was: the autolaunched client (whose exit
/// ends the session when it is watched), the Xwayland server, the
/// screenshooter client, or nobody the frontend tracks.
#[derive(Debug, Clone, Copy, PartialEq, Eq, Structural)]
pub enum ChildOwner {
    Autolaunch { terminate: bool },
    Xwayland,
    Screenshooter,
    Unknown,
}

pub open spec fn watched(a: Option<(i32, bool)>) -> bool {
    match a {
        Some((_, w)) => w,
        None => false,
    }
}

pub fn child_owner(
    pid: i32,
    autolaunch: Option<(i32, bool)>,
    xwayland: Option<i32>,
    screenshooter: Option<i32>,
) -> (r: ChildOwner)
    ensures
        r == if autolaunch matches Some((p, w)) && p == pid {
            ChildOwner::Autolaunch { terminate: watched(autolaunch) }
        } else if xwayland == Some(pid) {
            ChildOwner::Xwayland
        } else if screenshooter == Some(pid) {
            ChildOwner::Screenshooter
        } else {
            ChildOwner::Unknown
        },
{
    match autolaunch {
        Some((p, w)) => if p == pid {
            return ChildOwner::Autolaunch { terminate: w };
        },
        None => {},
    }
    if xwayland == Some(pid) {
        ChildOwner::Xwayland
    } else if screenshooter == Some(pid) {
        ChildOwner::Screenshooter
    } else {
        ChildOwner::Unknown
    }
}

} // verus!
