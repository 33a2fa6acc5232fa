//! The configuration model: the whole `westonite.toml` surface and the
//! command line, as plain data.
//!
//! Keys are kebab-case in the file; unknown keys are startup errors
//! (enforced where the file is parsed).  Defaults are weston's
//! own.  Values that are weston grammars (modelines, XKB names,
//! gbm formats, transforms) stay strings here.  Fractional values
//! (`accel-speed` and the colour characteristics) are carried as the
//! bit patterns of their `f64` (`f64::to_bits`), since the library only
//! passes them on.

use vstd::prelude::*;

verus! {

/// The command line.  Trailing positional arguments are the autolaunch
/// command.
#[derive(Debug, Clone, Default, PartialEq, Eq)]
pub struct Cli {
    pub version: bool,
    /// `--backend` / `--backends`: comma-separated backend names.
    pub backend: Option<String>,
    pub renderer: Option<String>,
    pub use_gl: bool,
    pub use_pixman: bool,
    pub socket: Option<String>,
    pub log: Option<String>,
    pub config: Option<String>,
    pub no_config: bool,
    /// `-o section.key=value` overrides, in order.
    pub set: Vec<String>,
    pub wait_for_debugger: bool,
    pub debug: bool,
    pub logger_scopes: Option<String>,
    pub flight_rec_scopes: Option<String>,
    pub width: Option<i32>,
    pub height: Option<i32>,
    pub scale: Option<i32>,
    pub transform: Option<String>,
    pub fullscreen: bool,
    pub output_count: Option<u32>,
    pub no_input: bool,
    pub sprawl: bool,
    pub display: Option<String>,
    pub no_outputs: bool,
    pub refresh_rate: Option<i32>,
    pub seat: Option<String>,
    pub drm_device: Option<String>,
    pub additional_devices: Option<String>,
    pub current_mode: bool,
    pub continue_without_input: bool,
    pub port: Option<u16>,
    pub address: Option<String>,
    pub rdp_tls_cert: Option<String>,
    pub rdp_tls_key: Option<String>,
    pub vnc_tls_cert: Option<String>,
    pub vnc_tls_key: Option<String>,
    pub disable_transport_layer_security: bool,
    pub external_listener_fd: Option<i32>,
    pub no_resizeable: bool,
    pub rdp4_key: Option<String>,
    pub env_socket: bool,
    pub no_remotefx_codec: bool,
    pub force_no_compression: bool,
    pub xwayland: bool,
    pub idle_time: Option<u32>,
    pub modules: Option<String>,
    pub shell: Option<String>,
    pub autolaunch: Vec<String>,
}

/// The default of `[core] require-input` and friends.
pub fn default_true() -> (r: bool)
    ensures
        r,
{
    true
}

/// The whole file.
#[derive(Debug, Clone, Default, PartialEq)]
pub struct Config {
    pub core: Core,
    pub shell: Shell,
    pub keyboard: Keyboard,
    pub libinput: Libinput,
    pub autolaunch: Autolaunch,
    pub xwayland: Xwayland,
    pub rdp: Rdp,
    pub vnc: Vnc,
    pub pipewire: Pipewire,
    /// `[[output]]` sections, in file order.
    pub output: Vec<Output>,
    pub remote_output: Vec<RemoteOutput>,
    pub pipewire_output: Vec<PipewireOutput>,
    pub color_characteristics: Vec<ColorCharacteristics>,
}

#[derive(Debug, Clone, PartialEq, Eq)]
pub struct Core {
    pub backend: Option<String>,
    /// Array, or one comma-separated string in the file.
    pub backends: Vec<String>,
    pub renderer: Option<String>,
    pub gbm_format: Option<String>,
    /// Default true.
    pub require_input: bool,
    pub color_management: bool,
    pub xwayland: bool,
    pub idle_time: Option<u32>,
    pub pageflip_timeout: Option<u32>,
    pub pixman_shadow: Option<bool>,
    /// any|all|none.
    pub require_outputs: Option<String>,
    pub wait_for_debugger: bool,
    pub repaint_window: Option<i32>,
    pub modules: Vec<String>,
    pub shell: Option<String>,
}

impl Default for Core {
    fn default() -> (r: Core)
        ensures
            r.backend is None,
            r.backends@.len() == 0,
            r.renderer is None,
            r.gbm_format is None,
            r.require_input,
            !r.color_management,
            !r.xwayland,
            r.idle_time is None,
            r.pageflip_timeout is None,
            r.pixman_shadow is None,
            r.require_outputs is None,
            !r.wait_for_debugger,
            r.repaint_window is None,
            r.modules@.len() == 0,
            r.shell is None,
    {
        Core {
            backend: None,
            backends: Vec::new(),
            renderer: None,
            gbm_format: None,
            require_input: true,
            color_management: false,
            xwayland: false,
            idle_time: None,
            pageflip_timeout: None,
            pixman_shadow: None,
            require_outputs: None,
            wait_for_debugger: false,
            repaint_window: None,
            modules: Vec::new(),
            shell: None,
        }
    }
}

#[derive(Debug, Clone, Default, PartialEq, Eq)]
pub struct Shell {
    /// 0xAARRGGBB, hex or decimal, parsed at resolution.
    pub background_color: Option<String>,
    pub client: Option<String>,
    pub cursor_theme: Option<String>,
    pub cursor_size: Option<i32>,
}

#[derive(Debug, Clone, Default, PartialEq, Eq)]
pub struct Keyboard {
    pub keymap_rules: Option<String>,
    pub keymap_model: Option<String>,
    pub keymap_layout: Option<String>,
    pub keymap_variant: Option<String>,
    pub keymap_options: Option<String>,
    pub repeat_rate: Option<u32>,
    pub repeat_delay: Option<u32>,
    pub numlock_on: Option<bool>,
    pub vt_switching: Option<bool>,
}

#[derive(Debug, Clone, Default, PartialEq, Eq)]
pub struct Libinput {
    pub enable_tap: Option<bool>,
    /// The deprecated `enable_tap` spelling, kept so it can be refused
    /// with a useful message.
    pub enable_tap_deprecated: Option<bool>,
    pub tap_and_drag: Option<bool>,
    pub tap_and_drag_lock: Option<bool>,
    pub disable_while_typing: Option<bool>,
    pub natural_scroll: Option<bool>,
    pub left_handed: Option<bool>,
    pub middle_button_emulation: Option<bool>,
    pub rotation: Option<u32>,
    pub accel_profile: Option<String>,
    /// `accel-speed`, as `f64` bits.
    pub accel_speed: Option<u64>,
    pub scroll_method: Option<String>,
    /// An evdev button name, e.g. `BTN_RIGHT`.
    pub scroll_button: Option<String>,
    pub touchscreen_calibrator: Option<bool>,
    pub calibration_helper: Option<String>,
}

#[derive(Debug, Clone, Default, PartialEq, Eq)]
pub struct Autolaunch {
    pub path: Option<String>,
    pub watch: bool,
}

#[derive(Debug, Clone, Default, PartialEq, Eq)]
pub struct Xwayland {
    /// Default /usr/bin/Xwayland.
    pub path: Option<String>,
}

#[derive(Debug, Clone, Default, PartialEq, Eq)]
pub struct Rdp {
    pub port: Option<u16>,
    pub address: Option<String>,
    pub resizeable: Option<bool>,
    pub force_no_compression: Option<bool>,
    pub remotefx_codec: Option<bool>,
    pub external_listener_fd: Option<i32>,
    pub refresh_rate: Option<u32>,
    pub tls_cert: Option<String>,
    pub tls_key: Option<String>,
}

#[derive(Debug, Clone, Default, PartialEq, Eq)]
pub struct Vnc {
    pub port: Option<u16>,
    pub refresh_rate: Option<u32>,
    pub address: Option<String>,
    pub tls_cert: Option<String>,
    pub tls_key: Option<String>,
    pub disable_transport_layer_security: Option<bool>,
}

#[derive(Debug, Clone, Default, PartialEq, Eq)]
pub struct Pipewire {
    pub num_outputs: Option<u32>,
}

#[derive(Debug, Clone, Default, PartialEq, Eq)]
pub struct Output {
    pub name: Option<String>,
    pub mode: Option<String>,
    pub scale: Option<i32>,
    pub transform: Option<String>,
    pub position: Option<String>,
    pub clone_of: Option<String>,
    pub mirror_of: Option<String>,
    pub seat: Option<String>,
    pub gbm_format: Option<String>,
    pub pixman_shadow: Option<bool>,
    pub icc_profile: Option<String>,
    pub eotf_mode: Option<String>,
    pub colorimetry_mode: Option<String>,
    pub color_characteristics: Option<String>,
    pub max_bpc: Option<u32>,
    pub content_type: Option<String>,
    pub force_on: Option<bool>,
    pub resizeable: Option<bool>,
    pub off: Option<bool>,
    pub allow_hdcp: Option<bool>,
}

#[derive(Debug, Clone, Default, PartialEq, Eq)]
pub struct RemoteOutput {
    pub name: Option<String>,
    pub mode: Option<String>,
    pub host: Option<String>,
    pub port: Option<u16>,
    pub gst_pipeline: Option<String>,
}

#[derive(Debug, Clone, Default, PartialEq, Eq)]
pub struct PipewireOutput {
    pub name: Option<String>,
    pub mode: Option<String>,
    pub gbm_format: Option<String>,
}

/// One `[[color-characteristics]]` block; each value as `f64` bits.
#[derive(Debug, Clone, Default, PartialEq, Eq)]
pub struct ColorCharacteristics {
    pub name: Option<String>,
    pub max_luminance: Option<u64>,
    pub min_luminance: Option<u64>,
    pub max_fall: Option<u64>,
    pub red_x: Option<u64>,
    pub red_y: Option<u64>,
    pub green_x: Option<u64>,
    pub green_y: Option<u64>,
    pub blue_x: Option<u64>,
    pub blue_y: Option<u64>,
    pub white_x: Option<u64>,
    pub white_y: Option<u64>,
}

} // verus!
