//! Resolution: defaults, then the file, then `-o` overrides, then flags,
//! into an immutable [`Settings`] resolved once at startup.
//!
//! Reading the file and applying overrides happen where the file system
//! is; this module holds the rules: where the file is looked for, which
//! candidate wins, and how the validated model and the flags combine.

use vstd::prelude::*;
use crate::config::{Cli, Config};
use crate::numeric::{decimal, format_i64, parse_u32_radix, parse_u32_spec};
use crate::text::{
    clone_opt, clone_strings, comma_list, concat2, concat3, ends_with, has_prefix, has_suffix,
    owned, split_trimmed, starts_with, str_eq, substring, trim, trimmed, views, list_items,
    split_on,
};

verus! {

/// A startup-fatal configuration problem.
#[derive(Debug, Clone, PartialEq, Eq)]
pub enum ConfigError {
    Invalid(String),
}

impl ConfigError {
    /// The message, as the startup log prints it.
    pub fn message(&self) -> (r: String)
        ensures
            match self {
                ConfigError::Invalid(m) => r@ == m@,
            },
    {
        match self {
            ConfigError::Invalid(m) => m.clone(),
        }
    }
}

#[derive(Debug, Clone, Copy, PartialEq, Eq, Structural, Hash)]
pub enum Backend {
    Drm,
    Headless,
    X11,
    Wayland,
    Rdp,
    Vnc,
    Pipewire,
}

/// The backend a short name denotes.
pub open spec fn backend_short(s: Seq<char>) -> Option<Backend> {
    if s == "drm"@ {
        Some(Backend::Drm)
    } else if s == "headless"@ {
        Some(Backend::Headless)
    } else if s == "x11"@ {
        Some(Backend::X11)
    } else if s == "wayland"@ {
        Some(Backend::Wayland)
    } else if s == "rdp"@ {
        Some(Backend::Rdp)
    } else if s == "vnc"@ {
        Some(Backend::Vnc)
    } else if s == "pipewire"@ {
        Some(Backend::Pipewire)
    } else {
        None
    }
}

/// The backend a name denotes: the short name, or the module name
/// (`<short>-backend.so`).
pub open spec fn backend_named(s: Seq<char>) -> Option<Backend> {
    if has_suffix(s, "-backend.so"@) {
        backend_short(s.subrange(0, s.len() - 11))
    } else {
        backend_short(s)
    }
}

pub open spec fn backend_name_spec(b: Backend) -> Seq<char> {
    match b {
        Backend::Drm => "drm"@,
        Backend::Headless => "headless"@,
        Backend::X11 => "x11"@,
        Backend::Wayland => "wayland"@,
        Backend::Rdp => "rdp"@,
        Backend::Vnc => "vnc"@,
        Backend::Pipewire => "pipewire"@,
    }
}

impl Backend {
    pub fn parse(s: &str) -> (r: Option<Backend>)
        ensures
            r == backend_named(s@),
    {
        proof {
            reveal_strlit("-backend.so");
        }
        let base = if ends_with(s, "-backend.so") {
            substring(s, 0, s.unicode_len() - 11)
        } else {
            owned(s)
        };
        let b = base.as_str();
        if str_eq(b, "drm") {
            Some(Backend::Drm)
        } else if str_eq(b, "headless") {
            Some(Backend::Headless)
        } else if str_eq(b, "x11") {
            Some(Backend::X11)
        } else if str_eq(b, "wayland") {
            Some(Backend::Wayland)
        } else if str_eq(b, "rdp") {
            Some(Backend::Rdp)
        } else if str_eq(b, "vnc") {
            Some(Backend::Vnc)
        } else if str_eq(b, "pipewire") {
            Some(Backend::Pipewire)
        } else {
            None
        }
    }

    pub fn name(&self) -> (r: &'static str)
        ensures
            r@ == backend_name_spec(*self),
    {
        match self {
            Backend::Drm => "drm",
            Backend::Headless => "headless",
            Backend::X11 => "x11",
            Backend::Wayland => "wayland",
            Backend::Rdp => "rdp",
            Backend::Vnc => "vnc",
            Backend::Pipewire => "pipewire",
        }
    }
}

/// Every backend's name, and its module name `<name>-backend.so`, map
/// back to that backend.
pub proof fn law_backend_name_round_trip(b: Backend)
    ensures
        backend_named(backend_name_spec(b)) == Some(b),
        backend_named(backend_name_spec(b) + "-backend.so"@) == Some(b),
{
    reveal_strlit("drm");
    reveal_strlit("headless");
    reveal_strlit("x11");
    reveal_strlit("wayland");
    reveal_strlit("rdp");
    reveal_strlit("vnc");
    reveal_strlit("pipewire");
    reveal_strlit("-backend.so");
    let n = backend_name_spec(b);
    assert(!has_suffix(n, "-backend.so"@));
    assert("drm"@[0] == 'd' && "x11"@[0] == 'x' && "rdp"@[0] == 'r' && "vnc"@[0] == 'v');
    assert("headless"@[0] == 'h' && "pipewire"@[0] == 'p');
    let m = n + "-backend.so"@;
    assert(m.subrange(m.len() - 11, m.len() as int) =~= "-backend.so"@);
    assert(m.subrange(0, m.len() - 11) =~= n);
}

#[derive(Debug, Clone, Copy, PartialEq, Eq, Structural, Default)]
pub enum Renderer {
    #[default]
    Auto,
    Gl,
    Pixman,
    Noop,
}

// ---------------------------------------------------------------------
// Values
// ---------------------------------------------------------------------

/// A colour: trimmed, then `0x`/`0X` and hex digits, or decimal digits;
/// the value must fit in 32 bits.
pub open spec fn color_value(s: Seq<char>) -> Option<u32> {
    let t = trimmed(s);
    if has_prefix(t, "0x"@) || has_prefix(t, "0X"@) {
        parse_u32_spec(t.skip(2), 16)
    } else {
        parse_u32_spec(t, 10)
    }
}

pub open spec fn color_error(s: Seq<char>, what: Seq<char>) -> Seq<char> {
    what + ": invalid color '"@ + s + "'"@
}

pub fn parse_color(s: &str, what: &str) -> (r: Result<u32, ConfigError>)
    ensures
        match r {
            Ok(v) => color_value(s@) == Some(v),
            Err(ConfigError::Invalid(m)) => color_value(s@) is None && m@ == color_error(s@, what@),
        },
{
    proof {
        reveal_strlit("0x");
        reveal_strlit("0X");
    }
    let t = trim(s);
    let ts = t.as_str();
    let parsed = if starts_with(ts, "0x") || starts_with(ts, "0X") {
        let hex = substring(ts, 2, ts.unicode_len());
        assert(hex@ =~= t@.skip(2));
        parse_u32_radix(hex.as_str(), 16)
    } else {
        parse_u32_radix(ts, 10)
    };
    match parsed {
        Some(v) => Ok(v),
        None => {
            let a = concat2(what, ": invalid color '");
            let m = concat3(a.as_str(), s, "'");
            Err(ConfigError::Invalid(m))
        },
    }
}

/// A comma list, trimmed, empties dropped.
pub fn split_list(s: &str) -> (r: Vec<String>)
    ensures
        views(r@) == comma_list(s@),
{
    split_trimmed(s, ',')
}

// ---------------------------------------------------------------------
// File discovery
// ---------------------------------------------------------------------

/// `Path::join` of a relative name onto a directory.
pub open spec fn join_spec(d: Seq<char>, n: Seq<char>) -> Seq<char> {
    if d.len() == 0 {
        n
    } else if d.last() == '/' {
        d + n
    } else {
        d + "/"@ + n
    }
}

pub fn join_path(d: &str, n: &str) -> (r: String)
    ensures
        r@ == join_spec(d@, n@),
{
    let len = d.unicode_len();
    if len == 0 {
        owned(n)
    } else if d.get_char(len - 1) == '/' {
        concat2(d, n)
    } else {
        concat3(d, "/", n)
    }
}

pub open spec fn nonempty_opt(o: Option<Seq<char>>) -> Option<Seq<char>> {
    match o {
        Some(v) => if v.len() > 0 {
            Some(v)
        } else {
            None
        },
        None => None,
    }
}

/// The non-empty pieces of a `:`-separated list.
pub open spec fn path_list(parts: Seq<Seq<char>>) -> Seq<Seq<char>>
    decreases parts.len(),
{
    if parts.len() == 0 {
        Seq::empty()
    } else {
        let r = path_list(parts.drop_last());
        if parts.last().len() > 0 {
            r.push(parts.last())
        } else {
            r
        }
    }
}

/// Where the file is looked for, in order: `$XDG_CONFIG_HOME`, then
/// `$HOME/.config` (unless it is the same), then each entry of
/// `$XDG_CONFIG_DIRS`, or `/etc/xdg` when that is unset or empty.
pub open spec fn search_dirs_spec(
    xdg_home: Option<Seq<char>>,
    home: Option<Seq<char>>,
    xdg_dirs: Option<Seq<char>>,
) -> Seq<Seq<char>> {
    let a: Seq<Seq<char>> = match nonempty_opt(xdg_home) {
        Some(x) => seq![x],
        None => Seq::empty(),
    };
    let b = match nonempty_opt(home) {
        Some(h) => {
            let hc = join_spec(h, ".config"@);
            if a.contains(hc) {
                a
            } else {
                a.push(hc)
            }
        },
        None => a,
    };
    match nonempty_opt(xdg_dirs) {
        Some(list) => b + path_list(split_on(list, ':')),
        None => b.push("/etc/xdg"@),
    }
}

fn nonempty_str(o: &Option<String>) -> (r: Option<String>)
    ensures
        match r {
            Some(v) => nonempty_opt(
                match o {
                    Some(x) => Some(x@),
                    None => None,
                },
            ) == Some(v@),
            None => nonempty_opt(
                match o {
                    Some(x) => Some(x@),
                    None => None,
                },
            ) is None,
        },
{
    match o {
        Some(x) => if x.unicode_len() > 0 {
            Some(x.clone())
        } else {
            None
        },
        None => None,
    }
}

pub open spec fn opt_view(o: Option<String>) -> Option<Seq<char>> {
    match o {
        Some(x) => Some(x@),
        None => None,
    }
}

fn contains_string(v: &Vec<String>, x: &str) -> (r: bool)
    ensures
        r == views(v@).contains(x@),
{
    let mut i: usize = 0;
    while i < v.len()
        invariant
            i <= v@.len(),
            forall|k: int| 0 <= k < i ==> v@[k]@ != x@,
        decreases v@.len() - i,
    {
        if str_eq(v[i].as_str(), x) {
            assert(views(v@)[i as int] == x@);
            return true;
        }
        i += 1;
    }
    assert forall|k: int| 0 <= k < views(v@).len() implies views(v@)[k] != x@ by {}
    false
}

/// The directories searched for the configuration file.
pub fn search_dirs(xdg_home: &Option<String>, home: &Option<String>, xdg_dirs: &Option<String>) -> (r:
    Vec<String>)
    ensures
        views(r@) == search_dirs_spec(opt_view(*xdg_home), opt_view(*home), opt_view(*xdg_dirs)),
{
    proof {
        reveal_strlit(".config");
        reveal_strlit("/etc/xdg");
    }
    let mut dirs: Vec<String> = Vec::new();
    match nonempty_str(xdg_home) {
        Some(x) => {
            dirs.push(x);
            assert(views(dirs@) =~= seq![x@]);
        },
        None => {
            assert(views(dirs@) =~= Seq::<Seq<char>>::empty());
        },
    }
    let ghost a = views(dirs@);
    match nonempty_str(home) {
        Some(h) => {
            let hc = join_path(h.as_str(), ".config");
            if !contains_string(&dirs, hc.as_str()) {
                dirs.push(hc);
                assert(views(dirs@) =~= a.push(hc@));
            }
        },
        None => {},
    }
    let ghost b = views(dirs@);
    let ghost a_spec: Seq<Seq<char>> = match nonempty_opt(opt_view(*xdg_home)) {
        Some(x) => seq![x],
        None => Seq::empty(),
    };
    assert(a == a_spec);
    match nonempty_str(xdg_dirs) {
        Some(list) => {
            let parts = crate::text::split_char(list.as_str(), ':');
            let ghost sp = split_on(list@, ':');
            let mut i: usize = 0;
            while i < parts.len()
                invariant
                    i <= parts@.len(),
                    parts@.len() == sp.len(),
                    forall|k: int| 0 <= k < parts@.len() ==> #[trigger] parts@[k]@ == sp[k],
                    views(dirs@) == b + path_list(sp.take(i as int)),
                decreases parts@.len() - i,
            {
                assert(sp.take(i + 1).drop_last() =~= sp.take(i as int));
                assert(sp.take(i + 1).last() == parts@[i as int]@);
                if parts[i].unicode_len() > 0 {
                    let ghost before = views(dirs@);
                    let piece = parts[i].clone();
                    assert(piece@ == sp[i as int]);
                    dirs.push(piece);
                    assert(views(dirs@) =~= before.push(sp[i as int]));
                    assert(path_list(sp.take(i + 1)) == path_list(sp.take(i as int)).push(sp[i as int]));
                    assert(views(dirs@) =~= b + path_list(sp.take(i + 1)));
                } else {
                    assert(views(dirs@) =~= b + path_list(sp.take(i + 1)));
                }
                i += 1;
            }
            assert(sp.take(i as int) =~= sp);
        },
        None => {
            dirs.push(owned("/etc/xdg"));
            assert(views(dirs@) =~= b.push("/etc/xdg"@));
        },
    }
    dirs
}

/// The file chosen from probes of each searched directory, `(toml
/// exists, legacy ini exists)`: the first directory with the TOML file,
/// and the first legacy ini found in a directory before it.
pub open spec fn choose_from(
    probes: Seq<(bool, bool)>,
    i: int,
    legacy: Option<int>,
) -> (Option<int>, Option<int>)
    decreases probes.len() - i,
{
    if i < 0 || i >= probes.len() {
        (None, legacy)
    } else if probes[i].0 {
        (Some(i), legacy)
    } else {
        choose_from(
            probes,
            i + 1,
            if legacy is None && probes[i].1 {
                Some(i)
            } else {
                legacy
            },
        )
    }
}

/// Indices of the chosen file and of an ignored legacy ini, if any.
pub fn choose_config(probes: &Vec<(bool, bool)>) -> (r: (Option<usize>, Option<usize>))
    ensures
        ({
            let (t, l) = choose_from(probes@, 0, None);
            &&& (match r.0 {
                Some(x) => t == Some(x as int),
                None => t is None,
            })
            &&& (match r.1 {
                Some(x) => l == Some(x as int),
                None => l is None,
            })
        }),
{
    let mut legacy: Option<usize> = None;
    let mut i: usize = 0;
    while i < probes.len()
        invariant
            i <= probes@.len(),
            choose_from(probes@, 0, None) == choose_from(
                probes@,
                i as int,
                match legacy {
                    Some(x) => Some(x as int),
                    None => None,
                },
            ),
            legacy matches Some(x) ==> x < i,
        decreases probes@.len() - i,
    {
        let (toml, ini) = probes[i];
        if toml {
            return (Some(i), legacy);
        }
        if legacy.is_none() && ini {
            legacy = Some(i);
        }
        i += 1;
    }
    (None, legacy)
}


// ---------------------------------------------------------------------
// Settings
// ---------------------------------------------------------------------

/// The immutable result of resolution.
#[derive(Debug, Clone, PartialEq)]
pub struct Settings {
    /// Backends to load, primary first, each once.
    pub backends: Vec<Backend>,
    pub renderer: Renderer,
    pub socket: Option<String>,
    pub log_file: Option<String>,
    pub debug_protocol: bool,
    pub wait_for_debugger: bool,
    pub xwayland: bool,
    pub idle_time: Option<u32>,
    pub modules: Vec<String>,
    pub require_input: bool,
    pub color_management: bool,
    pub gbm_format: Option<String>,
    /// `[shell] background-color` (0xAARRGGBB).
    pub background_color: u32,
    pub shell_client: Option<String>,
    pub width: Option<i32>,
    pub height: Option<i32>,
    pub scale: Option<i32>,
    pub transform: Option<String>,
    pub fullscreen: bool,
    pub output_count: Option<u32>,
    pub no_input: bool,
    pub sprawl: bool,
    pub wayland_display: Option<String>,
    pub cursor_theme: Option<String>,
    pub cursor_size: i32,
    pub pipewire_num_outputs: Option<u32>,
    pub parent_display: Option<String>,
    pub no_outputs: bool,
    pub refresh_rate: Option<i32>,
    pub drm_seat: Option<String>,
    pub drm_device: Option<String>,
    pub drm_additional_devices: Option<String>,
    pub drm_current_mode: bool,
    pub continue_without_input: bool,
    /// The listen port of whichever of vnc/rdp is loaded; `--port` wins.
    pub rdp_vnc_port: Option<u16>,
    pub vnc_bind_address: Option<String>,
    pub vnc_refresh_rate: Option<u32>,
    pub vnc_disable_tls: bool,
    pub rdp_tls_cert: Option<String>,
    pub rdp_tls_key: Option<String>,
    pub vnc_tls_cert: Option<String>,
    pub vnc_tls_key: Option<String>,
    pub rdp_external_listener_fd: Option<i32>,
    pub rdp_resizeable: bool,
    pub rdp_force_no_compression: bool,
    pub rdp4_key: Option<String>,
    pub rdp_env_socket: bool,
    pub rdp_remotefx_codec: bool,
    /// The autolaunch command: trailing arguments win over `[autolaunch]
    /// path`.
    pub autolaunch: Option<Vec<String>>,
    pub autolaunch_watch: bool,
    pub xwayland_path: String,
    /// The configuration file actually used.
    pub config_path: Option<String>,
    /// A legacy ini found and ignored.
    pub legacy_ini_found: Option<String>,
    /// The validated model.
    pub config: Config,
}

pub open spec fn opt_or<T>(a: Option<T>, b: Option<T>) -> Option<T> {
    if a is Some {
        a
    } else {
        b
    }
}

pub open spec fn unwrap_or<T>(a: Option<T>, d: T) -> T {
    match a {
        Some(v) => v,
        None => d,
    }
}

/// The backend names asked for: the flag, else `[core] backends`, else
/// `[core] backend` (a comma list either way), else drm.
pub open spec fn backend_names(cli: Cli, cfg: Config) -> Seq<Seq<char>> {
    match cli.backend {
        Some(b) => comma_list(b@),
        None => if cfg.core.backends@.len() > 0 {
            views(cfg.core.backends@)
        } else {
            match cfg.core.backend {
                Some(b) => comma_list(b@),
                None => seq!["drm"@],
            }
        },
    }
}

/// The names parsed in order, duplicates dropped; the first unknown
/// name is the error.
pub open spec fn parse_backends(names: Seq<Seq<char>>) -> Result<Seq<Backend>, Seq<char>>
    decreases names.len(),
{
    if names.len() == 0 {
        Ok(Seq::empty())
    } else {
        match parse_backends(names.drop_last()) {
            Err(e) => Err(e),
            Ok(bs) => match backend_named(names.last()) {
                None => Err(names.last()),
                Some(b) => Ok(
                    if bs.contains(b) {
                        bs
                    } else {
                        bs.push(b)
                    },
                ),
            },
        }
    }
}

pub open spec fn renderer_conflict(cli: Cli) -> bool {
    (cli.use_gl && cli.use_pixman) || (cli.renderer is Some && (cli.use_gl || cli.use_pixman))
}

/// The renderer name asked for: the flag, the legacy toggles, then the
/// file.
pub open spec fn renderer_name(cli: Cli, cfg: Config) -> Option<Seq<char>> {
    match cli.renderer {
        Some(r) => Some(r@),
        None => if cli.use_gl {
            Some("gl"@)
        } else if cli.use_pixman {
            Some("pixman"@)
        } else {
            opt_view(cfg.core.renderer)
        },
    }
}

pub open spec fn renderer_named(n: Option<Seq<char>>) -> Option<Renderer> {
    match n {
        None => Some(Renderer::Auto),
        Some(s) => if s == "auto"@ {
            Some(Renderer::Auto)
        } else if s == "gl"@ {
            Some(Renderer::Gl)
        } else if s == "pixman"@ {
            Some(Renderer::Pixman)
        } else if s == "noop"@ {
            Some(Renderer::Noop)
        } else {
            None
        },
    }
}

/// The first of `--width`, `--height`, `--scale` that is given and not
/// positive.
pub open spec fn geometry_error(cli: Cli) -> Option<Seq<char>> {
    if cli.width matches Some(v) && v <= 0 {
        Some("--width"@ + " must be positive (got "@ + decimal(cli.width->0 as int) + ")"@)
    } else if cli.height matches Some(v) && v <= 0 {
        Some("--height"@ + " must be positive (got "@ + decimal(cli.height->0 as int) + ")"@)
    } else if cli.scale matches Some(v) && v <= 0 {
        Some("--scale"@ + " must be positive (got "@ + decimal(cli.scale->0 as int) + ")"@)
    } else {
        None
    }
}

pub open spec fn section_name(o: Option<String>) -> Seq<char> {
    match o {
        Some(n) => n@,
        None => "<unnamed>"@,
    }
}

/// The first `[[output]]` section (from index `i`) whose scale is given
/// and not positive.
pub open spec fn output_scale_error(outs: Seq<crate::config::Output>, i: int) -> Option<Seq<char>>
    decreases outs.len() - i,
{
    if i < 0 || i >= outs.len() {
        None
    } else if outs[i].scale matches Some(v) && v <= 0 {
        Some(
            "[output] '"@ + section_name(outs[i].name) + "': scale must be positive (got "@
                + decimal(outs[i].scale->0 as int) + ")"@,
        )
    } else {
        output_scale_error(outs, i + 1)
    }
}

/// Why resolution fails, checked in this order; `None` when it does
/// not.
pub open spec fn settle_error(cli: Cli, cfg: Config) -> Option<Seq<char>> {
    match parse_backends(backend_names(cli, cfg)) {
        Err(name) => Some("unknown backend \""@ + name + "\""@),
        Ok(_) => if renderer_conflict(cli) {
            Some("Conflicting renderer specifications"@)
        } else if renderer_named(renderer_name(cli, cfg)) is None {
            Some("unknown renderer \""@ + renderer_name(cli, cfg)->0 + "\""@)
        } else if cfg.shell.background_color matches Some(c) && color_value(c@) is None {
            Some(color_error(cfg.shell.background_color->0@, "[shell] background-color"@))
        } else if geometry_error(cli) is Some {
            geometry_error(cli)
        } else {
            output_scale_error(cfg.output@, 0)
        },
    }
}

/// The port from the section of the loaded remote backend.
pub open spec fn section_port(backends: Seq<Backend>, cfg: Config) -> Option<u16> {
    if backends.contains(Backend::Vnc) {
        cfg.vnc.port
    } else if backends.contains(Backend::Rdp) {
        cfg.rdp.port
    } else {
        None
    }
}

pub open spec fn autolaunch_spec(cli: Cli, cfg: Config) -> Option<Seq<Seq<char>>> {
    if cli.autolaunch@.len() > 0 {
        Some(views(cli.autolaunch@))
    } else {
        match cfg.autolaunch.path {
            Some(p) => Some(seq![p@]),
            None => None,
        }
    }
}

pub open spec fn modules_spec(cli: Cli, cfg: Config) -> Seq<Seq<char>> {
    match cli.modules {
        Some(m) => comma_list(m@),
        None => views(cfg.core.modules@),
    }
}

/// Every field of successfully resolved settings.
pub open spec fn settled(
    cli: Cli,
    cfg: Config,
    config_path: Option<String>,
    legacy: Option<String>,
    s: Settings,
) -> bool {
    &&& Ok::<Seq<Backend>, Seq<char>>(s.backends@) == parse_backends(backend_names(cli, cfg))
    &&& Some(s.renderer) == renderer_named(renderer_name(cli, cfg))
    &&& s.socket == cli.socket
    &&& s.log_file == cli.log
    &&& s.debug_protocol == cli.debug
    &&& s.wait_for_debugger == (cli.wait_for_debugger || cfg.core.wait_for_debugger)
    &&& s.xwayland == (cli.xwayland || cfg.core.xwayland)
    &&& s.idle_time == opt_or(cli.idle_time, cfg.core.idle_time)
    &&& views(s.modules@) == modules_spec(cli, cfg)
    &&& s.require_input == cfg.core.require_input
    &&& s.color_management == cfg.core.color_management
    &&& s.gbm_format == cfg.core.gbm_format
    &&& s.background_color == match cfg.shell.background_color {
        Some(c) => color_value(c@)->0,
        None => 0xff002244u32,
    }
    &&& s.shell_client == cfg.shell.client
    &&& s.width == cli.width
    &&& s.height == cli.height
    &&& s.scale == cli.scale
    &&& s.transform == cli.transform
    &&& s.fullscreen == cli.fullscreen
    &&& s.output_count == cli.output_count
    &&& s.no_input == cli.no_input
    &&& s.sprawl == cli.sprawl
    &&& s.wayland_display == cli.display
    &&& s.cursor_theme == cfg.shell.cursor_theme
    &&& s.cursor_size == unwrap_or(cfg.shell.cursor_size, 32i32)
    &&& s.pipewire_num_outputs == cfg.pipewire.num_outputs
    &&& s.parent_display == cli.display
    &&& s.no_outputs == cli.no_outputs
    &&& s.refresh_rate == cli.refresh_rate
    &&& s.drm_seat == cli.seat
    &&& s.drm_device == cli.drm_device
    &&& s.drm_additional_devices == cli.additional_devices
    &&& s.drm_current_mode == cli.current_mode
    &&& s.continue_without_input == cli.continue_without_input
    &&& s.rdp_vnc_port == opt_or(cli.port, section_port(s.backends@, cfg))
    &&& s.vnc_bind_address == opt_or(cli.address, cfg.vnc.address)
    &&& s.vnc_refresh_rate == cfg.vnc.refresh_rate
    &&& s.vnc_disable_tls == (cli.disable_transport_layer_security || unwrap_or(
        cfg.vnc.disable_transport_layer_security,
        false,
    ))
    &&& s.rdp_tls_cert == opt_or(cli.rdp_tls_cert, cfg.rdp.tls_cert)
    &&& s.rdp_tls_key == opt_or(cli.rdp_tls_key, cfg.rdp.tls_key)
    &&& s.vnc_tls_cert == opt_or(cli.vnc_tls_cert, cfg.vnc.tls_cert)
    &&& s.vnc_tls_key == opt_or(cli.vnc_tls_key, cfg.vnc.tls_key)
    &&& s.rdp_external_listener_fd == opt_or(cli.external_listener_fd, cfg.rdp.external_listener_fd)
    &&& s.rdp_resizeable == (!cli.no_resizeable && unwrap_or(cfg.rdp.resizeable, true))
    &&& s.rdp_force_no_compression == (cli.force_no_compression || unwrap_or(
        cfg.rdp.force_no_compression,
        false,
    ))
    &&& s.rdp4_key == cli.rdp4_key
    &&& s.rdp_env_socket == cli.env_socket
    &&& s.rdp_remotefx_codec == (!cli.no_remotefx_codec && unwrap_or(cfg.rdp.remotefx_codec, true))
    &&& (match s.autolaunch {
        Some(v) => autolaunch_spec(cli, cfg) == Some(views(v@)),
        None => autolaunch_spec(cli, cfg) is None,
    })
    &&& s.autolaunch_watch == (cfg.autolaunch.watch || cli.autolaunch@.len() > 0)
    &&& s.xwayland_path@ == match cfg.xwayland.path {
        Some(p) => p@,
        None => "/usr/bin/Xwayland"@,
    }
    &&& s.config_path == config_path
    &&& s.legacy_ini_found == legacy
    &&& s.config == cfg
}

fn backend_names_exec(cli: &Cli, cfg: &Config) -> (r: Vec<String>)
    ensures
        views(r@) == backend_names(*cli, *cfg),
{
    proof {
        reveal_strlit("drm");
    }
    match &cli.backend {
        Some(b) => split_list(b.as_str()),
        None => if cfg.core.backends.len() > 0 {
            clone_strings(&cfg.core.backends)
        } else {
            match &cfg.core.backend {
                Some(b) => split_list(b.as_str()),
                None => {
                    let v = vec![owned("drm")];
                    assert(views(v@) =~= seq!["drm"@]);
                    v
                },
            }
        },
    }
}

fn contains_backend(v: &Vec<Backend>, b: Backend) -> (r: bool)
    ensures
        r == v@.contains(b),
{
    let mut i: usize = 0;
    while i < v.len()
        invariant
            i <= v@.len(),
            forall|k: int| 0 <= k < i ==> v@[k] != b,
        decreases v@.len() - i,
    {
        if v[i] == b {
            assert(v@[i as int] == b);
            return true;
        }
        i += 1;
    }
    false
}

fn parse_backend_list(names: &Vec<String>) -> (r: Result<Vec<Backend>, String>)
    ensures
        match r {
            Ok(v) => parse_backends(views(names@)) == Ok::<Seq<Backend>, Seq<char>>(v@),
            Err(e) => parse_backends(views(names@)) == Err::<Seq<Backend>, Seq<char>>(e@),
        },
{
    let ghost ns = views(names@);
    let mut out: Vec<Backend> = Vec::new();
    let mut i: usize = 0;
    while i < names.len()
        invariant
            i <= names@.len(),
            ns == views(names@),
            parse_backends(ns.take(i as int)) == Ok::<Seq<Backend>, Seq<char>>(out@),
        decreases names@.len() - i,
    {
        assert(ns.take(i + 1).drop_last() =~= ns.take(i as int));
        assert(ns.take(i + 1).last() == names@[i as int]@);
        match Backend::parse(names[i].as_str()) {
            None => {
                proof {
                    lemma_parse_backends_err_sticks(ns, i + 1);
                }
                return Err(names[i].clone());
            },
            Some(b) => {
                if !contains_backend(&out, b) {
                    out.push(b);
                }
            },
        }
        i += 1;
    }
    assert(ns.take(i as int) =~= ns);
    Ok(out)
}

/// Once a prefix fails, the whole list fails with the same name.
proof fn lemma_parse_backends_err_sticks(ns: Seq<Seq<char>>, k: int)
    requires
        0 <= k <= ns.len(),
        parse_backends(ns.take(k)) is Err,
    ensures
        parse_backends(ns) == parse_backends(ns.take(k)),
    decreases ns.len() - k,
{
    if k == ns.len() {
        assert(ns.take(k) =~= ns);
    } else {
        assert(ns.take(k + 1).drop_last() =~= ns.take(k));
        lemma_parse_backends_err_sticks(ns, k + 1);
    }
}

fn renderer_name_exec(cli: &Cli, cfg: &Config) -> (r: Option<String>)
    ensures
        opt_view(r) == renderer_name(*cli, *cfg),
{
    proof {
        reveal_strlit("gl");
        reveal_strlit("pixman");
    }
    match &cli.renderer {
        Some(r) => Some(r.clone()),
        None => if cli.use_gl {
            Some(owned("gl"))
        } else if cli.use_pixman {
            Some(owned("pixman"))
        } else {
            clone_opt(&cfg.core.renderer)
        },
    }
}

fn renderer_of(n: &Option<String>) -> (r: Option<Renderer>)
    ensures
        r == renderer_named(opt_view(*n)),
{
    match n {
        None => Some(Renderer::Auto),
        Some(s) => {
            let s = s.as_str();
            if str_eq(s, "auto") {
                Some(Renderer::Auto)
            } else if str_eq(s, "gl") {
                Some(Renderer::Gl)
            } else if str_eq(s, "pixman") {
                Some(Renderer::Pixman)
            } else if str_eq(s, "noop") {
                Some(Renderer::Noop)
            } else {
                None
            }
        },
    }
}

fn positive_check(name: &str, v: Option<i32>) -> (r: Option<String>)
    ensures
        match r {
            Some(m) => v matches Some(x) && x <= 0 && m@ == name@ + " must be positive (got "@
                + decimal(v->0 as int) + ")"@,
            None => !(v matches Some(x) && x <= 0),
        },
{
    match v {
        Some(x) => if x <= 0 {
            let a = concat2(name, " must be positive (got ");
            let d = format_i64(x as i64);
            let m = concat3(a.as_str(), d.as_str(), ")");
            Some(m)
        } else {
            None
        },
        None => None,
    }
}

fn output_scale_check(outs: &Vec<crate::config::Output>) -> (r: Option<String>)
    ensures
        opt_view(r) == output_scale_error(outs@, 0),
{
    let mut i: usize = 0;
    while i < outs.len()
        invariant
            i <= outs@.len(),
            output_scale_error(outs@, 0) == output_scale_error(outs@, i as int),
        decreases outs@.len() - i,
    {
        match outs[i].scale {
            Some(v) => if v <= 0 {
                let name = match &outs[i].name {
                    Some(n) => n.clone(),
                    None => owned("<unnamed>"),
                };
                proof {
                    reveal_strlit("<unnamed>");
                }
                let a = concat3("[output] '", name.as_str(), "': scale must be positive (got ");
                let d = format_i64(v as i64);
                let m = concat3(a.as_str(), d.as_str(), ")");
                return Some(m);
            },
            None => {},
        }
        i += 1;
    }
    None
}

fn opt_or_string(a: &Option<String>, b: &Option<String>) -> (r: Option<String>)
    ensures
        r == opt_or(*a, *b),
{
    match a {
        Some(x) => Some(x.clone()),
        None => clone_opt(b),
    }
}

/// The module list: `--modules` replaces the file's `[core] modules`
/// whatever the file says (its comma list, items trimmed, empty ones
/// dropped); without the flag the file's list is kept as written.
pub proof fn law_modules_flag_replaces_file(
    cli: Cli,
    cfg: Config,
    config_path: Option<String>,
    legacy: Option<String>,
    s: Settings,
)
    requires
        settled(cli, cfg, config_path, legacy, s),
    ensures
        cli.modules matches Some(m) ==> views(s.modules@) == comma_list(m@),
        cli.modules is None ==> views(s.modules@) == views(cfg.core.modules@),
{
}

/// Combine the validated model, the command line and the discovered
/// file into the settings; or the first error, checks in order.
pub fn settle(cli: &Cli, config: Config, config_path: Option<String>, legacy: Option<String>) -> (r:
    Result<Settings, ConfigError>)
    ensures
        match r {
            Ok(s) => settle_error(*cli, config) is None && settled(*cli, config, config_path, legacy, s),
            Err(ConfigError::Invalid(m)) => settle_error(*cli, config) == Some(m@),
        },
{
    proof {
        reveal_strlit("unknown backend \"");
        reveal_strlit("\"");
    }
    let names = backend_names_exec(cli, &config);
    let backends = match parse_backend_list(&names) {
        Ok(v) => v,
        Err(name) => {
            let m = concat3("unknown backend \"", name.as_str(), "\"");
            return Err(ConfigError::Invalid(m));
        },
    };
    if (cli.use_gl && cli.use_pixman) || (cli.renderer.is_some() && (cli.use_gl || cli.use_pixman)) {
        return Err(ConfigError::Invalid(owned("Conflicting renderer specifications")));
    }
    let rname = renderer_name_exec(cli, &config);
    let renderer = match renderer_of(&rname) {
        Some(r) => r,
        None => {
            let other = match &rname {
                Some(n) => n.clone(),
                None => String::new(),
            };
            let m = concat3("unknown renderer \"", other.as_str(), "\"");
            return Err(ConfigError::Invalid(m));
        },
    };
    let background_color = match &config.shell.background_color {
        Some(c) => match parse_color(c.as_str(), "[shell] background-color") {
            Ok(v) => v,
            Err(e) => return Err(e),
        },
        None => 0xff002244,
    };
    match positive_check("--width", cli.width) {
        Some(m) => return Err(ConfigError::Invalid(m)),
        None => {},
    }
    match positive_check("--height", cli.height) {
        Some(m) => return Err(ConfigError::Invalid(m)),
        None => {},
    }
    match positive_check("--scale", cli.scale) {
        Some(m) => return Err(ConfigError::Invalid(m)),
        None => {},
    }
    match output_scale_check(&config.output) {
        Some(m) => return Err(ConfigError::Invalid(m)),
        None => {},
    }
    let autolaunch = if cli.autolaunch.len() > 0 {
        Some(clone_strings(&cli.autolaunch))
    } else {
        match &config.autolaunch.path {
            Some(p) => {
                let v = vec![p.clone()];
                assert(views(v@) =~= seq![p@]);
                Some(v)
            },
            None => None,
        }
    };
    let modules = match &cli.modules {
        Some(m) => split_list(m.as_str()),
        None => clone_strings(&config.core.modules),
    };
    let port = match cli.port {
        Some(p) => Some(p),
        None => if contains_backend(&backends, Backend::Vnc) {
            config.vnc.port
        } else if contains_backend(&backends, Backend::Rdp) {
            config.rdp.port
        } else {
            None
        },
    };
    let xwayland_path = match &config.xwayland.path {
        Some(p) => p.clone(),
        None => owned("/usr/bin/Xwayland"),
    };
    let s = Settings {
        backends,
        renderer,
        socket: clone_opt(&cli.socket),
        log_file: clone_opt(&cli.log),
        debug_protocol: cli.debug,
        wait_for_debugger: cli.wait_for_debugger || config.core.wait_for_debugger,
        xwayland: cli.xwayland || config.core.xwayland,
        idle_time: match cli.idle_time {
            Some(t) => Some(t),
            None => config.core.idle_time,
        },
        modules,
        require_input: config.core.require_input,
        color_management: config.core.color_management,
        gbm_format: clone_opt(&config.core.gbm_format),
        background_color,
        shell_client: clone_opt(&config.shell.client),
        width: cli.width,
        height: cli.height,
        scale: cli.scale,
        transform: clone_opt(&cli.transform),
        fullscreen: cli.fullscreen,
        output_count: cli.output_count,
        no_input: cli.no_input,
        sprawl: cli.sprawl,
        wayland_display: clone_opt(&cli.display),
        cursor_theme: clone_opt(&config.shell.cursor_theme),
        cursor_size: match config.shell.cursor_size {
            Some(v) => v,
            None => 32,
        },
        pipewire_num_outputs: config.pipewire.num_outputs,
        parent_display: clone_opt(&cli.display),
        no_outputs: cli.no_outputs,
        refresh_rate: cli.refresh_rate,
        drm_seat: clone_opt(&cli.seat),
        drm_device: clone_opt(&cli.drm_device),
        drm_additional_devices: clone_opt(&cli.additional_devices),
        drm_current_mode: cli.current_mode,
        continue_without_input: cli.continue_without_input,
        rdp_vnc_port: port,
        vnc_bind_address: opt_or_string(&cli.address, &config.vnc.address),
        vnc_refresh_rate: config.vnc.refresh_rate,
        vnc_disable_tls: cli.disable_transport_layer_security || match config.vnc.disable_transport_layer_security {
            Some(b) => b,
            None => false,
        },
        rdp_tls_cert: opt_or_string(&cli.rdp_tls_cert, &config.rdp.tls_cert),
        rdp_tls_key: opt_or_string(&cli.rdp_tls_key, &config.rdp.tls_key),
        vnc_tls_cert: opt_or_string(&cli.vnc_tls_cert, &config.vnc.tls_cert),
        vnc_tls_key: opt_or_string(&cli.vnc_tls_key, &config.vnc.tls_key),
        rdp_external_listener_fd: match cli.external_listener_fd {
            Some(f) => Some(f),
            None => config.rdp.external_listener_fd,
        },
        rdp_resizeable: !cli.no_resizeable && match config.rdp.resizeable {
            Some(b) => b,
            None => true,
        },
        rdp_force_no_compression: cli.force_no_compression || match config.rdp.force_no_compression {
            Some(b) => b,
            None => false,
        },
        rdp4_key: clone_opt(&cli.rdp4_key),
        rdp_env_socket: cli.env_socket,
        rdp_remotefx_codec: !cli.no_remotefx_codec && match config.rdp.remotefx_codec {
            Some(b) => b,
            None => true,
        },
        autolaunch,
        autolaunch_watch: config.autolaunch.watch || cli.autolaunch.len() > 0,
        xwayland_path,
        config_path,
        legacy_ini_found: legacy,
        config,
    };
    Ok(s)
}


/// The command line beats the file: a backend list, a renderer, a port
/// or a trailing command given as flags decide alone, whatever the file
/// says; and a command given on the command line is always watched.
pub proof fn law_command_line_wins(
    cli: Cli,
    cfg1: Config,
    cfg2: Config,
    p: Option<String>,
    l: Option<String>,
    s: Settings,
)
    requires
        settled(cli, cfg1, p, l, s),
    ensures
        cli.backend is Some ==> backend_names(cli, cfg1) == backend_names(cli, cfg2),
        cli.renderer is Some ==> renderer_name(cli, cfg1) == renderer_name(cli, cfg2),
        cli.port is Some ==> s.rdp_vnc_port == cli.port,
        cli.autolaunch@.len() > 0 ==> s.autolaunch is Some && views(s.autolaunch->0@) == views(
            cli.autolaunch@,
        ) && s.autolaunch_watch,
{
}

} // verus!
