//! Output configuration policy.
//!
//! Plain data: the frontend resolves its settings into an
//! [`OutputPolicy`] once at startup, and the heads-changed handler
//! consults it per head.  Precedence per head: backend defaults, then
//! the name-matched `[[output]]` section, then CLI overrides.

use vstd::prelude::*;
use crate::text::{clone_opt, concat3, owned, str_eq};

verus! {

/// wl_output_transform, typed (the `transform=` grammar).
#[derive(Debug, Clone, Copy, PartialEq, Eq, Structural, Default)]
pub enum OutputTransform {
    #[default]
    Normal,
    Rotate90,
    Rotate180,
    Rotate270,
    Flipped,
    FlippedRotate90,
    FlippedRotate180,
    FlippedRotate270,
}

/// The transform a name denotes, exactly as the grammar spells it.
pub open spec fn transform_named(s: Seq<char>) -> Option<OutputTransform> {
    if s == "normal"@ {
        Some(OutputTransform::Normal)
    } else if s == "rotate-90"@ {
        Some(OutputTransform::Rotate90)
    } else if s == "rotate-180"@ {
        Some(OutputTransform::Rotate180)
    } else if s == "rotate-270"@ {
        Some(OutputTransform::Rotate270)
    } else if s == "flipped"@ {
        Some(OutputTransform::Flipped)
    } else if s == "flipped-rotate-90"@ {
        Some(OutputTransform::FlippedRotate90)
    } else if s == "flipped-rotate-180"@ {
        Some(OutputTransform::FlippedRotate180)
    } else if s == "flipped-rotate-270"@ {
        Some(OutputTransform::FlippedRotate270)
    } else {
        None
    }
}

impl OutputTransform {
    /// The `transform=` names, exactly.
    pub fn parse(s: &str) -> (r: Option<OutputTransform>)
        ensures
            r == transform_named(s@),
    {
        if str_eq(s, "normal") {
            Some(OutputTransform::Normal)
        } else if str_eq(s, "rotate-90") {
            Some(OutputTransform::Rotate90)
        } else if str_eq(s, "rotate-180") {
            Some(OutputTransform::Rotate180)
        } else if str_eq(s, "rotate-270") {
            Some(OutputTransform::Rotate270)
        } else if str_eq(s, "flipped") {
            Some(OutputTransform::Flipped)
        } else if str_eq(s, "flipped-rotate-90") {
            Some(OutputTransform::FlippedRotate90)
        } else if str_eq(s, "flipped-rotate-180") {
            Some(OutputTransform::FlippedRotate180)
        } else if str_eq(s, "flipped-rotate-270") {
            Some(OutputTransform::FlippedRotate270)
        } else {
            None
        }
    }
}

/// The `eotf-mode=` table.
#[derive(Debug, Clone, Copy, PartialEq, Eq, Structural, Default)]
pub enum EotfMode {
    #[default]
    Sdr,
    HdrGamma,
    St2084,
    Hlg,
}

pub open spec fn eotf_named(s: Seq<char>) -> Option<EotfMode> {
    if s == "sdr"@ {
        Some(EotfMode::Sdr)
    } else if s == "hdr-gamma"@ {
        Some(EotfMode::HdrGamma)
    } else if s == "st2084"@ {
        Some(EotfMode::St2084)
    } else if s == "hlg"@ {
        Some(EotfMode::Hlg)
    } else {
        None
    }
}

impl EotfMode {
    /// The valid names, in the order the error message lists them.
    pub const NAMES: [&'static str; 4] = ["sdr", "hdr-gamma", "st2084", "hlg"];

    pub fn parse(s: &str) -> (r: Option<EotfMode>)
        ensures
            r == eotf_named(s@),
    {
        if str_eq(s, "sdr") {
            Some(EotfMode::Sdr)
        } else if str_eq(s, "hdr-gamma") {
            Some(EotfMode::HdrGamma)
        } else if str_eq(s, "st2084") {
            Some(EotfMode::St2084)
        } else if str_eq(s, "hlg") {
            Some(EotfMode::Hlg)
        } else {
            None
        }
    }
}

/// The `colorimetry-mode=` table.
#[derive(Debug, Clone, Copy, PartialEq, Eq, Structural, Default)]
pub enum ColorimetryMode {
    #[default]
    Default,
    Bt2020Cycc,
    Bt2020Ycc,
    Bt2020Rgb,
    P3d65,
    P3dci,
    Ictcp,
}

pub open spec fn colorimetry_named(s: Seq<char>) -> Option<ColorimetryMode> {
    if s == "default"@ {
        Some(ColorimetryMode::Default)
    } else if s == "bt2020cycc"@ {
        Some(ColorimetryMode::Bt2020Cycc)
    } else if s == "bt2020ycc"@ {
        Some(ColorimetryMode::Bt2020Ycc)
    } else if s == "bt2020rgb"@ {
        Some(ColorimetryMode::Bt2020Rgb)
    } else if s == "p3d65"@ {
        Some(ColorimetryMode::P3d65)
    } else if s == "p3dci"@ {
        Some(ColorimetryMode::P3dci)
    } else if s == "ictcp"@ {
        Some(ColorimetryMode::Ictcp)
    } else {
        None
    }
}

impl ColorimetryMode {
    pub const NAMES: [&'static str; 7] = [
        "default",
        "bt2020cycc",
        "bt2020ycc",
        "bt2020rgb",
        "p3d65",
        "p3dci",
        "ictcp",
    ];

    pub fn parse(s: &str) -> (r: Option<ColorimetryMode>)
        ensures
            r == colorimetry_named(s@),
    {
        if str_eq(s, "default") {
            Some(ColorimetryMode::Default)
        } else if str_eq(s, "bt2020cycc") {
            Some(ColorimetryMode::Bt2020Cycc)
        } else if str_eq(s, "bt2020ycc") {
            Some(ColorimetryMode::Bt2020Ycc)
        } else if str_eq(s, "bt2020rgb") {
            Some(ColorimetryMode::Bt2020Rgb)
        } else if str_eq(s, "p3d65") {
            Some(ColorimetryMode::P3d65)
        } else if str_eq(s, "p3dci") {
            Some(ColorimetryMode::P3dci)
        } else if str_eq(s, "ictcp") {
            Some(ColorimetryMode::Ictcp)
        } else {
            None
        }
    }
}

/// A CIE 1931 xy chromaticity, each coordinate as `f32` bits.
#[derive(Debug, Clone, Copy, PartialEq, Eq, Structural, Default)]
pub struct Chromaticity {
    pub x: u32,
    pub y: u32,
}

/// The red, green and blue primaries.
#[derive(Debug, Clone, Copy, PartialEq, Eq, Structural, Default)]
pub struct Primaries {
    pub red: Chromaticity,
    pub green: Chromaticity,
    pub blue: Chromaticity,
}

/// One `[[color-characteristics]]` block, already parsed and
/// group-validated by the frontend.  The library only carries these
/// values to the backend, so each chromaticity or luminance is held as
/// the bit pattern of its `f32` (`f32::to_bits`).
///
/// The eleven keys form five groups (primaries, white, max luminance,
/// min luminance, maxFALL); each group is given entirely or not at all.
#[derive(Debug, Clone, Copy, PartialEq, Eq, Structural, Default)]
pub struct ColorCharacteristics {
    pub primaries: Option<Primaries>,
    pub white: Option<Chromaticity>,
    pub max_luminance: Option<u32>,
    pub min_luminance: Option<u32>,
    pub max_fall: Option<u32>,
}

/// libweston's characteristic-group bits, in group order.
pub const GROUP_PRIMARIES: u32 = 0x01;
pub const GROUP_WHITE: u32 = 0x02;
pub const GROUP_MAXL: u32 = 0x04;
pub const GROUP_MINL: u32 = 0x08;
pub const GROUP_MAXFALL: u32 = 0x10;

impl ColorCharacteristics {
    /// The set of groups present, as libweston's group mask.
    pub fn group_mask(&self) -> (m: u32)
        ensures
            m == (if self.primaries is Some { GROUP_PRIMARIES } else { 0 }) + (if self.white is Some {
                GROUP_WHITE
            } else {
                0
            }) + (if self.max_luminance is Some { GROUP_MAXL } else { 0 }) + (
            if self.min_luminance is Some {
                GROUP_MINL
            } else {
                0
            }) + (if self.max_fall is Some { GROUP_MAXFALL } else { 0 }),
    {
        let mut mask: u32 = 0;
        if self.primaries.is_some() {
            mask = mask + GROUP_PRIMARIES;
        }
        if self.white.is_some() {
            mask = mask + GROUP_WHITE;
        }
        if self.max_luminance.is_some() {
            mask = mask + GROUP_MAXL;
        }
        if self.min_luminance.is_some() {
            mask = mask + GROUP_MINL;
        }
        if self.max_fall.is_some() {
            mask = mask + GROUP_MAXFALL;
        }
        mask
    }
}

/// The colour slice of an output's configuration.
#[derive(Debug, Clone, PartialEq)]
pub struct ColorSetup {
    /// `icc-profile=`; only consulted when the colour manager is loaded.
    pub icc_profile: Option<String>,
    pub eotf_mode: Option<EotfMode>,
    pub colorimetry_mode: Option<ColorimetryMode>,
    pub characteristics: Option<ColorCharacteristics>,
    /// `allow-hdcp=`.
    pub allow_hdcp: bool,
}

/// The empty colour slice (every key absent, HDCP not allowed).
pub open spec fn empty_color() -> ColorSetup {
    ColorSetup {
        icc_profile: None,
        eotf_mode: None,
        colorimetry_mode: None,
        characteristics: None,
        allow_hdcp: false,
    }
}

impl ColorSetup {
    pub fn copy(&self) -> (r: ColorSetup)
        ensures
            r == *self,
    {
        ColorSetup {
            icc_profile: clone_opt(&self.icc_profile),
            eotf_mode: self.eotf_mode,
            colorimetry_mode: self.colorimetry_mode,
            characteristics: self.characteristics,
            allow_hdcp: self.allow_hdcp,
        }
    }
}

impl Default for ColorSetup {
    fn default() -> (r: ColorSetup)
        ensures
            r == empty_color(),
    {
        ColorSetup {
            icc_profile: None,
            eotf_mode: None,
            colorimetry_mode: None,
            characteristics: None,
            allow_hdcp: false,
        }
    }
}

/// One `[[output]]` section, already parsed by the frontend.
#[derive(Debug, Clone)]
pub struct OutputRule {
    /// Head name this rule configures.
    pub name: String,
    /// Leave this head unenabled.
    pub off: bool,
    /// Parsed `mode = "WxH"`, if present and valid.
    pub size: Option<(i32, i32)>,
    pub scale: Option<i32>,
    pub transform: Option<OutputTransform>,
    /// `resizeable=` (vnc only).
    pub resizeable: Option<bool>,
    pub gbm_format: Option<String>,
    /// The raw `mode =` string (the DRM path resolves it).
    pub mode_string: Option<String>,
    pub max_bpc: Option<u32>,
    pub content_type: Option<String>,
    pub seat: Option<String>,
    pub force_on: bool,
    /// `clone-of=`: the named section controls this head instead.
    pub clone_of: Option<String>,
    pub color: ColorSetup,
    /// `mirror-of=`: the source output this remote head mirrors.
    pub mirror_of: Option<String>,
}

impl OutputRule {
    /// A rule for `name` with every key absent.
    pub fn named(name: &str) -> (r: OutputRule)
        ensures
            r.name@ == name@,
            r.off == false,
            r.size is None,
            r.scale is None,
            r.transform is None,
            r.resizeable is None,
            r.gbm_format is None,
            r.mode_string is None,
            r.max_bpc is None,
            r.content_type is None,
            r.seat is None,
            r.force_on == false,
            r.clone_of is None,
            r.color == empty_color(),
            r.mirror_of is None,
    {
        OutputRule {
            name: owned(name),
            off: false,
            size: None,
            scale: None,
            transform: None,
            resizeable: None,
            gbm_format: None,
            mode_string: None,
            max_bpc: None,
            content_type: None,
            seat: None,
            force_on: false,
            clone_of: None,
            color: ColorSetup::default(),
            mirror_of: None,
        }
    }
}

/// CLI-level overrides (win over any section).
#[derive(Debug, Clone, Copy, Default)]
pub struct OutputCliOverrides {
    pub width: Option<i32>,
    pub height: Option<i32>,
    pub scale: Option<i32>,
    pub transform: Option<OutputTransform>,
}

/// The resolved per-head decision of a windowed backend.
#[derive(Debug, Clone, Copy, PartialEq, Eq, Structural)]
pub struct OutputSetup {
    pub width: i32,
    pub height: i32,
    pub scale: i32,
    pub transform: OutputTransform,
}

/// The whole policy.
#[derive(Debug)]
pub struct OutputPolicy {
    pub default_size: (i32, i32),
    pub default_scale: i32,
    pub default_transform: OutputTransform,
    pub cli: OutputCliOverrides,
    pub rules: Vec<OutputRule>,
}

/// What the pipewire configure needs: 640x480 defaults, section scale,
/// per-output gbm-format, transform forced normal.
#[derive(Debug, Clone, PartialEq)]
pub struct PipewireOutputSetup {
    pub width: i32,
    pub height: i32,
    pub scale: i32,
    pub gbm_format: Option<String>,
}

/// The resolved per-head decision for a VNC output.
#[derive(Debug, Clone, Copy, PartialEq, Eq, Structural)]
pub struct VncOutputSetup {
    pub width: i32,
    pub height: i32,
    pub scale: i32,
    pub resizeable: bool,
}

/// How a DRM output picks its video mode.
#[derive(Debug, Clone, PartialEq, Eq, Default)]
pub enum DrmMode {
    /// `mode=preferred`, and the default when the key is absent.
    #[default]
    Preferred,
    /// `mode=current`, or `--current-mode` for every output.
    Current,
    /// Anything else, handed to the backend verbatim as a modeline.
    Modeline(String),
}

/// The resolved per-head decision for a DRM output.
#[derive(Debug, Clone, PartialEq)]
pub struct DrmOutputSetup {
    pub mode: DrmMode,
    /// `max-bpc=`, default 16; 0 with `mode=current` and no explicit
    /// value, so the current mode is reused without a full modeset.
    pub max_bpc: u32,
    pub scale: i32,
    /// `transform=`; `None` means "the head's own transform".
    pub transform: Option<OutputTransform>,
    pub gbm_format: Option<String>,
    pub content_type: Option<String>,
    /// `seat=`, default the empty string.
    pub seat: String,
    pub color: ColorSetup,
}

/// The payload of [`DrmHeadPlan::Enable`].
#[derive(Debug, Clone, PartialEq)]
pub struct DrmEnablePlan {
    pub output_name: String,
    pub setup: DrmOutputSetup,
}

/// What becomes of a DRM head.
#[derive(Debug, Clone, PartialEq)]
pub enum DrmHeadPlan {
    /// Enable it, on the layoutput named by the section's `name=` (or by
    /// the head itself when no section matches).
    Enable(Box<DrmEnablePlan>),
    /// `mode=off`.
    Off,
    /// A non-desktop head whose controlling section has no `mode=`.
    NonDesktop,
    /// `clone-of` pointed at a missing section, or nested too deep.
    BadCloneOf(String),
}

/// Index of the first rule named `name` at or after `from`.
pub open spec fn rule_from(rules: Seq<OutputRule>, name: Seq<char>, from: int) -> Option<int>
    decreases rules.len() - from,
{
    if from < 0 || from >= rules.len() {
        None
    } else if rules[from].name@ == name {
        Some(from)
    } else {
        rule_from(rules, name, from + 1)
    }
}

/// Index of the first rule named `name`.
pub open spec fn rule_index(rules: Seq<OutputRule>, name: Seq<char>) -> Option<int> {
    rule_from(rules, name, 0)
}

pub proof fn lemma_rule_from(rules: Seq<OutputRule>, name: Seq<char>, from: int)
    requires
        0 <= from,
    ensures
        rule_from(rules, name, from) matches Some(i) ==> from <= i < rules.len() && rules[i].name@
            == name && forall|j: int| from <= j < i ==> rules[j].name@ != name,
        rule_from(rules, name, from) is None ==> forall|j: int|
            from <= j < rules.len() ==> rules[j].name@ != name,
    decreases rules.len() - from,
{
    if from < rules.len() && rules[from].name@ != name {
        lemma_rule_from(rules, name, from + 1);
    }
}

/// Windowed decision: defaults, then the named section, then the CLI.
pub open spec fn decide_sized_spec(p: OutputPolicy, name: Seq<char>, default_size: (i32, i32)) -> Option<
    OutputSetup,
> {
    let idx = rule_index(p.rules@, name);
    if idx is Some && p.rules@[idx->0].off {
        None
    } else {
        let r = p.rules@[idx->0];
        let (w0, h0) = if idx is Some && r.size is Some {
            r.size->0
        } else {
            default_size
        };
        let s0 = if idx is Some && r.scale is Some {
            r.scale->0
        } else {
            p.default_scale
        };
        let t0 = if idx is Some && r.transform is Some {
            r.transform->0
        } else {
            p.default_transform
        };
        Some(
            OutputSetup {
                width: if p.cli.width is Some { p.cli.width->0 } else { w0 },
                height: if p.cli.height is Some { p.cli.height->0 } else { h0 },
                scale: if p.cli.scale is Some { p.cli.scale->0 } else { s0 },
                transform: if p.cli.transform is Some { p.cli.transform->0 } else { t0 },
            },
        )
    }
}

/// VNC decision: 640x480 defaults, section size/scale/resizeable, CLI
/// width/height; never the CLI scale, never a transform.
pub open spec fn decide_vnc_spec(p: OutputPolicy, name: Seq<char>) -> Option<VncOutputSetup> {
    let idx = rule_index(p.rules@, name);
    if idx is Some && p.rules@[idx->0].off {
        None
    } else {
        let r = p.rules@[idx->0];
        let (w0, h0) = if idx is Some && r.size is Some {
            r.size->0
        } else {
            (640i32, 480i32)
        };
        Some(
            VncOutputSetup {
                width: if p.cli.width is Some { p.cli.width->0 } else { w0 },
                height: if p.cli.height is Some { p.cli.height->0 } else { h0 },
                scale: if idx is Some && r.scale is Some { r.scale->0 } else { 1 },
                resizeable: if idx is Some && r.resizeable is Some {
                    r.resizeable->0
                } else {
                    true
                },
            },
        )
    }
}

/// Pipewire decision: as VNC, but with the section's gbm-format and no
/// resizeable flag.
pub open spec fn decide_pipewire_spec(p: OutputPolicy, name: Seq<char>) -> Option<
    PipewireOutputSetup,
> {
    let idx = rule_index(p.rules@, name);
    if idx is Some && p.rules@[idx->0].off {
        None
    } else {
        let r = p.rules@[idx->0];
        let (w0, h0) = if idx is Some && r.size is Some {
            r.size->0
        } else {
            (640i32, 480i32)
        };
        Some(
            PipewireOutputSetup {
                width: if p.cli.width is Some { p.cli.width->0 } else { w0 },
                height: if p.cli.height is Some { p.cli.height->0 } else { h0 },
                scale: if idx is Some && r.scale is Some { r.scale->0 } else { 1 },
                gbm_format: if idx is Some { r.gbm_format } else { None },
            },
        )
    }
}

/// The message for a `clone-of` naming no section.
pub open spec fn clone_of_missing_msg(want: Seq<char>) -> Seq<char> {
    "Configuration error: output section referred to with 'clone-of="@ + want
        + "' not found."@
}

/// The message for a `clone-of` chain deeper than ten sections.
pub open spec fn clone_of_too_deep_msg(head: Seq<char>) -> Seq<char> {
    "Configuration error: 'clone-of' nested too deep for output '"@ + head + "'."@
}

/// The controlling section for `head`, looked up as `want` after
/// `depth` clone-of hops: a bounded walk.
pub open spec fn controlling_from(
    rules: Seq<OutputRule>,
    head: Seq<char>,
    want: Seq<char>,
    depth: int,
) -> Result<Option<int>, Seq<char>>
    decreases 11 - depth,
{
    match rule_index(rules, want) {
        None => if depth > 0 {
            Err(clone_of_missing_msg(want))
        } else {
            Ok(None)
        },
        Some(i) => if depth + 1 > 10 || depth < 0 {
            Err(clone_of_too_deep_msg(head))
        } else {
            match rules[i].clone_of {
                Some(next) => controlling_from(rules, head, next@, depth + 1),
                None => Ok(Some(i)),
            }
        },
    }
}

pub proof fn lemma_controlling_bounds(
    rules: Seq<OutputRule>,
    head: Seq<char>,
    want: Seq<char>,
    depth: int,
)
    ensures
        controlling_from(rules, head, want, depth) matches Ok(Some(i)) ==> 0 <= i < rules.len(),
    decreases 11 - depth,
{
    lemma_rule_from(rules, want, 0);
    match rule_index(rules, want) {
        None => {},
        Some(i) => {
            if depth + 1 > 10 || depth < 0 {
            } else {
                match rules[i].clone_of {
                    Some(next) => lemma_controlling_bounds(rules, head, next@, depth + 1),
                    None => {},
                }
            }
        },
    }
}

/// The section that controls a DRM head, following `clone-of`.
pub open spec fn controlling_rule(rules: Seq<OutputRule>, head: Seq<char>) -> Result<
    Option<int>,
    Seq<char>,
> {
    controlling_from(rules, head, head, 0)
}

/// The video mode a DRM output takes.
pub open spec fn drm_mode_spec(rule: Option<OutputRule>, current_mode_cli: bool) -> DrmMode {
    if current_mode_cli {
        DrmMode::Current
    } else if rule is None || rule->0.mode_string is None {
        DrmMode::Preferred
    } else {
        let m = rule->0.mode_string->0;
        if m@ == "preferred"@ {
            DrmMode::Preferred
        } else if m@ == "current"@ {
            DrmMode::Current
        } else {
            DrmMode::Modeline(m)
        }
    }
}

/// The DRM setup read from the controlling section (or the defaults).
pub open spec fn drm_setup_matches(
    s: DrmOutputSetup,
    rule: Option<OutputRule>,
    current_mode_cli: bool,
) -> bool {
    let r = rule->0;
    &&& s.mode == drm_mode_spec(rule, current_mode_cli)
    &&& s.max_bpc == (if rule is Some && r.max_bpc is Some {
        r.max_bpc->0
    } else if s.mode == DrmMode::Current {
        0u32
    } else {
        16u32
    })
    &&& s.scale == (if rule is Some && r.scale is Some { r.scale->0 } else { 1i32 })
    &&& s.transform == (if rule is Some { r.transform } else { None })
    &&& s.gbm_format == (if rule is Some { r.gbm_format } else { None })
    &&& s.content_type == (if rule is Some { r.content_type } else { None })
    &&& s.seat@ == (if rule is Some && r.seat is Some {
        r.seat->0@
    } else {
        Seq::<char>::empty()
    })
    &&& s.color == (if rule is Some { r.color } else { empty_color() })
}

impl OutputPolicy {
    /// Backend defaults only.
    pub fn defaults(width: i32, height: i32) -> (p: OutputPolicy)
        ensures
            p.default_size == (width, height),
            p.default_scale == 1,
            p.default_transform == OutputTransform::Normal,
            p.cli.width is None && p.cli.height is None && p.cli.scale is None
                && p.cli.transform is None,
            p.rules@.len() == 0,
    {
        OutputPolicy {
            default_size: (width, height),
            default_scale: 1,
            default_transform: OutputTransform::Normal,
            cli: OutputCliOverrides { width: None, height: None, scale: None, transform: None },
            rules: Vec::new(),
        }
    }

    /// Index of the first rule named `name`.
    fn find_rule(&self, name: &str) -> (r: Option<usize>)
        ensures
            r matches Some(i) ==> rule_index(self.rules@, name@) == Some(i as int) && i
                < self.rules@.len(),
            r is None ==> rule_index(self.rules@, name@) is None,
    {
        proof {
            lemma_rule_from(self.rules@, name@, 0);
        }
        let mut i: usize = 0;
        while i < self.rules.len()
            invariant
                i <= self.rules@.len(),
                rule_index(self.rules@, name@) == rule_from(self.rules@, name@, i as int),
            decreases self.rules@.len() - i,
        {
            if str_eq(self.rules[i].name.as_str(), name) {
                return Some(i);
            }
            i += 1;
        }
        None
    }

    /// Decide the setup for a head with the policy's default size.
    /// `None` leaves the head unenabled.
    pub fn decide(&self, head_name: &str) -> (r: Option<OutputSetup>)
        ensures
            r == decide_sized_spec(*self, head_name@, self.default_size),
    {
        self.decide_sized(head_name, self.default_size)
    }

    /// As [`OutputPolicy::decide`], with the backend's own default size.
    pub fn decide_sized(&self, head_name: &str, default_size: (i32, i32)) -> (r: Option<
        OutputSetup,
    >)
        ensures
            r == decide_sized_spec(*self, head_name@, default_size),
    {
        let idx = self.find_rule(head_name);
        let (mut width, mut height) = default_size;
        let mut scale = self.default_scale;
        let mut transform = self.default_transform;
        if let Some(i) = idx {
            let r = &self.rules[i];
            if r.off {
                return None;
            }
            if let Some((w, h)) = r.size {
                width = w;
                height = h;
            }
            if let Some(s) = r.scale {
                scale = s;
            }
            if let Some(t) = r.transform {
                transform = t;
            }
        }
        if let Some(w) = self.cli.width {
            width = w;
        }
        if let Some(h) = self.cli.height {
            height = h;
        }
        if let Some(s) = self.cli.scale {
            scale = s;
        }
        if let Some(t) = self.cli.transform {
            transform = t;
        }
        Some(OutputSetup { width, height, scale, transform })
    }

    /// Decide the setup for a pipewire head.
    pub fn decide_pipewire(&self, head_name: &str) -> (r: Option<PipewireOutputSetup>)
        ensures
            r == decide_pipewire_spec(*self, head_name@),
    {
        let idx = self.find_rule(head_name);
        let (mut width, mut height) = (640i32, 480i32);
        let mut scale = 1i32;
        let mut gbm_format = None;
        if let Some(i) = idx {
            let r = &self.rules[i];
            if r.off {
                return None;
            }
            if let Some((w, h)) = r.size {
                width = w;
                height = h;
            }
            if let Some(s) = r.scale {
                scale = s;
            }
            gbm_format = clone_opt(&r.gbm_format);
        }
        if let Some(w) = self.cli.width {
            width = w;
        }
        if let Some(h) = self.cli.height {
            height = h;
        }
        Some(PipewireOutputSetup { width, height, scale, gbm_format })
    }

    /// Decide the setup for a VNC head.
    pub fn decide_vnc(&self, head_name: &str) -> (r: Option<VncOutputSetup>)
        ensures
            r == decide_vnc_spec(*self, head_name@),
    {
        let idx = self.find_rule(head_name);
        let (mut width, mut height) = (640i32, 480i32);
        let mut scale = 1i32;
        let mut resizeable = true;
        if let Some(i) = idx {
            let r = &self.rules[i];
            if r.off {
                return None;
            }
            if let Some((w, h)) = r.size {
                width = w;
                height = h;
            }
            if let Some(s) = r.scale {
                scale = s;
            }
            if let Some(v) = r.resizeable {
                resizeable = v;
            }
        }
        if let Some(w) = self.cli.width {
            width = w;
        }
        if let Some(h) = self.cli.height {
            height = h;
        }
        Some(VncOutputSetup { width, height, scale, resizeable })
    }

    /// Does some section named `head_name` carry `mirror-of=`?
    pub fn has_mirror_of(&self, head_name: &str) -> (r: bool)
        ensures
            r == exists|i: int|
                0 <= i < self.rules@.len() && #[trigger] self.rules@[i].name@ == head_name@
                    && self.rules@[i].mirror_of is Some,
    {
        let mut i: usize = 0;
        while i < self.rules.len()
            invariant
                i <= self.rules@.len(),
                forall|j: int|
                    0 <= j < i ==> !(#[trigger] self.rules@[j].name@ == head_name@
                        && self.rules@[j].mirror_of is Some),
            decreases self.rules@.len() - i,
        {
            if str_eq(self.rules[i].name.as_str(), head_name) && self.rules[i].mirror_of.is_some() {
                return true;
            }
            i += 1;
        }
        false
    }

    /// The first rule (remote head) configured to mirror `source_name`.
    pub fn mirror_rule_for_source(&self, source_name: &str) -> (r: Option<&OutputRule>)
        ensures
            r matches Some(rule) ==> exists|i: int|
                0 <= i < self.rules@.len() && self.rules@[i] == *rule && (
                #[trigger] self.rules@[i].mirror_of) is Some && self.rules@[i].mirror_of->0@
                    == source_name@ && forall|j: int|
                    0 <= j < i ==> !(self.rules@[j].mirror_of is Some
                        && self.rules@[j].mirror_of->0@ == source_name@),
            r is None ==> forall|j: int|
                0 <= j < self.rules@.len() ==> !(self.rules@[j].mirror_of is Some
                    && self.rules@[j].mirror_of->0@ == source_name@),
    {
        let mut i: usize = 0;
        while i < self.rules.len()
            invariant
                i <= self.rules@.len(),
                forall|j: int|
                    0 <= j < i ==> !(self.rules@[j].mirror_of is Some
                        && self.rules@[j].mirror_of->0@ == source_name@),
            decreases self.rules@.len() - i,
        {
            let hit = match &self.rules[i].mirror_of {
                Some(m) => str_eq(m.as_str(), source_name),
                None => false,
            };
            if hit {
                return Some(&self.rules[i]);
            }
            i += 1;
        }
        None
    }

    /// The section that controls a DRM head, following `clone-of`: at
    /// most ten sections deep, and a `clone-of` naming no section is an
    /// error.  `Ok(None)`: no section names the head.
    fn drm_controlling_rule(&self, head_name: &str) -> (r: Result<Option<usize>, String>)
        ensures
            match (r, controlling_rule(self.rules@, head_name@)) {
                (Ok(Some(i)), Ok(Some(j))) => i == j && i < self.rules@.len(),
                (Ok(None), Ok(None)) => true,
                (Err(m), Err(n)) => m@ == n,
                _ => false,
            },
    {
        proof {
            lemma_controlling_bounds(self.rules@, head_name@, head_name@, 0);
        }
        let mut want = owned(head_name);
        let mut depth: usize = 0;
        loop
            invariant
                depth <= 10,
                controlling_rule(self.rules@, head_name@) == controlling_from(
                    self.rules@,
                    head_name@,
                    want@,
                    depth as int,
                ),
            decreases 11 - depth,
        {
            let idx = self.find_rule(want.as_str());
            match idx {
                None => {
                    if depth > 0 {
                        return Err(
                            concat3(
                                "Configuration error: output section referred to with 'clone-of=",
                                want.as_str(),
                                "' not found.",
                            ),
                        );
                    }
                    return Ok(None);
                },
                Some(i) => {
                    if depth + 1 > 10 {
                        return Err(
                            concat3(
                                "Configuration error: 'clone-of' nested too deep for output '",
                                head_name,
                                "'.",
                            ),
                        );
                    }
                    match &self.rules[i].clone_of {
                        Some(next) => {
                            want = next.clone();
                            depth += 1;
                        },
                        None => {
                            return Ok(Some(i));
                        },
                    }
                },
            }
        }
    }

    /// Preparing a DRM head and configuring its output, as one
    /// decision.  `current_mode_cli` is `--current-mode`.
    pub fn decide_drm(&self, head_name: &str, non_desktop: bool, current_mode_cli: bool) -> (r:
        DrmHeadPlan)
        ensures
            match controlling_rule(self.rules@, head_name@) {
                Err(msg) => r matches DrmHeadPlan::BadCloneOf(m) && m@ == msg,
                Ok(None) => r matches DrmHeadPlan::Enable(plan) && plan.output_name@ == head_name@
                    && drm_setup_matches(plan.setup, None, current_mode_cli),
                Ok(Some(i)) => {
                    let rule = self.rules@[i];
                    if rule.off {
                        r == DrmHeadPlan::Off
                    } else if non_desktop && rule.mode_string is None {
                        r == DrmHeadPlan::NonDesktop
                    } else {
                        r matches DrmHeadPlan::Enable(plan) && plan.output_name@ == rule.name@
                            && drm_setup_matches(plan.setup, Some(rule), current_mode_cli)
                    }
                },
            },
    {
        let found = self.drm_controlling_rule(head_name);
        let idx = match found {
            Ok(r) => r,
            Err(message) => return DrmHeadPlan::BadCloneOf(message),
        };
        match idx {
            None => DrmHeadPlan::Enable(
                Box::new(
                    DrmEnablePlan {
                        output_name: owned(head_name),
                        setup: Self::drm_setup(None, current_mode_cli),
                    },
                ),
            ),
            Some(i) => {
                let rule = &self.rules[i];
                if rule.off {
                    return DrmHeadPlan::Off;
                }
                if non_desktop && rule.mode_string.is_none() {
                    return DrmHeadPlan::NonDesktop;
                }
                DrmHeadPlan::Enable(
                    Box::new(
                        DrmEnablePlan {
                            output_name: rule.name.clone(),
                            setup: Self::drm_setup(Some(rule), current_mode_cli),
                        },
                    ),
                )
            },
        }
    }

    fn drm_setup(rule: Option<&OutputRule>, current_mode_cli: bool) -> (s: DrmOutputSetup)
        ensures
            drm_setup_matches(
                s,
                match rule {
                    Some(r) => Some(*r),
                    None => None,
                },
                current_mode_cli,
            ),
    {
        let mode = if current_mode_cli {
            DrmMode::Current
        } else {
            match rule {
                None => DrmMode::Preferred,
                Some(r) => match &r.mode_string {
                    None => DrmMode::Preferred,
                    Some(m) => {
                        if str_eq(m.as_str(), "preferred") {
                            DrmMode::Preferred
                        } else if str_eq(m.as_str(), "current") {
                            DrmMode::Current
                        } else {
                            DrmMode::Modeline(m.clone())
                        }
                    },
                },
            }
        };
        let is_current = match mode {
            DrmMode::Current => true,
            _ => false,
        };
        match rule {
            None => DrmOutputSetup {
                mode,
                max_bpc: if is_current {
                    0
                } else {
                    16
                },
                scale: 1,
                transform: None,
                gbm_format: None,
                content_type: None,
                seat: String::new(),
                color: ColorSetup::default(),
            },
            Some(r) => DrmOutputSetup {
                mode,
                max_bpc: match r.max_bpc {
                    Some(v) => v,
                    None => if is_current {
                        0
                    } else {
                        16
                    },
                },
                scale: match r.scale {
                    Some(v) => v,
                    None => 1,
                },
                transform: r.transform,
                gbm_format: clone_opt(&r.gbm_format),
                content_type: clone_opt(&r.content_type),
                seat: match &r.seat {
                    Some(v) => v.clone(),
                    None => String::new(),
                },
                color: r.color.copy(),
            },
        }
    }

    /// The colour slice for a head on a simple (non-DRM) backend: the
    /// first section named after the head, or the empty slice.
    pub fn decide_color(&self, head_name: &str) -> (c: ColorSetup)
        ensures
            c == (match rule_index(self.rules@, head_name@) {
                Some(i) => self.rules@[i].color,
                None => empty_color(),
            }),
    {
        match self.find_rule(head_name) {
            Some(i) => self.rules[i].color.copy(),
            None => ColorSetup::default(),
        }
    }

    /// The setup a DRM output gets with no controlling section at all.
    pub fn drm_defaults(&self, current_mode_cli: bool) -> (s: DrmOutputSetup)
        ensures
            drm_setup_matches(s, None, current_mode_cli),
    {
        Self::drm_setup(None, current_mode_cli)
    }

    /// `force-on=true` on the controlling section.
    pub fn drm_force_on(&self, head_name: &str) -> (r: bool)
        ensures
            r == (controlling_rule(self.rules@, head_name@) matches Ok(Some(i))
                && self.rules@[i].force_on),
    {
        match self.drm_controlling_rule(head_name) {
            Ok(Some(i)) => self.rules[i].force_on,
            _ => false,
        }
    }
}

/// CLI overrides win over any section: a CLI width, height, scale or
/// transform is what every enabled windowed head gets.
pub proof fn law_cli_overrides_win(p: OutputPolicy, name: Seq<char>, default_size: (i32, i32))
    requires
        decide_sized_spec(p, name, default_size) is Some,
    ensures
        ({
            let s = decide_sized_spec(p, name, default_size)->0;
            &&& p.cli.width is Some ==> s.width == p.cli.width->0
            &&& p.cli.height is Some ==> s.height == p.cli.height->0
            &&& p.cli.scale is Some ==> s.scale == p.cli.scale->0
            &&& p.cli.transform is Some ==> s.transform == p.cli.transform->0
        }),
{
}

/// An `off` section disables its head on every simple backend, and a
/// head no section names is always enabled with the backend defaults.
pub proof fn law_off_rule_disables_only_its_head(p: OutputPolicy, name: Seq<char>)
    ensures
        (rule_index(p.rules@, name) matches Some(i) && p.rules@[i].off) ==> {
            &&& decide_sized_spec(p, name, p.default_size) is None
            &&& decide_vnc_spec(p, name) is None
            &&& decide_pipewire_spec(p, name) is None
        },
        rule_index(p.rules@, name) is None ==> {
            &&& decide_sized_spec(p, name, p.default_size) is Some
            &&& decide_vnc_spec(p, name) is Some
            &&& decide_pipewire_spec(p, name) is Some
        },
{
}

/// The CLI scale never reaches a VNC head: its scale comes from the
/// section alone (default 1).
pub proof fn law_vnc_ignores_cli_scale(p: OutputPolicy, q: OutputPolicy, name: Seq<char>)
    requires
        p.rules == q.rules,
        p.cli.width == q.cli.width,
        p.cli.height == q.cli.height,
    ensures
        decide_vnc_spec(p, name) == decide_vnc_spec(q, name),
{
}

} // verus!
