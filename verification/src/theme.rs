//! The design system, in Rust.
//!
//! Taken from the design's token files rather than eyeballed from
//! screenshots. Every value here has a counterpart there, and the token name
//! is kept so the two can be diffed by a person.
//!
//! Three rules the tokens encode, worth stating because they are easy to
//! violate later:
//!
//! - **Dark is the default and light is real, not an afterthought.** Both
//!   palettes are defined in full; nothing computes one from the other.
//! - **Provenance colour is load-bearing.** Measured, derived and inferred
//!   each get their own hue and they are never reused for anything else.
//! - **Elevation in dark is surface value plus a hairline, not blur.**
//!
//! Colours are `0xRRGGBBAA`; the renderer turns them into its own type.

pub mod palette;
pub mod radius;
pub mod space;
pub mod type_scale;

use crate::config::TrustTier;
use crate::finding::{Confidence, Provenance};
use vstd::prelude::*;

verus! {

/// Which palette is in force.
#[derive(Debug, Clone, Copy, PartialEq, Eq, Structural)]
pub enum Appearance {
    Dark,
    Light,
}

impl Default for Appearance {
    fn default() -> (a: Self)
        ensures
            a == Appearance::Dark,
    {
        Appearance::Dark
    }
}

pub open spec fn appearance_label(a: Appearance) -> Seq<char> {
    match a {
        Appearance::Dark => "Dark"@,
        Appearance::Light => "Light"@,
    }
}

pub open spec fn flipped(a: Appearance) -> Appearance {
    match a {
        Appearance::Dark => Appearance::Light,
        Appearance::Light => Appearance::Dark,
    }
}

impl Appearance {
    pub fn label(self) -> (s: &'static str)
        ensures
            s@ == appearance_label(self),
    {
        match self {
            Appearance::Dark => "Dark",
            Appearance::Light => "Light",
        }
    }

    pub fn toggled(self) -> (a: Self)
        ensures
            a == flipped(self),
    {
        match self {
            Appearance::Dark => Appearance::Light,
            Appearance::Light => Appearance::Dark,
        }
    }
}

/// An opaque colour from a palette value.
fn opaque(rgb: u32) -> (c: u32)
    requires
        rgb < 0x1000000,
    ensures
        c == rgb * 256 + 0xFF,
{
    rgb * 256 + 0xFF
}

/// Every semantic colour the interface uses.
///
/// Named after the design's custom properties one-for-one, so a change in the
/// design system can be applied here name for name.
#[derive(Debug, Clone, Copy, PartialEq, Eq, Structural)]
pub struct Colours {
    // Surfaces
    pub surface_app: u32,
    pub surface_panel: u32,
    pub surface_raised: u32,
    pub surface_sunken: u32,
    pub surface_input: u32,
    pub surface_hover: u32,
    pub surface_active: u32,
    pub surface_selected: u32,
    pub surface_canvas: u32,
    pub surface_overlay: u32,
    pub surface_code: u32,

    // Text
    pub text_primary: u32,
    pub text_body: u32,
    pub text_secondary: u32,
    pub text_muted: u32,
    pub text_disabled: u32,
    pub text_inverse: u32,
    pub text_accent: u32,

    // Borders
    pub border_subtle: u32,
    pub border_default: u32,
    pub border_strong: u32,
    pub border_accent: u32,
    pub divider: u32,

    // Accent and actions
    pub accent: u32,
    pub accent_hover: u32,
    pub accent_press: u32,
    pub accent_quiet: u32,
    pub on_accent: u32,
    pub focus_ring: u32,

    // Status
    pub status_pass: u32,
    pub status_pass_bg: u32,
    pub status_fail: u32,
    pub status_fail_bg: u32,
    pub status_warn: u32,
    pub status_warn_bg: u32,
    pub status_info: u32,
    pub status_info_bg: u32,
    pub status_neutral: u32,
    pub status_running: u32,

    // Provenance: the most load-bearing colour decision here.
    pub prov_measured: u32,
    pub prov_measured_bg: u32,
    pub prov_derived: u32,
    pub prov_derived_bg: u32,
    pub prov_inferred: u32,
    pub prov_inferred_bg: u32,

    // Confidence: Certain and High read as measurement, Probable and
    // Speculative as claim.
    pub confidence_certain: u32,
    pub confidence_high: u32,
    pub confidence_probable: u32,
    pub confidence_speculative: u32,

    // Metric deltas
    pub delta_improve: u32,
    pub delta_regress: u32,
    pub delta_flat: u32,

    // Trust tiers
    pub tier_observe: u32,
    pub tier_propose: u32,
    pub tier_tune: u32,
    pub tier_autonomous: u32,
}

/// The dark theme's tokens, resolved.
pub open spec fn dark_colours() -> Colours {
    Colours {
        surface_app: 0x0E1116FF,
        surface_panel: 0x14181FFF,
        surface_raised: 0x1A1F27FF,
        surface_sunken: 0x0A0D11FF,
        surface_input: 0x1A1F27FF,
        surface_hover: 0x222834FF,
        surface_active: 0x282F3CFF,
        surface_selected: 0x1E2733FF,
        surface_canvas: 0x0B0E13FF,
        surface_overlay: 0x1A1F27FF,
        surface_code: 0x0C0F14FF,
        text_primary: 0xF2F4F7FF,
        text_body: 0xC2C8D4FF,
        text_secondary: 0x98A0B3FF,
        text_muted: 0x6E7891FF,
        text_disabled: 0x4E596FFF,
        text_inverse: 0x0E1116FF,
        text_accent: 0xFF8A42FF,
        border_subtle: 0x222834FF,
        border_default: 0x2F3745FF,
        border_strong: 0x3D4658FF,
        border_accent: 0xFF6F15FF,
        divider: 0x222834FF,
        accent: 0xFF6F15FF,
        accent_hover: 0xFF8A42FF,
        accent_press: 0xD95C0CFF,
        accent_quiet: 0xFF6F1524,
        on_accent: 0x1A0C02FF,
        focus_ring: 0xFF8A42FF,
        status_pass: 0x46C08DFF,
        status_pass_bg: 0x12251EFF,
        status_fail: 0xE5565BFF,
        status_fail_bg: 0x2A1417FF,
        status_warn: 0xE5A93CFF,
        status_warn_bg: 0x291F0FFF,
        status_info: 0x5B8FB9FF,
        status_info_bg: 0x111C26FF,
        status_neutral: 0x6E7891FF,
        status_running: 0xFF8A42FF,
        prov_measured: 0x46C08DFF,
        prov_measured_bg: 0x12251EFF,
        prov_derived: 0x98A0B3FF,
        prov_derived_bg: 0x222834FF,
        prov_inferred: 0xFF6F15FF,
        prov_inferred_bg: 0xFF6F151F,
        confidence_certain: 0x46C08DFF,
        confidence_high: 0x8ADCBBFF,
        confidence_probable: 0xFF8A42FF,
        confidence_speculative: 0xFFC9A3FF,
        delta_improve: 0x46C08DFF,
        delta_regress: 0xE5565BFF,
        delta_flat: 0x6E7891FF,
        tier_observe: 0x98A0B3FF,
        tier_propose: 0x5B8FB9FF,
        tier_tune: 0xE5A93CFF,
        tier_autonomous: 0xE5565BFF,
    }
}

/// The light theme's tokens, resolved.
pub open spec fn light_colours() -> Colours {
    Colours {
        surface_app: 0xF2F4F7FF,
        surface_panel: 0xFFFFFFFF,
        surface_raised: 0xFFFFFFFF,
        surface_sunken: 0xE1E5ECFF,
        surface_input: 0xFFFFFFFF,
        surface_hover: 0xF2F4F7FF,
        surface_active: 0xE1E5ECFF,
        surface_selected: 0xFFF4ECFF,
        surface_canvas: 0xFFFFFFFF,
        surface_overlay: 0xFFFFFFFF,
        surface_code: 0xF2F4F7FF,
        text_primary: 0x14181FFF,
        text_body: 0x3D4658FF,
        text_secondary: 0x4E596FFF,
        text_muted: 0x6E7891FF,
        text_disabled: 0x98A0B3FF,
        text_inverse: 0xFFFFFFFF,
        text_accent: 0xB24A08FF,
        border_subtle: 0xE1E5ECFF,
        border_default: 0xC2C8D4FF,
        border_strong: 0x98A0B3FF,
        border_accent: 0xFF6F15FF,
        divider: 0xE1E5ECFF,
        accent: 0xFF6F15FF,
        accent_hover: 0xD95C0CFF,
        accent_press: 0xB24A08FF,
        accent_quiet: 0xFF6F1518,
        on_accent: 0xFFFFFFFF,
        focus_ring: 0xD95C0CFF,
        status_pass: 0x2E8C69FF,
        status_pass_bg: 0xE8F6F0FF,
        status_fail: 0xB33C41FF,
        status_fail_bg: 0xFCECECFF,
        status_warn: 0xB3801FFF,
        status_warn_bg: 0xFDF4E3FF,
        status_info: 0x3F6D96FF,
        status_info_bg: 0xEBF2F8FF,
        status_neutral: 0x6E7891FF,
        status_running: 0xD95C0CFF,
        prov_measured: 0x2E8C69FF,
        prov_measured_bg: 0xE8F6F0FF,
        prov_derived: 0x4E596FFF,
        prov_derived_bg: 0xE1E5ECFF,
        prov_inferred: 0xD95C0CFF,
        prov_inferred_bg: 0xFF6F1516,
        confidence_certain: 0x2E8C69FF,
        confidence_high: 0x46C08DFF,
        confidence_probable: 0xD95C0CFF,
        confidence_speculative: 0xFF8A42FF,
        delta_improve: 0x2E8C69FF,
        delta_regress: 0xB33C41FF,
        delta_flat: 0x6E7891FF,
        tier_observe: 0x4E596FFF,
        tier_propose: 0x3F6D96FF,
        tier_tune: 0xB3801FFF,
        tier_autonomous: 0xB33C41FF,
    }
}

pub open spec fn colours_of(a: Appearance) -> Colours {
    match a {
        Appearance::Dark => dark_colours(),
        Appearance::Light => light_colours(),
    }
}

/// The colour a provenance badge is drawn in, and its background.
pub open spec fn provenance_colours(c: Colours, p: Provenance) -> (u32, u32) {
    match p {
        Provenance::Measured => (c.prov_measured, c.prov_measured_bg),
        Provenance::Derived { .. } => (c.prov_derived, c.prov_derived_bg),
        _ => (c.prov_inferred, c.prov_inferred_bg),
    }
}

pub open spec fn confidence_colour(c: Colours, k: Confidence) -> u32 {
    match k {
        Confidence::Certain => c.confidence_certain,
        Confidence::High => c.confidence_high,
        Confidence::Probable => c.confidence_probable,
        Confidence::Speculative => c.confidence_speculative,
    }
}

pub open spec fn tier_colour(c: Colours, t: TrustTier) -> u32 {
    match t {
        TrustTier::Observe => c.tier_observe,
        TrustTier::Propose => c.tier_propose,
        TrustTier::Tune => c.tier_tune,
        TrustTier::Autonomous => c.tier_autonomous,
    }
}

pub open spec fn delta_colour(c: Colours, improvement: Option<bool>) -> u32 {
    match improvement {
        Some(true) => c.delta_improve,
        Some(false) => c.delta_regress,
        None => c.delta_flat,
    }
}

impl Colours {
    pub fn dark() -> (c: Self)
        ensures
            c == dark_colours(),
    {
        Colours {
            surface_app: opaque(palette::SLATE_950),
            surface_panel: opaque(palette::SLATE_900),
            surface_raised: opaque(palette::SLATE_850),
            surface_sunken: opaque(0x0A0D11),
            surface_input: opaque(palette::SLATE_850),
            surface_hover: opaque(palette::SLATE_800),
            surface_active: opaque(palette::SLATE_750),
            surface_selected: opaque(0x1E2733),
            surface_canvas: opaque(0x0B0E13),
            surface_overlay: opaque(palette::SLATE_850),
            surface_code: opaque(0x0C0F14),
            text_primary: opaque(palette::SLATE_050),
            text_body: opaque(palette::SLATE_200),
            text_secondary: opaque(palette::SLATE_300),
            text_muted: opaque(palette::SLATE_400),
            text_disabled: opaque(palette::SLATE_500),
            text_inverse: opaque(palette::SLATE_950),
            text_accent: opaque(palette::ORANGE_400),
            border_subtle: opaque(palette::SLATE_800),
            border_default: opaque(palette::SLATE_700),
            border_strong: opaque(palette::SLATE_600),
            border_accent: opaque(palette::ORANGE_500),
            divider: opaque(palette::SLATE_800),
            accent: opaque(palette::ORANGE_500),
            accent_hover: opaque(palette::ORANGE_400),
            accent_press: opaque(palette::ORANGE_600),
            accent_quiet: 0xFF6F1524,
            on_accent: opaque(0x1A0C02),
            focus_ring: opaque(palette::ORANGE_400),
            status_pass: opaque(palette::GREEN_500),
            status_pass_bg: opaque(palette::GREEN_TINT),
            status_fail: opaque(palette::RED_500),
            status_fail_bg: opaque(palette::RED_TINT),
            status_warn: opaque(palette::AMBER_500),
            status_warn_bg: opaque(palette::AMBER_TINT),
            status_info: opaque(palette::BLUE_500),
            status_info_bg: opaque(palette::BLUE_TINT),
            status_neutral: opaque(palette::SLATE_400),
            status_running: opaque(palette::ORANGE_400),
            prov_measured: opaque(palette::GREEN_500),
            prov_measured_bg: opaque(palette::GREEN_TINT),
            prov_derived: opaque(palette::SLATE_300),
            prov_derived_bg: opaque(palette::SLATE_800),
            prov_inferred: opaque(palette::ORANGE_500),
            prov_inferred_bg: 0xFF6F151F,
            confidence_certain: opaque(palette::GREEN_500),
            confidence_high: opaque(palette::GREEN_300),
            confidence_probable: opaque(palette::ORANGE_400),
            confidence_speculative: opaque(palette::ORANGE_200),
            delta_improve: opaque(palette::GREEN_500),
            delta_regress: opaque(palette::RED_500),
            delta_flat: opaque(palette::SLATE_400),
            tier_observe: opaque(palette::SLATE_300),
            tier_propose: opaque(palette::BLUE_500),
            tier_tune: opaque(palette::AMBER_500),
            tier_autonomous: opaque(palette::RED_500),
        }
    }

    /// The light theme, defined in full rather than derived.
    ///
    /// Deriving it from the dark one is how light themes end up looking like
    /// an inverted photograph; the design specifies every alias separately and
    /// so does this.
    pub fn light() -> (c: Self)
        ensures
            c == light_colours(),
    {
        Colours {
            surface_app: opaque(palette::SLATE_050),
            surface_panel: opaque(palette::WHITE),
            surface_raised: opaque(palette::WHITE),
            surface_sunken: opaque(palette::SLATE_100),
            surface_input: opaque(palette::WHITE),
            surface_hover: opaque(palette::SLATE_050),
            surface_active: opaque(palette::SLATE_100),
            surface_selected: opaque(palette::ORANGE_050),
            surface_canvas: opaque(palette::WHITE),
            surface_overlay: opaque(palette::WHITE),
            surface_code: opaque(palette::SLATE_050),
            text_primary: opaque(palette::SLATE_900),
            text_body: opaque(palette::SLATE_600),
            text_secondary: opaque(palette::SLATE_500),
            text_muted: opaque(palette::SLATE_400),
            text_disabled: opaque(palette::SLATE_300),
            text_inverse: opaque(palette::WHITE),
            text_accent: opaque(palette::ORANGE_700),
            border_subtle: opaque(palette::SLATE_100),
            border_default: opaque(palette::SLATE_200),
            border_strong: opaque(palette::SLATE_300),
            border_accent: opaque(palette::ORANGE_500),
            divider: opaque(palette::SLATE_100),
            accent: opaque(palette::ORANGE_500),
            accent_hover: opaque(palette::ORANGE_600),
            accent_press: opaque(palette::ORANGE_700),
            accent_quiet: 0xFF6F1518,
            on_accent: opaque(palette::WHITE),
            focus_ring: opaque(palette::ORANGE_600),
            status_pass: opaque(palette::GREEN_600),
            status_pass_bg: opaque(0xE8F6F0),
            status_fail: opaque(palette::RED_600),
            status_fail_bg: opaque(0xFCECEC),
            status_warn: opaque(palette::AMBER_600),
            status_warn_bg: opaque(0xFDF4E3),
            status_info: opaque(palette::BLUE_600),
            status_info_bg: opaque(0xEBF2F8),
            status_neutral: opaque(palette::SLATE_400),
            status_running: opaque(palette::ORANGE_600),
            prov_measured: opaque(palette::GREEN_600),
            prov_measured_bg: opaque(0xE8F6F0),
            prov_derived: opaque(palette::SLATE_500),
            prov_derived_bg: opaque(palette::SLATE_100),
            prov_inferred: opaque(palette::ORANGE_600),
            prov_inferred_bg: 0xFF6F1516,
            confidence_certain: opaque(palette::GREEN_600),
            confidence_high: opaque(palette::GREEN_500),
            confidence_probable: opaque(palette::ORANGE_600),
            confidence_speculative: opaque(palette::ORANGE_400),
            delta_improve: opaque(palette::GREEN_600),
            delta_regress: opaque(palette::RED_600),
            delta_flat: opaque(palette::SLATE_400),
            tier_observe: opaque(palette::SLATE_500),
            tier_propose: opaque(palette::BLUE_600),
            tier_tune: opaque(palette::AMBER_600),
            tier_autonomous: opaque(palette::RED_600),
        }
    }

    /// The colour a provenance badge is drawn in, and its background. There
    /// is one place this is decided, so a badge cannot be drawn in the wrong
    /// hue by accident.
    pub fn provenance(&self, provenance: &Provenance) -> (r: (u32, u32))
        ensures
            r == provenance_colours(*self, *provenance),
    {
        match provenance {
            Provenance::Measured => (self.prov_measured, self.prov_measured_bg),
            Provenance::Derived { .. } => (self.prov_derived, self.prov_derived_bg),
            Provenance::InferredNatively { .. } | Provenance::InferredExternally { .. } => {
                (self.prov_inferred, self.prov_inferred_bg)
            },
        }
    }

    pub fn confidence(&self, confidence: Confidence) -> (r: u32)
        ensures
            r == confidence_colour(*self, confidence),
    {
        match confidence {
            Confidence::Certain => self.confidence_certain,
            Confidence::High => self.confidence_high,
            Confidence::Probable => self.confidence_probable,
            Confidence::Speculative => self.confidence_speculative,
        }
    }

    pub fn tier(&self, tier: TrustTier) -> (r: u32)
        ensures
            r == tier_colour(*self, tier),
    {
        match tier {
            TrustTier::Observe => self.tier_observe,
            TrustTier::Propose => self.tier_propose,
            TrustTier::Tune => self.tier_tune,
            TrustTier::Autonomous => self.tier_autonomous,
        }
    }

    /// Green for an improvement, red for a regression, neutral for no change.
    ///
    /// A result inside the noise floor is `None` and is drawn in `delta_flat`:
    /// colouring it either way would claim a difference that was not
    /// measured.
    pub fn delta(&self, improvement: Option<bool>) -> (r: u32)
        ensures
            r == delta_colour(*self, improvement),
    {
        match improvement {
            Some(true) => self.delta_improve,
            Some(false) => self.delta_regress,
            None => self.delta_flat,
        }
    }
}

/// Everything a view needs to draw itself consistently.
#[derive(Debug, Clone, Copy, PartialEq, Eq, Structural)]
pub struct Theme {
    pub appearance: Appearance,
    pub colours: Colours,
}

impl Default for Theme {
    /// Dark by default.
    fn default() -> (t: Self)
        ensures
            t.appearance == Appearance::Dark,
            t.colours == dark_colours(),
    {
        Theme::of(Appearance::Dark)
    }
}

impl Theme {
    pub fn of(appearance: Appearance) -> (t: Self)
        ensures
            t.appearance == appearance,
            t.colours == colours_of(appearance),
    {
        let colours = match appearance {
            Appearance::Dark => Colours::dark(),
            Appearance::Light => Colours::light(),
        };
        Theme { appearance, colours }
    }

    pub fn toggled(self) -> (t: Self)
        ensures
            t.appearance == flipped(self.appearance),
            t.colours == colours_of(flipped(self.appearance)),
    {
        Theme::of(self.appearance.toggled())
    }

    pub fn is_dark(&self) -> (r: bool)
        ensures
            r == (self.appearance == Appearance::Dark),
    {
        match self.appearance {
            Appearance::Dark => true,
            Appearance::Light => false,
        }
    }

    /// The hairline that carries elevation in dark, as its width in pixels and
    /// its colour. In light, a border does the same job at a different value,
    /// which is why this asks the theme rather than hard-coding one.
    pub fn hairline(&self) -> (r: (u32, u32))
        ensures
            r == (1u32, self.colours.border_subtle),
    {
        (1, self.colours.border_subtle)
    }
}

/// Toggling twice returns the appearance it started from.
pub proof fn lemma_toggling_twice_is_identity(a: Appearance)
    ensures
        flipped(flipped(a)) == a,
{
}

/// In both themes, the three provenances are told apart by hue and not only
/// by glyph, and the two inferred provenances share theirs: the external
/// origin is a badge, not a colour.
pub proof fn lemma_provenance_hues_are_distinct(a: Appearance, rule: String, model: String, agent: String)
    ensures
        ({
            let c = colours_of(a);
            let measured = provenance_colours(c, Provenance::Measured).0;
            let derived = provenance_colours(c, Provenance::Derived { rule }).0;
            let native = provenance_colours(c, Provenance::InferredNatively { model }).0;
            let external = provenance_colours(c, Provenance::InferredExternally { agent }).0;
            measured != derived && derived != native && measured != native && native == external
        }),
{
}

/// In both themes, every trust tier has its own colour, so the dial is
/// readable at a glance.
pub proof fn lemma_tier_colours_are_distinct(a: Appearance, x: TrustTier, y: TrustTier)
    requires
        x != y,
    ensures
        tier_colour(colours_of(a), x) != tier_colour(colours_of(a), y),
{
}

/// In both themes, a result inside the noise floor is drawn flat: neither in
/// the improvement colour nor in the regression colour.
pub proof fn lemma_noise_is_drawn_flat(a: Appearance)
    ensures
        delta_colour(colours_of(a), None) == colours_of(a).delta_flat,
        delta_colour(colours_of(a), None) != colours_of(a).delta_improve,
        delta_colour(colours_of(a), None) != colours_of(a).delta_regress,
{
}

} // verus!
