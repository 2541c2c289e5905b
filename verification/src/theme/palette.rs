//! The base palette, sampled from the SilverKey mark: slate #3D4658 and
//! orange #FF6F15. Shared by both themes; only the semantic aliases change.
//! Each value is `0xRRGGBB`.

use vstd::prelude::*;

verus! {

pub const SLATE_950: u32 = 0x0E1116;
pub const SLATE_900: u32 = 0x14181F;
pub const SLATE_850: u32 = 0x1A1F27;
pub const SLATE_800: u32 = 0x222834;
pub const SLATE_750: u32 = 0x282F3C;
pub const SLATE_700: u32 = 0x2F3745;
pub const SLATE_650: u32 = 0x363F4F;
/// The brand slate — the logo wordmark.
pub const SLATE_600: u32 = 0x3D4658;
pub const SLATE_500: u32 = 0x4E596F;
pub const SLATE_400: u32 = 0x6E7891;
pub const SLATE_350: u32 = 0x828CA3;
pub const SLATE_300: u32 = 0x98A0B3;
pub const SLATE_200: u32 = 0xC2C8D4;
pub const SLATE_100: u32 = 0xE1E5EC;
pub const SLATE_050: u32 = 0xF2F4F7;
pub const WHITE: u32 = 0xFFFFFF;

pub const ORANGE_800: u32 = 0x7A3105;
pub const ORANGE_700: u32 = 0xB24A08;
pub const ORANGE_600: u32 = 0xD95C0C;
/// The brand orange — the logo chevron. Used sparingly and always with
/// intent.
pub const ORANGE_500: u32 = 0xFF6F15;
pub const ORANGE_400: u32 = 0xFF8A42;
pub const ORANGE_300: u32 = 0xFFA870;
pub const ORANGE_200: u32 = 0xFFC9A3;
pub const ORANGE_100: u32 = 0xFFE7D6;
pub const ORANGE_050: u32 = 0xFFF4EC;

// Semantic hues, desaturated to sit beside slate without shouting.
pub const GREEN_600: u32 = 0x2E8C69;
pub const GREEN_500: u32 = 0x46C08D;
pub const GREEN_300: u32 = 0x8ADCBB;
pub const GREEN_TINT: u32 = 0x12251E;

pub const RED_600: u32 = 0xB33C41;
pub const RED_500: u32 = 0xE5565B;
pub const RED_300: u32 = 0xF09499;
pub const RED_TINT: u32 = 0x2A1417;

pub const AMBER_600: u32 = 0xB3801F;
pub const AMBER_500: u32 = 0xE5A93C;
pub const AMBER_300: u32 = 0xF2CD8A;
pub const AMBER_TINT: u32 = 0x291F0F;

pub const BLUE_600: u32 = 0x3F6D96;
pub const BLUE_500: u32 = 0x5B8FB9;
pub const BLUE_300: u32 = 0x9CC0DA;
pub const BLUE_TINT: u32 = 0x111C26;

/// Categorical palette — treemap regions, flamegraph groups, sweep series.
/// Ordered as the design lists them; index by category, never by hash.
pub const CATEGORICAL: [u32; 8] = [
    0xFF6F15, // yours
    0x5B8FB9, // deps
    0x46C08D, // formatting machinery
    0xE5565B, // panic
    0xA98BD1, // unwinding
    0xE5A93C, // Drop glue
    0x5FBFB4, // vtables
    0x8E9AB5, // static data
];

} // verus!
