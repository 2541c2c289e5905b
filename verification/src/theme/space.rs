//! The 4px grid, and the fixed dimensions of the application frame, in
//! pixels.

use vstd::prelude::*;

verus! {

pub const S2: u32 = 2;
pub const S4: u32 = 4;
pub const S6: u32 = 6;
pub const S8: u32 = 8;
pub const S10: u32 = 10;
pub const S12: u32 = 12;
pub const S16: u32 = 16;
pub const S20: u32 = 20;
pub const S24: u32 = 24;
pub const S32: u32 = 32;
pub const S40: u32 = 40;

/// The frame. These are fixed by the design, not chosen per view.
pub const TITLEBAR_H: u32 = 40;
pub const STATUSBAR_H: u32 = 28;
pub const NAVRAIL_W: u32 = 72;
pub const INSPECTOR_W: u32 = 340;
pub const GUTTER: u32 = 12;

pub const CONTROL_H_SM: u32 = 24;
pub const CONTROL_H_MD: u32 = 30;
pub const CONTROL_H_LG: u32 = 36;
/// A dense data-table row.
pub const ROW_H: u32 = 28;
pub const ROW_H_LG: u32 = 34;

} // verus!
