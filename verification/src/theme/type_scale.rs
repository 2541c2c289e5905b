//! The type scale, in pixels. 13px is the UI base and nothing goes below 11px.

use vstd::prelude::*;

verus! {

pub const FS_11: u32 = 11;
pub const FS_12: u32 = 12;
/// The UI base.
pub const FS_13: u32 = 13;
pub const FS_14: u32 = 14;
pub const FS_16: u32 = 16;
pub const FS_18: u32 = 18;
pub const FS_22: u32 = 22;
pub const FS_28: u32 = 28;

} // verus!
