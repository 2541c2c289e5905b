//! Corner radii, in pixels. Each has one job; picking by eye is how a design
//! system stops being one.

use vstd::prelude::*;

verus! {

/// Provenance markers and inline chips.
pub const CHIP: u32 = 2;
/// Inputs and table selection.
pub const INPUT: u32 = 3;
/// Buttons and tags: the default control radius.
pub const CONTROL: u32 = 5;
/// Panels, cards and dialogs.
pub const PANEL: u32 = 8;
/// Dialog and palette shells.
pub const SHELL: u32 = 12;

} // verus!
