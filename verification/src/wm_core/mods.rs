//! Modifier masks as the X server reports them in key events.
use vstd::prelude::*;

verus! {

/// Alt.
pub const ALT: u16 = 8;
/// No modifier.
pub const NONE: u16 = 0;
/// Shift.
pub const SHIFT: u16 = 1;
/// The Super (Windows) key.
pub const MOD_4: u16 = 64;
/// Control.
pub const CONTROL: u16 = 4;
/// Alt and Shift together.
pub const ALT_SHIFT: u16 = ALT | SHIFT;
/// Alt and Control together.
pub const ALT_CONTROL: u16 = ALT | CONTROL;
/// Shift and Control together.
pub const SHIFT_CONTROL: u16 = SHIFT | CONTROL;

} // verus!
