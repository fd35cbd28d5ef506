//! Bits of the `flags` field.

use vstd::prelude::*;

verus! {

pub const TURBO: u16 = 8192;

/// The player prefers km/h over mph.
pub const KM: u16 = 16384;

/// The player prefers bar over psi.
pub const BAR: u16 = 32768;

} // verus!
