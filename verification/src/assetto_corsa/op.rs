//! What a [`Handshake`](super::Handshake) asks for.

use vstd::prelude::*;

verus! {

/// Identify yourself; the game answers with a handshake response.
pub const HANDSHAKE: i32 = 0;

/// A packet for every physics step.
pub const SUBSCRIBE_UPDATE: i32 = 1;

/// A packet every second.
pub const SUBSCRIBE_SPOT: i32 = 2;

/// No more packets.
pub const DISMISS: i32 = 3;

} // verus!
