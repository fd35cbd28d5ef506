//! Types of the messages that a client sends.

use vstd::prelude::*;

verus! {

pub const REGISTER_COMMAND_APPLICATION: u8 = 1;

pub const UNREGISTER_COMMAND_APPLICATION: u8 = 9;

pub const REQUEST_ENTRY_LIST: u8 = 10;

pub const REQUEST_TRACK_DATA: u8 = 11;

} // verus!
