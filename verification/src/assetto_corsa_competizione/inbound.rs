//! Types of the messages that the game sends.

use vstd::prelude::*;

verus! {

pub const REGISTRATION_RESULT: u8 = 1;

pub const REALTIME_UPDATE: u8 = 2;

pub const REALTIME_CAR_UPDATE: u8 = 3;

pub const ENTRY_LIST: u8 = 4;

pub const TRACK_DATA: u8 = 5;

pub const ENTRY_LIST_CAR: u8 = 6;

pub const BROADCASTING_EVENT: u8 = 7;

} // verus!
