//! Bits of the `dash_lights` and `show_lights` fields: the lights that a car has,
//! and those that are lit.

use vstd::prelude::*;

verus! {

pub const SHIFT: u32 = 0x1;

pub const FULLBEAM: u32 = 0x2;

pub const HANDBRAKE: u32 = 0x4;

pub const PITSPEED: u32 = 0x8;

pub const TC: u32 = 0x10;

pub const SIGNAL_L: u32 = 0x20;

pub const SIGNAL_R: u32 = 0x40;

pub const OILWARN: u32 = 0x100;

pub const BATTERY: u32 = 0x200;

pub const ABS: u32 = 0x400;

} // verus!
