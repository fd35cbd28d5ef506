//! Where each part of a car stands among the unpacked damage states.

use vstd::prelude::*;

verus! {

pub const ENGINE: usize = 0;

pub const GEARBOX: usize = 1;

pub const BRAKE_FL: usize = 2;

pub const BRAKE_FR: usize = 3;

pub const BRAKE_RL: usize = 4;

pub const BRAKE_RR: usize = 5;

pub const SUSPENSION_FL: usize = 6;

pub const SUSPENSION_FR: usize = 7;

pub const SUSPENSION_RL: usize = 8;

pub const SUSPENSION_RR: usize = 9;

pub const TIRE_FL: usize = 10;

pub const TIRE_FR: usize = 11;

pub const TIRE_RL: usize = 12;

pub const TIRE_RR: usize = 13;

pub const HEAD_GASKET: usize = 14;

pub const RADIATOR: usize = 15;

pub const PISTONS: usize = 16;

pub const TIRE_HUB_FL: usize = 17;

pub const TIRE_HUB_FR: usize = 18;

pub const TIRE_HUB_RL: usize = 19;

pub const TIRE_HUB_RR: usize = 20;

pub const OIL_PAN: usize = 21;

pub const COOLANT: usize = 22;

pub const OIL: usize = 23;

pub const END_BEARINGS: usize = 24;

pub const HALF_SHAFT_FL: usize = 25;

pub const HALF_SHAFT_FR: usize = 26;

pub const HALF_SHAFT_RL: usize = 27;

pub const HALF_SHAFT_RR: usize = 28;

pub const RADIATOR_LEAK: usize = 29;

pub const ARMOR_FL: usize = 30;

pub const ARMOR_FR: usize = 31;

pub const ARMOR_RL: usize = 32;

pub const ARMOR_RR: usize = 33;

pub const ARMOR_SL: usize = 34;

pub const ARMOR_SR: usize = 35;

pub const MISFIRE: usize = 36;

pub const COUNT: usize = 37;

} // verus!
