//! What the command line can ask for.

use vstd::prelude::*;

use crate::assetto_corsa;
use crate::codemasters_legacy;
use crate::forza;
use crate::madness;
use crate::moza::Protocol;
use crate::outgauge;
use crate::wreckfest;

verus! {

pub const DEFAULT_WF2_PORT: u16 = wreckfest::DEFAULT_PORT;

pub const DEFAULT_DR2_PORT: u16 = codemasters_legacy::DEFAULT_PORT;

pub const DEFAULT_BEAMNG_PORT: u16 = outgauge::DEFAULT_PORT;

pub const DEFAULT_AMS2_PORT: u16 = madness::DEFAULT_PORT;

pub const DEFAULT_AC_PORT: u16 = assetto_corsa::DEFAULT_PORT;

pub const DEFAULT_FORZA_PORT: u16 = forza::DEFAULT_PORT;

pub const DEFAULT_LED_COUNT: usize = 10;

/// The whole command line.
#[derive(Debug)]
pub struct Cli {
    pub command: Option<Command>,
    pub listen: ListenArgs,
}

/// What to do other than drive the lights.
#[derive(Debug, Clone, Copy, PartialEq, Eq, Structural)]
pub enum Command {
    /// Find installed games and offer to turn their telemetry on.
    Configure,
}

/// How to drive the lights.
#[derive(Debug)]
pub struct ListenArgs {
    pub wf2_port: u16,
    pub dr2_port: u16,
    pub ams2_port: u16,
    pub beamng_port: u16,
    pub ac_port: u16,
    pub forza_port: u16,
    /// The serial device of the wheelbase, if it is not to be found.
    pub serial: Option<String>,
    pub leds: usize,
    /// The protocol of the wheel, if it is not to be told from the device.
    pub protocol: Option<ProtocolArg>,
    /// Whether every packet gets a status line of its own.
    pub verbose: bool,
}

impl Default for ListenArgs {
    fn default() -> (r: Self)
        ensures
            r.wf2_port == 23123,
            r.dr2_port == 20777,
            r.ams2_port == 5606,
            r.beamng_port == 4444,
            r.ac_port == 9996,
            r.forza_port == 9999,
            r.serial is None,
            r.leds == 10,
            r.protocol is None,
            !r.verbose,
    {
        ListenArgs {
            wf2_port: DEFAULT_WF2_PORT,
            dr2_port: DEFAULT_DR2_PORT,
            ams2_port: DEFAULT_AMS2_PORT,
            beamng_port: DEFAULT_BEAMNG_PORT,
            ac_port: DEFAULT_AC_PORT,
            forza_port: DEFAULT_FORZA_PORT,
            serial: None,
            leds: DEFAULT_LED_COUNT,
            protocol: None,
            verbose: false,
        }
    }
}

/// A protocol by name.
#[derive(Debug, Clone, Copy, PartialEq, Eq, Structural)]
pub enum ProtocolArg {
    /// For R9, R12 and newer.
    Modern,
    /// For R3, R5 and ES wheels.
    Legacy,
}

impl From<ProtocolArg> for Protocol {
    fn from(p: ProtocolArg) -> (r: Self) {
        match p {
            ProtocolArg::Modern => Protocol::Modern,
            ProtocolArg::Legacy => Protocol::Legacy,
        }
    }
}

impl vstd::std_specs::convert::FromSpecImpl<ProtocolArg> for Protocol {
    open spec fn obeys_from_spec() -> bool {
        true
    }

    open spec fn from_spec(p: ProtocolArg) -> Self {
        match p {
            ProtocolArg::Modern => Protocol::Modern,
            ProtocolArg::Legacy => Protocol::Legacy,
        }
    }
}

} // verus!
