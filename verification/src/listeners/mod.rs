//! From the packets of each game to the engine state that the light bar shows.

use vstd::prelude::*;

use crate::text;

pub mod assetto_corsa;
pub mod codemasters_legacy;
pub mod forza;
pub mod madness;
pub mod outgauge;
pub mod redline;
pub mod wreckfest_2;

verus! {

/// The engine speed and the band in which the light bar shows it.
#[derive(Debug, Clone, Copy, PartialEq, Eq, Structural)]
pub struct EngineState {
    pub rpm: i32,
    pub rpm_redline: i32,
    pub rpm_idle: i32,
}

/// The game, or family of games, that telemetry comes from.
#[derive(Debug, Clone, Copy, PartialEq, Eq, Structural)]
pub enum GameId {
    Wreckfest2,
    /// Codemasters EGO-engine titles with "extradata" telemetry.
    CodemastersLegacy,
    /// BeamNG.drive, Live For Speed and others that speak OutGauge.
    BeamNG,
    /// Automobilista 2 and Project CARS.
    Ams2,
    /// Assetto Corsa 1.
    AssettoCorsa,
    /// Forza "Data Out".
    Forza,
}

impl GameId {
    /// The tag of the status line.
    pub open spec fn tag(self) -> Seq<char> {
        match self {
            GameId::Wreckfest2 => "WF2"@,
            GameId::CodemastersLegacy => "DR2"@,
            GameId::BeamNG => "BNG"@,
            GameId::Ams2 => "AMS2"@,
            GameId::AssettoCorsa => "AC"@,
            GameId::Forza => "FZA"@,
        }
    }

    /// The name in log lines.
    pub open spec fn title(self) -> Seq<char> {
        match self {
            GameId::Wreckfest2 => "Wreckfest 2"@,
            GameId::CodemastersLegacy => "Codemasters EGO (DR2 / DiRT / F1 / GRID)"@,
            GameId::BeamNG => "BeamNG.drive"@,
            GameId::Ams2 => "Automobilista 2 / Project CARS 2"@,
            GameId::AssettoCorsa => "Assetto Corsa"@,
            GameId::Forza => "Forza (FM7 / FH4 / FH5)"@,
        }
    }

    /// Compact tag for the status line.
    pub fn label(self) -> (r: &'static str)
        ensures
            r@ == self.tag(),
    {
        match self {
            GameId::Wreckfest2 => "WF2",
            GameId::CodemastersLegacy => "DR2",
            GameId::BeamNG => "BNG",
            GameId::Ams2 => "AMS2",
            GameId::AssettoCorsa => "AC",
            GameId::Forza => "FZA",
        }
    }

    /// Full name for log lines.
    pub fn name(self) -> (r: &'static str)
        ensures
            r@ == self.title(),
    {
        match self {
            GameId::Wreckfest2 => "Wreckfest 2",
            GameId::CodemastersLegacy => "Codemasters EGO (DR2 / DiRT / F1 / GRID)",
            GameId::BeamNG => "BeamNG.drive",
            GameId::Ams2 => "Automobilista 2 / Project CARS 2",
            GameId::AssettoCorsa => "Assetto Corsa",
            GameId::Forza => "Forza (FM7 / FH4 / FH5)",
        }
    }
}

/// One engine state and the game that it comes from.
#[derive(Debug, Clone, Copy, PartialEq, Eq, Structural)]
pub struct Update {
    pub game: GameId,
    pub engine: EngineState,
}

/// The address at which telemetry is received.
pub fn bind_address(port: u16) -> (r: String)
    ensures
        r@ == "0.0.0.0:"@ + text::decimal(port as nat),
{
    let mut r: String = String::new();
    r.append("0.0.0.0:");
    text::push_u64(&mut r, port as u64);
    assert(r@ == "0.0.0.0:"@ + text::decimal(port as nat));
    r
}

/// The address of a game on this machine.
pub fn local_address(port: u16) -> (r: String)
    ensures
        r@ == "127.0.0.1:"@ + text::decimal(port as nat),
{
    let mut r: String = String::new();
    r.append("127.0.0.1:");
    text::push_u64(&mut r, port as u64);
    assert(r@ == "127.0.0.1:"@ + text::decimal(port as nat));
    r
}

/// The name of the thread that listens for a game.
pub fn thread_name(game: GameId) -> (r: String)
    ensures
        r@ == "listener-"@ + game.tag(),
{
    let mut r: String = String::new();
    r.append("listener-");
    r.append(game.label());
    assert(r@ == "listener-"@ + game.tag());
    r
}

} // verus!
