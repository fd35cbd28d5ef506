//! Drives the light bar of a Moza steering wheel from the telemetry of racing
//! games.
//!
//! The protocol modules say what the packets of each game hold; `listeners`
//! turns them into engine states, `led` into lights and `moza` into frames for
//! the wheel. `runtime` is the main loop and `configure` knows how games are
//! told to send telemetry. `binary32`, `wire`, `utf16`, `text` and `json` are
//! what these are built on, and `layout` says what packets look like to those who
//! send them. Nothing here touches a socket, a port or a file.

pub mod assetto_corsa;
pub mod assetto_corsa_competizione;
pub mod binary32;
pub mod cli;
pub mod codemasters_legacy;
pub mod configure;
pub mod forza;
pub mod json;
pub mod layout;
pub mod led;
pub mod listeners;
pub mod madness;
pub mod moza;
pub mod outgauge;
pub mod runtime;
pub mod text;
pub mod utf16;
pub mod wire;
pub mod wreckfest;
