//! Engine states from Automobilista 2 and Project CARS.

use vstd::prelude::*;

use crate::layout;
use crate::listeners::{EngineState, GameId};
use crate::madness;
use crate::madness::TelemetryPacket;
use crate::wire;

verus! {

pub const GAME: GameId = GameId::Ams2;

/// The game does not send an idle speed; this one is typical.
pub const ASSUMED_IDLE: i32 = 800;

/// The engine state in a datagram, where that is a telemetry packet. In menus
/// and while loading the redline is zero, and there is none.
pub fn parse(buf: &[u8]) -> (r: Option<EngineState>)
    ensures
        r is Some <==> buf.len() >= madness::TELEMETRY_PACKET_BYTES && buf@[10]
            == madness::PACKET_TYPE_TELEMETRY && wire::u16_at(buf@, 42) > 0,
        r matches Some(e) ==> {
            &&& e.rpm == wire::u16_at(buf@, 40)
            &&& e.rpm_redline == wire::u16_at(buf@, 42)
            &&& e.rpm_idle == ASSUMED_IDLE
        },
        buf@.len() < 559 ==> r is None,
        forall|sent: TelemetryPacket| #[trigger]
            layout::starts_with(buf@, sent) ==> {
                &&& r is Some <==> sent.header.packet_type == 0 && sent.data.max_rpm > 0
                &&& r matches Some(e) ==> e.rpm == sent.data.rpm && e.rpm_redline
                    == sent.data.max_rpm && e.rpm_idle == 800
            },
{
    let packet: TelemetryPacket = match TelemetryPacket::from_bytes(buf) {
        Some(p) => p,
        None => {
            return None;
        },
    };
    let redline: i32 = packet.data.redline_rpm();
    if redline <= 0 {
        return None;
    }
    Some(EngineState { rpm: packet.data.rpm(), rpm_redline: redline, rpm_idle: ASSUMED_IDLE })
}

} // verus!
