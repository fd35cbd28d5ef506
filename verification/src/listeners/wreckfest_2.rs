//! Engine states from Wreckfest 2.

use vstd::prelude::*;

use crate::layout;
use crate::listeners::{EngineState, GameId};
use crate::wire;
use crate::wreckfest;
use crate::wreckfest::{Packet, PacketType};

verus! {

pub const GAME: GameId = GameId::Wreckfest2;

/// The engine state in a datagram, where that is a packet about the player.
pub fn parse(buf: &[u8]) -> (r: Option<EngineState>)
    ensures
        r is Some <==> wreckfest::holds(buf@, PacketType::Main),
        r matches Some(e) ==> {
            &&& e.rpm == wire::i32_at(buf@, 435)
            &&& e.rpm_redline == wire::i32_at(buf@, 443)
            &&& e.rpm_idle == wire::i32_at(buf@, 447)
        },
        r is Some <==> buf@.len() >= 1218 && wire::u32_at(buf@, 0) == 1869769584 && buf@[4] == 0,
        forall|sent: Packet| #[trigger]
            layout::wreckfest::arrives(sent, buf@) ==> (r == match sent {
                Packet::Main(main) => Some(
                    EngineState {
                        rpm: main.car.engine.rpm,
                        rpm_redline: main.car.engine.rpm_redline,
                        rpm_idle: main.car.engine.rpm_idle,
                    },
                ),
                _ => None,
            }),
{
    match wreckfest::parse(buf) {
        Some(Packet::Main(main)) => Some(
            EngineState {
                rpm: main.car.engine.rpm,
                rpm_redline: main.car.engine.rpm_redline,
                rpm_idle: main.car.engine.rpm_idle,
            },
        ),
        _ => None,
    }
}

} // verus!
