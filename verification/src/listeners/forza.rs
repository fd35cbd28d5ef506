//! Engine states from Forza.

use vstd::prelude::*;

use crate::forza;
use crate::forza::Header;
use crate::layout;
use crate::listeners::{EngineState, GameId};
use crate::wire;

verus! {

pub const GAME: GameId = GameId::Forza;

/// The engine state in a datagram. There is none while no race is on, or as
/// long as the redline is not above idle and one.
pub fn parse(buf: &[u8]) -> (r: Option<EngineState>)
    ensures
        ({
            let redline = wire::f32_at(buf@, 8).clamped(i32::MIN as int, i32::MAX as int);
            let idle = wire::f32_at(buf@, 12).clamped(i32::MIN as int, i32::MAX as int);
            let rpm = wire::f32_at(buf@, 16).clamped(i32::MIN as int, i32::MAX as int);
            &&& r is Some <==> buf.len() >= forza::MIN_PACKET_BYTES && wire::u32_at(buf@, 0) != 0
                && redline > idle && redline > 1
            &&& r matches Some(e) ==> e.rpm == rpm && e.rpm_redline == redline && e.rpm_idle == idle
        }),
        buf@.len() < 232 ==> r is None,
        forall|sent: Header| #[trigger]
            layout::starts_with(buf@, sent) && buf@.len() >= 232 ==> {
                let redline = sent.engine_max_rpm.clamped(i32::MIN as int, i32::MAX as int);
                let idle = sent.engine_idle_rpm.clamped(i32::MIN as int, i32::MAX as int);
                let rpm = sent.current_engine_rpm.clamped(i32::MIN as int, i32::MAX as int);
                &&& r is Some <==> sent.is_race_on != 0 && redline > idle && redline >= 2
                &&& r matches Some(e) ==> e.rpm == rpm && e.rpm_redline == redline && e.rpm_idle
                    == idle
            },
{
    let h: Header = match Header::from_bytes(buf) {
        Some(h) => h,
        None => {
            return None;
        },
    };
    if !h.is_race_on() {
        return None;
    }
    let redline: i32 = h.redline_rpm();
    let idle: i32 = h.idle_rpm();
    if redline <= idle || redline <= 1 {
        return None;
    }
    Some(EngineState { rpm: h.rpm(), rpm_redline: redline, rpm_idle: idle })
}

} // verus!
