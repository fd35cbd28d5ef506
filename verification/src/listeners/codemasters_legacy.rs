//! Engine states from Codemasters EGO-engine titles.

use vstd::prelude::*;

use crate::codemasters_legacy;
use crate::codemasters_legacy::Telemetry;
use crate::layout;
use crate::listeners::{EngineState, GameId};
use crate::wire;

verus! {

pub const GAME: GameId = GameId::CodemastersLegacy;

/// The engine state in a datagram. In menus the redline is not above idle, and
/// there is none.
pub fn parse(buf: &[u8]) -> (r: Option<EngineState>)
    ensures
        ({
            let rpm = codemasters_legacy::tenfold(wire::f32_at(buf@, 148));
            let redline = codemasters_legacy::tenfold(wire::f32_at(buf@, 252));
            let idle = codemasters_legacy::tenfold(wire::f32_at(buf@, 256));
            &&& r is Some <==> buf.len() >= codemasters_legacy::PACKET_BYTES && redline > idle
            &&& r matches Some(e) ==> e.rpm == rpm && e.rpm_redline == redline && e.rpm_idle == idle
        }),
        buf@.len() < 264 ==> r is None,
        forall|sent: Telemetry| #[trigger]
            layout::starts_with(buf@, sent) ==> {
                let rpm = codemasters_legacy::tenfold(sent.rpm_div_10);
                let redline = codemasters_legacy::tenfold(sent.max_rpm_div_10);
                let idle = codemasters_legacy::tenfold(sent.idle_rpm_div_10);
                &&& r is Some <==> redline > idle
                &&& r matches Some(e) ==> e.rpm == rpm && e.rpm_redline == redline && e.rpm_idle
                    == idle
            },
{
    let t: Telemetry = match Telemetry::from_bytes(buf) {
        Some(t) => t,
        None => {
            return None;
        },
    };
    if t.redline_rpm() <= t.idle_rpm() {
        return None;
    }
    Some(EngineState { rpm: t.rpm(), rpm_redline: t.redline_rpm(), rpm_idle: t.idle_rpm() })
}

} // verus!
