//! Forza "Data Out" telemetry: Forza Motorsport 7, Forza Horizon 4 and 5.
//!
//! Packets have 232 bytes (Sled) or 311, 324 or 331 bytes (Dash). All of them
//! start with the same 20 bytes, which hold all that the light bar needs.

use vstd::prelude::*;

use crate::binary32::Binary32;
use crate::layout;
use crate::wire;
use crate::wire::Record;

verus! {

/// The port is chosen in the game's settings; this is the one to suggest.
pub const DEFAULT_PORT: u16 = 9999;

/// The smallest packet (Sled).
pub const MIN_PACKET_BYTES: usize = 232;

/// The part that all packets share.
pub const HEADER_BYTES: usize = 20;

/// The first 20 bytes of every packet.
#[derive(Debug, Clone, Copy)]
pub struct Header {
    /// Zero in menus and pauses, one on the track.
    pub is_race_on: u32,
    /// The game's clock in milliseconds.
    pub timestamp_ms: u32,
    pub engine_max_rpm: Binary32,
    pub engine_idle_rpm: Binary32,
    pub current_engine_rpm: Binary32,
}

impl Record for Header {
    open spec fn size() -> nat {
        20
    }

    open spec fn decodes(self, b: Seq<u8>, at: int) -> bool {
        &&& self.is_race_on == wire::u32_at(b, at)
        &&& self.timestamp_ms == wire::u32_at(b, at + 4)
        &&& self.engine_max_rpm == wire::f32_at(b, at + 8)
        &&& self.engine_idle_rpm == wire::f32_at(b, at + 12)
        &&& self.current_engine_rpm == wire::f32_at(b, at + 16)
    }

    fn read(buf: &[u8], at: usize) -> (r: Self) {
        Header {
            is_race_on: wire::read_u32(buf, at),
            timestamp_ms: wire::read_u32(buf, at + 4),
            engine_max_rpm: wire::read_f32(buf, at + 8),
            engine_idle_rpm: wire::read_f32(buf, at + 12),
            current_engine_rpm: wire::read_f32(buf, at + 16),
        }
    }
}

impl Header {
    /// The header of a datagram. Datagrams shorter than the smallest packet are
    /// not from the game.
    pub fn from_bytes(buf: &[u8]) -> (r: Option<Self>)
        ensures
            r is Some <==> buf.len() >= MIN_PACKET_BYTES,
            r matches Some(h) ==> h.decodes(buf@, 0),
            r is Some <==> buf@.len() >= 232,
            forall|sent: Header| #[trigger]
                layout::starts_with(buf@, sent) && buf@.len() >= 232 ==> r == Some(sent),
    {
        if buf.len() < MIN_PACKET_BYTES {
            return None;
        }
        let received: Header = Header::read(buf, 0);
        proof {
            assert forall|sent: Header| #[trigger] layout::starts_with(buf@, sent) implies received
                == sent by {
                layout::lemma_start_read_back(sent, received, buf@);
            }
        }
        Some(received)
    }

    pub fn is_race_on(&self) -> (r: bool)
        ensures
            r <==> self.is_race_on != 0,
    {
        self.is_race_on != 0
    }

    pub fn rpm(&self) -> (r: i32)
        ensures
            r == self.current_engine_rpm.clamped(i32::MIN as int, i32::MAX as int),
    {
        self.current_engine_rpm.to_i32()
    }

    pub fn redline_rpm(&self) -> (r: i32)
        ensures
            r == self.engine_max_rpm.clamped(i32::MIN as int, i32::MAX as int),
    {
        self.engine_max_rpm.to_i32()
    }

    pub fn idle_rpm(&self) -> (r: i32)
        ensures
            r == self.engine_idle_rpm.clamped(i32::MIN as int, i32::MAX as int),
    {
        self.engine_idle_rpm.to_i32()
    }
}

} // verus!
