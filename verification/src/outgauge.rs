//! OutGauge telemetry: Live For Speed, BeamNG.drive and others.
//!
//! A packet has 92 bytes, or 96 with the optional `id` at the end. It carries
//! neither the redline nor the idle speed of the engine.

use vstd::prelude::*;

use crate::binary32;
use crate::binary32::Binary32;
use crate::layout;
use crate::layout::Packed;
use crate::text;
use crate::wire;
use crate::wire::Record;

pub mod dl;
pub mod og;

verus! {

/// The UDP port that the games use out of the box.
pub const DEFAULT_PORT: u16 = 4444;

/// Size of a packet with its `id`.
pub const PACKET_BYTES: usize = 96;

/// Size of a packet without its `id`.
pub const MIN_PACKET_BYTES: usize = 92;

/// A packet.
#[derive(Debug, Clone, Copy)]
pub struct Packet {
    /// Milliseconds since simulator start. BeamNG hardcodes 0.
    pub time: u32,
    /// Car identifier. BeamNG sends "beam".
    pub car: [u8; 4],
    /// `og::*` flags.
    pub flags: u16,
    /// 0 = R, 1 = N, 2 = 1st, 3 = 2nd, ...
    pub gear: i8,
    /// Player id (BeamNG hardcodes 0).
    pub plid: i8,
    /// M/s.
    pub speed: Binary32,
    pub rpm: Binary32,
    /// Bar.
    pub turbo: Binary32,
    /// °C.
    pub eng_temp: Binary32,
    /// 0..=1.
    pub fuel: Binary32,
    /// Bar (BeamNG hardcodes 0).
    pub oil_pressure: Binary32,
    /// °C.
    pub oil_temp: Binary32,
    /// `dl::*` mask of lights this car has.
    pub dash_lights: u32,
    /// `dl::*` mask of lights currently lit.
    pub show_lights: u32,
    /// 0..=1.
    pub throttle: Binary32,
    /// 0..=1.
    pub brake: Binary32,
    /// 0..=1.
    pub clutch: Binary32,
    pub display1: [u8; 16],
    pub display2: [u8; 16],
    pub id: i32,
}

impl Record for Packet {
    open spec fn size() -> nat {
        96
    }

    open spec fn decodes(self, b: Seq<u8>, at: int) -> bool {
        &&& self.time == wire::u32_at(b, at)
        &&& self.car@ == b.subrange(at + 4, at + 8)
        &&& self.flags == wire::u16_at(b, at + 8)
        &&& self.gear == wire::i8_at(b, at + 10)
        &&& self.plid == wire::i8_at(b, at + 11)
        &&& self.speed == wire::f32_at(b, at + 12)
        &&& self.rpm == wire::f32_at(b, at + 16)
        &&& self.turbo == wire::f32_at(b, at + 20)
        &&& self.eng_temp == wire::f32_at(b, at + 24)
        &&& self.fuel == wire::f32_at(b, at + 28)
        &&& self.oil_pressure == wire::f32_at(b, at + 32)
        &&& self.oil_temp == wire::f32_at(b, at + 36)
        &&& self.dash_lights == wire::u32_at(b, at + 40)
        &&& self.show_lights == wire::u32_at(b, at + 44)
        &&& self.throttle == wire::f32_at(b, at + 48)
        &&& self.brake == wire::f32_at(b, at + 52)
        &&& self.clutch == wire::f32_at(b, at + 56)
        &&& self.display1@ == b.subrange(at + 60, at + 76)
        &&& self.display2@ == b.subrange(at + 76, at + 92)
        &&& self.id == wire::i32_at(b, at + 92)
    }

    fn read(buf: &[u8], at: usize) -> (r: Self) {
        Packet {
            time: wire::read_u32(buf, at),
            car: wire::read_bytes::<4>(buf, at + 4),
            flags: wire::read_u16(buf, at + 8),
            gear: wire::read_i8(buf, at + 10),
            plid: wire::read_i8(buf, at + 11),
            speed: wire::read_f32(buf, at + 12),
            rpm: wire::read_f32(buf, at + 16),
            turbo: wire::read_f32(buf, at + 20),
            eng_temp: wire::read_f32(buf, at + 24),
            fuel: wire::read_f32(buf, at + 28),
            oil_pressure: wire::read_f32(buf, at + 32),
            oil_temp: wire::read_f32(buf, at + 36),
            dash_lights: wire::read_u32(buf, at + 40),
            show_lights: wire::read_u32(buf, at + 44),
            throttle: wire::read_f32(buf, at + 48),
            brake: wire::read_f32(buf, at + 52),
            clutch: wire::read_f32(buf, at + 56),
            display1: wire::read_bytes::<16>(buf, at + 60),
            display2: wire::read_bytes::<16>(buf, at + 76),
            id: wire::read_i32(buf, at + 92),
        }
    }
}

/// The bytes of a packet, with zeros for an `id` that is missing.
pub open spec fn zero_filled(b: Seq<u8>) -> Seq<u8> {
    Seq::new(
        96,
        |i: int|
            if i < b.len() {
                b[i]
            } else {
                0
            },
    )
}

/// The bytes before the first zero.
pub open spec fn before_zero(b: Seq<u8>) -> Seq<u8>
    decreases b.len(),
{
    if b.len() == 0 || b[0] == 0 {
        Seq::empty()
    } else {
        seq![b[0]] + before_zero(b.skip(1))
    }
}

impl Packet {
    /// The packet in a datagram, unless the datagram is too short. A missing
    /// `id` is zero.
    pub fn from_bytes(buf: &[u8]) -> (r: Option<Self>)
        ensures
            r is Some <==> buf.len() >= MIN_PACKET_BYTES,
            r matches Some(p) ==> p.decodes(zero_filled(buf@), 0),
            r is Some <==> buf@.len() >= 92,
            r matches Some(p) ==> p.rpm == wire::f32_at(buf@, 16),
            forall|sent: Packet|
                buf@.len() >= 92 && #[trigger] layout::cut_short(buf@, sent) ==> r == Some(sent),
            forall|sent: Packet| #[trigger] layout::starts_with(buf@, sent) ==> r == Some(sent),
    {
        proof {
            assert forall|sent: Packet| #[trigger] layout::starts_with(buf@, sent) implies buf@.len()
                >= Packet::size() by {
                layout::lemma_start_decodes(sent, buf@);
            }
        }
        if buf.len() < MIN_PACKET_BYTES {
            return None;
        }
        let mut whole: [u8; 96] = [0u8;96];
        let mut i: usize = 0;
        while i < PACKET_BYTES && i < buf.len()
            invariant
                i <= PACKET_BYTES,
                i <= buf.len(),
                forall|k: int| 0 <= k < i ==> whole@[k] == buf@[k],
                forall|k: int| i <= k < 96 ==> whole@[k] == 0,
            decreases PACKET_BYTES - i,
        {
            whole[i] = buf[i];
            i = i + 1;
        }
        assert(whole@ == zero_filled(buf@));
        let received: Packet = Packet::read(&whole, 0);
        proof {
            assert forall|sent: Packet| #[trigger] layout::cut_short(buf@, sent) implies received
                == sent by {
                sent.lemma_image_size();
                assert(whole@ == sent.image());
                assert(whole@.subrange(0, 96) == whole@);
                layout::lemma_record_read_back(sent, received, whole@, 0);
            }
            assert forall|sent: Packet| #[trigger] layout::starts_with(buf@, sent) implies received
                == sent by {
                sent.lemma_image_size();
                assert(whole@ == buf@.subrange(0, 96));
                assert(whole@.subrange(0, 96) == whole@);
                layout::lemma_record_read_back(sent, received, whole@, 0);
            }
        }
        Some(received)
    }

    /// The name of the car: the text before the first zero, or "?" where that is
    /// not UTF-8.
    pub fn car_name(&self) -> (r: String)
        ensures
            ({
                let name = before_zero(self.car@);
                r@ == if vstd::utf8::valid_utf8(name) {
                    vstd::utf8::decode_utf8(name)
                } else {
                    "?"@
                }
            }),
    {
        let mut name: Vec<u8> = Vec::new();
        let mut i: usize = 0;
        let ghost all = self.car@;
        proof {
            assert(all.skip(0) == all);
            assert(Seq::<u8>::empty() + before_zero(all) == before_zero(all));
        }
        while i < 4 && self.car[i] != 0
            invariant
                i <= 4,
                all == self.car@,
                before_zero(all) == name@ + before_zero(all.skip(i as int)),
            decreases 4 - i,
        {
            proof {
                let rest = all.skip(i as int);
                assert(rest.skip(1) == all.skip(i + 1));
                assert(name@.push(rest[0]) + before_zero(rest.skip(1)) == name@ + before_zero(
                    rest,
                ));
            }
            name.push(self.car[i]);
            i = i + 1;
        }
        proof {
            assert(before_zero(all.skip(i as int)).len() == 0);
            assert(name@ + before_zero(all.skip(i as int)) == name@);
        }
        match text::utf8_string(name) {
            Some(s) => s,
            None => "?".to_owned(),
        }
    }

    /// The gear as text: "R", "N", "1", "2" and so on.
    pub fn gear_label(&self) -> (r: String)
        ensures
            r@ == if self.gear == 0 {
                "R"@
            } else if self.gear == 1 {
                "N"@
            } else if self.gear > 1 {
                text::signed_decimal(self.gear - 1)
            } else {
                text::signed_decimal(self.gear as int)
            },
            self.gear >= 2 ==> text::all_digits(r@) && text::number_in(r@) == self.gear - 1,
    {
        proof {
            text::lemma_signed_decimal_read_back(self.gear - 1);
        }
        if self.gear == 0 {
            "R".to_owned()
        } else if self.gear == 1 {
            "N".to_owned()
        } else if self.gear > 1 {
            text::number(self.gear as i64 - 1)
        } else {
            text::number(self.gear as i64)
        }
    }

    /// The speed in km/h: 3.6 times the field.
    pub fn speed_kmh(&self) -> (r: Binary32)
        ensures
            r == self.speed.times(Binary32 { bits: 0x4066_6666 }),
            binary32::is_kmh(self.speed, r),
    {
        proof {
            binary32::lemma_kmh(self.speed);
        }
        self.speed.multiply(Binary32 { bits: 0x4066_6666 })
    }

    /// Whether the light that says to change up is lit.
    pub fn shift_active(&self) -> (r: bool)
        ensures
            r <==> self.show_lights & dl::SHIFT != 0,
    {
        self.show_lights & dl::SHIFT != 0
    }
}

/// A text ends before its first zero.
pub proof fn lemma_text_ends_at_zero(name: Seq<u8>, rest: Seq<u8>)
    requires
        !name.contains(0),
    ensures
        before_zero(name + seq![0u8] + rest) == name,
        before_zero(name) == name,
    decreases name.len(),
{
    let b = name + seq![0u8] + rest;
    if name.len() > 0 {
        let tail = name.skip(1);
        assert forall|i: int| 0 <= i < tail.len() implies tail[i] != 0 by {
            assert(name.contains(name[i + 1]));
        }
        lemma_text_ends_at_zero(tail, rest);
        assert(b.skip(1) =~= tail + seq![0u8] + rest);
        assert(name.contains(name[0]));
        assert(seq![name[0]] + tail =~= name);
    }
}

} // verus!
