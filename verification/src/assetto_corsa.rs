//! Assetto Corsa 1 "remote telemetry".
//!
//! A client sends a [`Handshake`], gets a [`HandshakeResponse`], subscribes with
//! another handshake and then gets [`RtCarInfo`] packets. Fields are aligned to
//! their size, so `RtCarInfo` has padding after its first byte and after its
//! flags.

use vstd::prelude::*;

use crate::binary32;
use crate::binary32::Binary32;
use crate::layout;
use crate::text;
use crate::utf16;
use crate::wire;
use crate::wire::Record;

pub mod op;

verus! {

/// The UDP port that the game listens on.
pub const DEFAULT_PORT: u16 = 9996;

pub const HANDSHAKE_IDENTIFIER: i32 = 1;

pub const HANDSHAKE_VERSION: i32 = 1;

pub const HANDSHAKE_BYTES: usize = 12;

pub const HANDSHAKE_RESPONSE_BYTES: usize = 408;

pub const RT_CAR_INFO_BYTES: usize = 328;

/// A request to the game.
#[derive(Debug, Clone, Copy, PartialEq, Eq, Structural)]
pub struct Handshake {
    pub identifier: i32,
    pub version: i32,
    pub operation_id: i32,
}

impl Handshake {
    pub fn new(operation_id: i32) -> (r: Self)
        ensures
            r.identifier == HANDSHAKE_IDENTIFIER,
            r.version == HANDSHAKE_VERSION,
            r.operation_id == operation_id,
    {
        Handshake { identifier: HANDSHAKE_IDENTIFIER, version: HANDSHAKE_VERSION, operation_id }
    }

    /// The bytes that are sent.
    pub open spec fn image(self) -> Seq<u8> {
        wire::i32_image(self.identifier) + wire::i32_image(self.version) + wire::i32_image(
            self.operation_id,
        )
    }

    pub fn to_bytes(&self) -> (r: [u8; 12])
        ensures
            r@ == self.image(),
    {
        let a: [u8; 4] = wire::i32_bytes(self.identifier);
        let b: [u8; 4] = wire::i32_bytes(self.version);
        let c: [u8; 4] = wire::i32_bytes(self.operation_id);
        let r: [u8; 12] = [a[0], a[1], a[2], a[3], b[0], b[1], b[2], b[3], c[0], c[1], c[2], c[3]];
        assert(r@ == self.image());
        r
    }
}

/// The fields of a handshake are read back from its bytes.
pub proof fn lemma_handshake_read_back(h: Handshake)
    ensures
        h.image().len() == HANDSHAKE_BYTES,
        wire::i32_at(h.image(), 0) == h.identifier,
        wire::i32_at(h.image(), 4) == h.version,
        wire::i32_at(h.image(), 8) == h.operation_id,
{
    let b = h.image();
    assert(b.subrange(0, 4) == wire::i32_image(h.identifier));
    assert(b.subrange(4, 8) == wire::i32_image(h.version));
    assert(b.subrange(8, 12) == wire::i32_image(h.operation_id));
    wire::lemma_i32_read_back(h.identifier, b, 0);
    wire::lemma_i32_read_back(h.version, b, 4);
    wire::lemma_i32_read_back(h.operation_id, b, 8);
}

/// The answer to a handshake. Texts are fields of 50 UTF-16 units.
#[derive(Debug, Clone, Copy)]
pub struct HandshakeResponse {
    pub car_name: [u16; 50],
    pub driver_name: [u16; 50],
    pub identifier: i32,
    pub version: i32,
    pub track_name: [u16; 50],
    pub track_config: [u16; 50],
}

impl Record for HandshakeResponse {
    open spec fn size() -> nat {
        408
    }

    open spec fn decodes(self, b: Seq<u8>, at: int) -> bool {
        &&& forall|k: int| 0 <= k < 50 ==> #[trigger] self.car_name@[k] == wire::u16_at(b, at + 2 * k)
        &&& forall|k: int| 0 <= k < 50 ==> #[trigger] self.driver_name@[k] == wire::u16_at(b, at + 100 + 2 * k)
        &&& self.identifier == wire::i32_at(b, at + 200)
        &&& self.version == wire::i32_at(b, at + 204)
        &&& forall|k: int| 0 <= k < 50 ==> #[trigger] self.track_name@[k] == wire::u16_at(b, at + 208 + 2 * k)
        &&& forall|k: int| 0 <= k < 50 ==> #[trigger] self.track_config@[k] == wire::u16_at(b, at + 308 + 2 * k)
    }

    fn read(buf: &[u8], at: usize) -> (r: Self) {
        HandshakeResponse {
            car_name: wire::read_u16s::<50>(buf, at),
            driver_name: wire::read_u16s::<50>(buf, at + 100),
            identifier: wire::read_i32(buf, at + 200),
            version: wire::read_i32(buf, at + 204),
            track_name: wire::read_u16s::<50>(buf, at + 208),
            track_config: wire::read_u16s::<50>(buf, at + 308),
        }
    }
}

/// The units before the first zero or percent sign: the game fills the rest of
/// a field with percent signs.
pub open spec fn before_filling(u: Seq<u16>) -> Seq<u16>
    decreases u.len(),
{
    if u.len() == 0 || u[0] == 0 || u[0] == 0x25 {
        Seq::empty()
    } else {
        seq![u[0]] + before_filling(u.skip(1))
    }
}

/// The text of a field.
pub fn decode_wide_string(units: &[u16]) -> (r: String)
    ensures
        r@ == utf16::decode(before_filling(units@)),
{
    let mut end: usize = 0;
    let ghost all = units@;
    proof {
        assert(all.skip(0) == all);
        assert(all.take(0) + before_filling(all) == before_filling(all));
    }
    while end < units.len() && units[end] != 0 && units[end] != 0x25
        invariant
            end <= units.len(),
            all == units@,
            before_filling(all) == all.take(end as int) + before_filling(all.skip(end as int)),
        decreases units.len() - end,
    {
        proof {
            let rest = all.skip(end as int);
            assert(rest.skip(1) == all.skip(end + 1));
            assert(all.take(end + 1) + before_filling(rest.skip(1)) == all.take(end as int)
                + before_filling(rest));
        }
        end = end + 1;
    }
    proof {
        assert(before_filling(all.skip(end as int)).len() == 0);
        assert(all.take(end as int) + before_filling(all.skip(end as int)) == all.take(
            end as int,
        ));
        assert(all.subrange(0, end as int) == all.take(end as int));
    }
    utf16::decode_lossy(&units[0..end])
}

impl HandshakeResponse {
    pub fn from_bytes(buf: &[u8]) -> (r: Option<Self>)
        ensures
            r is Some <==> buf.len() >= HANDSHAKE_RESPONSE_BYTES,
            r matches Some(h) ==> h.decodes(buf@, 0),
            r is Some <==> buf@.len() >= 408,
            forall|sent: HandshakeResponse| #[trigger]
                layout::starts_with(buf@, sent) ==> r == Some(sent),
    {
        proof {
            assert forall|sent: HandshakeResponse| #[trigger] layout::starts_with(buf@, sent) implies buf@.len()
                >= HandshakeResponse::size() by {
                layout::lemma_start_decodes(sent, buf@);
            }
        }
        if buf.len() < HANDSHAKE_RESPONSE_BYTES {
            return None;
        }
        let received: HandshakeResponse = HandshakeResponse::read(buf, 0);
        proof {
            assert forall|sent: HandshakeResponse| #[trigger] layout::starts_with(buf@, sent) implies received
                == sent by {
                layout::lemma_start_read_back(sent, received, buf@);
            }
        }
        Some(received)
    }

    pub fn car(&self) -> (r: String)
        ensures
            r@ == utf16::decode(before_filling(self.car_name@)),
    {
        decode_wide_string(&self.car_name)
    }

    pub fn driver(&self) -> (r: String)
        ensures
            r@ == utf16::decode(before_filling(self.driver_name@)),
    {
        decode_wide_string(&self.driver_name)
    }

    pub fn track(&self) -> (r: String)
        ensures
            r@ == utf16::decode(before_filling(self.track_name@)),
    {
        decode_wide_string(&self.track_name)
    }

    pub fn track_config_name(&self) -> (r: String)
        ensures
            r@ == utf16::decode(before_filling(self.track_config@)),
    {
        decode_wide_string(&self.track_config)
    }
}

/// The state of the car. The identifier is the letter `a`, and `size` the number
/// of bytes that the game has written.
#[derive(Debug, Clone, Copy)]
pub struct RtCarInfo {
    pub identifier: u8,
    pub size: i32,
    pub speed_kmh: Binary32,
    pub speed_mph: Binary32,
    pub speed_ms: Binary32,
    pub is_abs_enabled: u8,
    pub is_abs_in_action: u8,
    pub is_tc_in_action: u8,
    pub is_tc_enabled: u8,
    pub is_in_pit: u8,
    pub is_engine_limiter_on: u8,
    pub acc_g_vertical: Binary32,
    pub acc_g_horizontal: Binary32,
    pub acc_g_frontal: Binary32,
    pub lap_time: i32,
    pub last_lap: i32,
    pub best_lap: i32,
    pub lap_count: i32,
    pub gas: Binary32,
    pub brake: Binary32,
    pub clutch: Binary32,
    pub engine_rpm: Binary32,
    pub steer: Binary32,
    pub gear: i32,
    pub cg_height: Binary32,
    pub wheel_angular_speed: [Binary32; 4],
    pub slip_angle: [Binary32; 4],
    pub slip_angle_contact_patch: [Binary32; 4],
    pub slip_ratio: [Binary32; 4],
    pub tyre_slip: [Binary32; 4],
    pub nd_slip: [Binary32; 4],
    pub load: [Binary32; 4],
    pub dy: [Binary32; 4],
    pub mz: [Binary32; 4],
    pub tyre_dirty_level: [Binary32; 4],
    pub camber_rad: [Binary32; 4],
    pub tyre_radius: [Binary32; 4],
    pub tyre_loaded_radius: [Binary32; 4],
    pub suspension_height: [Binary32; 4],
    pub car_position_normalized: Binary32,
    pub car_slope: Binary32,
    pub car_coordinates: [Binary32; 3],
}

impl Record for RtCarInfo {
    open spec fn size() -> nat {
        328
    }

    open spec fn decodes(self, b: Seq<u8>, at: int) -> bool {
        &&& self.identifier == b[at]
        &&& self.size == wire::i32_at(b, at + 4)
        &&& self.speed_kmh == wire::f32_at(b, at + 8)
        &&& self.speed_mph == wire::f32_at(b, at + 12)
        &&& self.speed_ms == wire::f32_at(b, at + 16)
        &&& self.is_abs_enabled == b[at + 20]
        &&& self.is_abs_in_action == b[at + 21]
        &&& self.is_tc_in_action == b[at + 22]
        &&& self.is_tc_enabled == b[at + 23]
        &&& self.is_in_pit == b[at + 24]
        &&& self.is_engine_limiter_on == b[at + 25]
        &&& self.acc_g_vertical == wire::f32_at(b, at + 28)
        &&& self.acc_g_horizontal == wire::f32_at(b, at + 32)
        &&& self.acc_g_frontal == wire::f32_at(b, at + 36)
        &&& self.lap_time == wire::i32_at(b, at + 40)
        &&& self.last_lap == wire::i32_at(b, at + 44)
        &&& self.best_lap == wire::i32_at(b, at + 48)
        &&& self.lap_count == wire::i32_at(b, at + 52)
        &&& self.gas == wire::f32_at(b, at + 56)
        &&& self.brake == wire::f32_at(b, at + 60)
        &&& self.clutch == wire::f32_at(b, at + 64)
        &&& self.engine_rpm == wire::f32_at(b, at + 68)
        &&& self.steer == wire::f32_at(b, at + 72)
        &&& self.gear == wire::i32_at(b, at + 76)
        &&& self.cg_height == wire::f32_at(b, at + 80)
        &&& forall|k: int| 0 <= k < 4 ==> #[trigger] self.wheel_angular_speed@[k] == wire::f32_at(b, at + 84 + 4 * k)
        &&& forall|k: int| 0 <= k < 4 ==> #[trigger] self.slip_angle@[k] == wire::f32_at(b, at + 100 + 4 * k)
        &&& forall|k: int| 0 <= k < 4 ==> #[trigger] self.slip_angle_contact_patch@[k] == wire::f32_at(b, at + 116 + 4 * k)
        &&& forall|k: int| 0 <= k < 4 ==> #[trigger] self.slip_ratio@[k] == wire::f32_at(b, at + 132 + 4 * k)
        &&& forall|k: int| 0 <= k < 4 ==> #[trigger] self.tyre_slip@[k] == wire::f32_at(b, at + 148 + 4 * k)
        &&& forall|k: int| 0 <= k < 4 ==> #[trigger] self.nd_slip@[k] == wire::f32_at(b, at + 164 + 4 * k)
        &&& forall|k: int| 0 <= k < 4 ==> #[trigger] self.load@[k] == wire::f32_at(b, at + 180 + 4 * k)
        &&& forall|k: int| 0 <= k < 4 ==> #[trigger] self.dy@[k] == wire::f32_at(b, at + 196 + 4 * k)
        &&& forall|k: int| 0 <= k < 4 ==> #[trigger] self.mz@[k] == wire::f32_at(b, at + 212 + 4 * k)
        &&& forall|k: int| 0 <= k < 4 ==> #[trigger] self.tyre_dirty_level@[k] == wire::f32_at(b, at + 228 + 4 * k)
        &&& forall|k: int| 0 <= k < 4 ==> #[trigger] self.camber_rad@[k] == wire::f32_at(b, at + 244 + 4 * k)
        &&& forall|k: int| 0 <= k < 4 ==> #[trigger] self.tyre_radius@[k] == wire::f32_at(b, at + 260 + 4 * k)
        &&& forall|k: int| 0 <= k < 4 ==> #[trigger] self.tyre_loaded_radius@[k] == wire::f32_at(b, at + 276 + 4 * k)
        &&& forall|k: int| 0 <= k < 4 ==> #[trigger] self.suspension_height@[k] == wire::f32_at(b, at + 292 + 4 * k)
        &&& self.car_position_normalized == wire::f32_at(b, at + 308)
        &&& self.car_slope == wire::f32_at(b, at + 312)
        &&& forall|k: int| 0 <= k < 3 ==> #[trigger] self.car_coordinates@[k] == wire::f32_at(b, at + 316 + 4 * k)
    }

    fn read(buf: &[u8], at: usize) -> (r: Self) {
        RtCarInfo {
            identifier: wire::read_u8(buf, at),
            size: wire::read_i32(buf, at + 4),
            speed_kmh: wire::read_f32(buf, at + 8),
            speed_mph: wire::read_f32(buf, at + 12),
            speed_ms: wire::read_f32(buf, at + 16),
            is_abs_enabled: wire::read_u8(buf, at + 20),
            is_abs_in_action: wire::read_u8(buf, at + 21),
            is_tc_in_action: wire::read_u8(buf, at + 22),
            is_tc_enabled: wire::read_u8(buf, at + 23),
            is_in_pit: wire::read_u8(buf, at + 24),
            is_engine_limiter_on: wire::read_u8(buf, at + 25),
            acc_g_vertical: wire::read_f32(buf, at + 28),
            acc_g_horizontal: wire::read_f32(buf, at + 32),
            acc_g_frontal: wire::read_f32(buf, at + 36),
            lap_time: wire::read_i32(buf, at + 40),
            last_lap: wire::read_i32(buf, at + 44),
            best_lap: wire::read_i32(buf, at + 48),
            lap_count: wire::read_i32(buf, at + 52),
            gas: wire::read_f32(buf, at + 56),
            brake: wire::read_f32(buf, at + 60),
            clutch: wire::read_f32(buf, at + 64),
            engine_rpm: wire::read_f32(buf, at + 68),
            steer: wire::read_f32(buf, at + 72),
            gear: wire::read_i32(buf, at + 76),
            cg_height: wire::read_f32(buf, at + 80),
            wheel_angular_speed: wire::read_f32s::<4>(buf, at + 84),
            slip_angle: wire::read_f32s::<4>(buf, at + 100),
            slip_angle_contact_patch: wire::read_f32s::<4>(buf, at + 116),
            slip_ratio: wire::read_f32s::<4>(buf, at + 132),
            tyre_slip: wire::read_f32s::<4>(buf, at + 148),
            nd_slip: wire::read_f32s::<4>(buf, at + 164),
            load: wire::read_f32s::<4>(buf, at + 180),
            dy: wire::read_f32s::<4>(buf, at + 196),
            mz: wire::read_f32s::<4>(buf, at + 212),
            tyre_dirty_level: wire::read_f32s::<4>(buf, at + 228),
            camber_rad: wire::read_f32s::<4>(buf, at + 244),
            tyre_radius: wire::read_f32s::<4>(buf, at + 260),
            tyre_loaded_radius: wire::read_f32s::<4>(buf, at + 276),
            suspension_height: wire::read_f32s::<4>(buf, at + 292),
            car_position_normalized: wire::read_f32(buf, at + 308),
            car_slope: wire::read_f32(buf, at + 312),
            car_coordinates: wire::read_f32s::<3>(buf, at + 316),
        }
    }
}

impl RtCarInfo {
    pub fn from_bytes(buf: &[u8]) -> (r: Option<Self>)
        ensures
            r is Some <==> buf.len() >= RT_CAR_INFO_BYTES,
            r matches Some(p) ==> p.decodes(buf@, 0),
            r is Some <==> buf@.len() >= 328,
            forall|sent: RtCarInfo, gap: Seq<u8>, second_gap: Seq<u8>|
                gap.len() == 3 && second_gap.len() == 2 && buf@.len() >= 328 && buf@.subrange(
                    0,
                    328,
                ) == #[trigger] layout::assetto_corsa::car_info_image(sent, gap, second_gap) ==> r
                    == Some(sent),
    {
        if buf.len() < RT_CAR_INFO_BYTES {
            return None;
        }
        let received: RtCarInfo = RtCarInfo::read(buf, 0);
        proof {
            assert forall|sent: RtCarInfo, gap: Seq<u8>, second_gap: Seq<u8>|
                gap.len() == 3 && second_gap.len() == 2 && buf@.subrange(0, 328) == #[trigger]
                layout::assetto_corsa::car_info_image(sent, gap, second_gap) implies received
                == sent by {
                layout::assetto_corsa::lemma_car_info_read_back(
                    sent,
                    received,
                    gap,
                    second_gap,
                    buf@,
                    0,
                );
            }
        }
        Some(received)
    }

    pub fn rpm(&self) -> (r: i32)
        ensures
            r == self.engine_rpm.clamped(i32::MIN as int, i32::MAX as int),
    {
        self.engine_rpm.to_i32()
    }

    /// The gear as text: "R", "N", "1", "2" and so on.
    pub fn gear_label(&self) -> (r: String)
        ensures
            r@ == if self.gear == 0 {
                "R"@
            } else if self.gear == 1 {
                "N"@
            } else if self.gear > 1 {
                text::signed_decimal(self.gear - 1)
            } else {
                text::signed_decimal(self.gear as int)
            },
            self.gear >= 2 ==> text::all_digits(r@) && text::number_in(r@) == self.gear - 1,
    {
        proof {
            text::lemma_signed_decimal_read_back(self.gear - 1);
        }
        if self.gear == 0 {
            "R".to_owned()
        } else if self.gear == 1 {
            "N".to_owned()
        } else if self.gear > 1 {
            text::number(self.gear as i64 - 1)
        } else {
            text::number(self.gear as i64)
        }
    }

    /// The lap time in seconds: a thousandth of the field.
    pub fn lap_time_s(&self) -> (r: Binary32)
        ensures
            r == Binary32::nearest(self.lap_time as int).over(Binary32 { bits: 0x447A_0000 }),
            0 <= self.lap_time < 0x100_0000 ==> binary32::is_share(self.lap_time as nat, 1000, r),
    {
        proof {
            binary32::lemma_value_of_1000();
            if 0 <= self.lap_time < 0x100_0000 {
                binary32::lemma_share(
                    self.lap_time as nat,
                    1000,
                    Binary32 { bits: 0x447A_0000 },
                );
            }
        }
        Binary32::from_i32(self.lap_time).divide(Binary32 { bits: 0x447A_0000 })
    }
}

/// A text ends before its first zero or percent sign.
pub proof fn lemma_text_ends_at_filling(name: Seq<u16>, filling: u16, rest: Seq<u16>)
    requires
        filling == 0 || filling == 0x25,
        !name.contains(0),
        !name.contains(0x25),
    ensures
        before_filling(name + seq![filling] + rest) == name,
        before_filling(name) == name,
    decreases name.len(),
{
    let u = name + seq![filling] + rest;
    if name.len() > 0 {
        let tail = name.skip(1);
        assert forall|i: int| 0 <= i < tail.len() implies tail[i] != 0 && tail[i] != 0x25 by {
            assert(name.contains(name[i + 1]));
        }
        lemma_text_ends_at_filling(tail, filling, rest);
        assert(u.skip(1) =~= tail + seq![filling] + rest);
        assert(name.contains(name[0]));
        assert(seq![name[0]] + tail =~= name);
    }
}

/// A text that fits a field of the answer is read back.
pub proof fn lemma_wide_text_read_back(text: Seq<char>, filling: u16, rest: Seq<u16>)
    requires
        filling == 0 || filling == 0x25,
        !utf16::encode(text).contains(0),
        !utf16::encode(text).contains(0x25),
    ensures
        utf16::decode(before_filling(utf16::encode(text) + seq![filling] + rest)) == text,
{
    lemma_text_ends_at_filling(utf16::encode(text), filling, rest);
    utf16::lemma_decode_of_encode(text);
}

} // verus!
