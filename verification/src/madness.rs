//! Madness-engine telemetry: Project CARS 1 to 3 and Automobilista 2.
//!
//! All packets come on one port and start with a 12-byte header. Its packet type,
//! at offset 10, says what follows. Records have no padding.

use vstd::prelude::*;

use crate::binary32;
use crate::binary32::Binary32;
use crate::layout;
use crate::text;
use crate::wire;
use crate::wire::Record;

verus! {

pub const DEFAULT_PORT: u16 = 5606;

pub const PACKET_TYPE_TELEMETRY: u8 = 0;

pub const PACKET_TYPE_RACE: u8 = 1;

pub const PACKET_TYPE_PARTICIPANTS: u8 = 2;

pub const PACKET_TYPE_TIMINGS: u8 = 3;

pub const PACKET_TYPE_GAME_STATE: u8 = 4;

pub const PACKET_TYPE_WEATHER: u8 = 5;

pub const PACKET_TYPE_VEHICLE_CLASS_NAMES: u8 = 6;

pub const PACKET_TYPE_TIME_STATS: u8 = 7;

pub const PACKET_TYPE_PARTICIPANT_VEHICLE_NAMES: u8 = 8;

pub const HEADER_BYTES: usize = 12;

pub const TELEMETRY_PACKET_BYTES: usize = 559;

/// The name of a packet type.
pub open spec fn name_of_type(t: u8) -> Seq<char> {
    match t {
        0 => "Telemetry"@,
        1 => "Race"@,
        2 => "Participants"@,
        3 => "Timings"@,
        4 => "GameState"@,
        5 => "Weather"@,
        6 => "VehicleClassNames"@,
        7 => "TimeStats"@,
        8 => "ParticipantVehicleNames"@,
        _ => "Unknown"@,
    }
}

/// The name of a packet type.
pub fn packet_type_name(t: u8) -> (r: &'static str)
    ensures
        r@ == name_of_type(t),
{
    match t {
        0 => "Telemetry",
        1 => "Race",
        2 => "Participants",
        3 => "Timings",
        4 => "GameState",
        5 => "Weather",
        6 => "VehicleClassNames",
        7 => "TimeStats",
        8 => "ParticipantVehicleNames",
        _ => "Unknown",
    }
}

/// What every packet starts with.
#[derive(Debug, Clone, Copy)]
pub struct Header {
    pub packet_number: u32,
    pub category_packet_number: u32,
    pub partial_packet_index: u8,
    pub partial_packet_number: u8,
    pub packet_type: u8,
    pub packet_version: u8,
}

/// The state of the viewed car.
#[derive(Debug, Clone, Copy)]
pub struct TelemetryData {
    pub viewed_participant_index: i8,
    pub unfiltered_throttle: u8,
    pub unfiltered_brake: u8,
    pub unfiltered_steering: i8,
    pub unfiltered_clutch: u8,
    pub car_flags: u8,
    pub oil_temp_celsius: i16,
    pub oil_pressure_kpa: u16,
    pub water_temp_celsius: i16,
    pub water_pressure_kpa: i16,
    pub fuel_pressure_kpa: u16,
    pub fuel_capacity: u8,
    pub brake: u8,
    pub throttle: u8,
    pub clutch: u8,
    pub fuel_level: Binary32,
    pub speed: Binary32,
    pub rpm: u16,
    pub max_rpm: u16,
    pub steering: i8,
    /// Low nibble: gear (0=N, 1..n=forward, 15=R). High nibble: total gears.
    pub gear_num_gears: u8,
    pub boost_amount: u8,
    pub crash_state: u8,
    pub odometer_km: Binary32,
    pub orientation: [Binary32; 3],
    pub local_velocity: [Binary32; 3],
    pub world_velocity: [Binary32; 3],
    pub angular_velocity: [Binary32; 3],
    pub local_acceleration: [Binary32; 3],
    pub world_acceleration: [Binary32; 3],
    pub extents_centre: [Binary32; 3],
    pub tyre_flags: [u8; 4],
    pub terrains: [u8; 4],
    pub tyre_y: [Binary32; 4],
    pub tyre_rps: [Binary32; 4],
    pub tyre_temp: [u8; 4],
    pub tyre_height_above_ground: [Binary32; 4],
    pub tyre_wear: [u8; 4],
    pub brake_damage: [u8; 4],
    pub suspension_damage: [u8; 4],
    pub brake_temp_celsius: [i16; 4],
    pub tyre_tread_temp: [u16; 4],
    pub tyre_layer_temp: [u16; 4],
    pub tyre_carcass_temp: [u16; 4],
    pub tyre_rim_temp: [u16; 4],
    pub tyre_internal_air_temp: [u16; 4],
    pub tyre_temp_left: [u16; 4],
    pub tyre_temp_center: [u16; 4],
    pub tyre_temp_right: [u16; 4],
    pub wheel_local_position_y: [Binary32; 4],
    pub ride_height: [Binary32; 4],
    pub suspension_travel: [Binary32; 4],
    pub suspension_velocity: [Binary32; 4],
    pub suspension_ride_height: [u16; 4],
    pub air_pressure: [u16; 4],
    pub engine_speed: Binary32,
    pub engine_torque: Binary32,
    pub wings: [u8; 2],
    pub hand_brake: u8,
    pub aero_damage: u8,
    pub engine_damage: u8,
    pub joy_pad: u32,
    pub d_pad: u8,
    pub tyre_compound: [[u8; 40]; 4],
    pub turbo_boost_pressure: Binary32,
    pub full_position: [Binary32; 3],
    pub brake_bias: u8,
    pub tick_count: u32,
}

/// A packet of type [`PACKET_TYPE_TELEMETRY`].
#[derive(Debug, Clone, Copy)]
pub struct TelemetryPacket {
    pub header: Header,
    pub data: TelemetryData,
}

impl Record for Header {
    open spec fn size() -> nat {
        12
    }

    open spec fn decodes(self, b: Seq<u8>, at: int) -> bool {
        &&& self.packet_number == wire::u32_at(b, at)
        &&& self.category_packet_number == wire::u32_at(b, at + 4)
        &&& self.partial_packet_index == b[at + 8]
        &&& self.partial_packet_number == b[at + 9]
        &&& self.packet_type == b[at + 10]
        &&& self.packet_version == b[at + 11]
    }

    fn read(buf: &[u8], at: usize) -> (r: Self) {
        Header {
            packet_number: wire::read_u32(buf, at),
            category_packet_number: wire::read_u32(buf, at + 4),
            partial_packet_index: wire::read_u8(buf, at + 8),
            partial_packet_number: wire::read_u8(buf, at + 9),
            packet_type: wire::read_u8(buf, at + 10),
            packet_version: wire::read_u8(buf, at + 11),
        }
    }
}

impl Record for TelemetryData {
    open spec fn size() -> nat {
        547
    }

    open spec fn decodes(self, b: Seq<u8>, at: int) -> bool {
        &&& self.viewed_participant_index == wire::i8_at(b, at)
        &&& self.unfiltered_throttle == b[at + 1]
        &&& self.unfiltered_brake == b[at + 2]
        &&& self.unfiltered_steering == wire::i8_at(b, at + 3)
        &&& self.unfiltered_clutch == b[at + 4]
        &&& self.car_flags == b[at + 5]
        &&& self.oil_temp_celsius == wire::i16_at(b, at + 6)
        &&& self.oil_pressure_kpa == wire::u16_at(b, at + 8)
        &&& self.water_temp_celsius == wire::i16_at(b, at + 10)
        &&& self.water_pressure_kpa == wire::i16_at(b, at + 12)
        &&& self.fuel_pressure_kpa == wire::u16_at(b, at + 14)
        &&& self.fuel_capacity == b[at + 16]
        &&& self.brake == b[at + 17]
        &&& self.throttle == b[at + 18]
        &&& self.clutch == b[at + 19]
        &&& self.fuel_level == wire::f32_at(b, at + 20)
        &&& self.speed == wire::f32_at(b, at + 24)
        &&& self.rpm == wire::u16_at(b, at + 28)
        &&& self.max_rpm == wire::u16_at(b, at + 30)
        &&& self.steering == wire::i8_at(b, at + 32)
        &&& self.gear_num_gears == b[at + 33]
        &&& self.boost_amount == b[at + 34]
        &&& self.crash_state == b[at + 35]
        &&& self.odometer_km == wire::f32_at(b, at + 36)
        &&& forall|k: int| 0 <= k < 3 ==> #[trigger] self.orientation@[k] == wire::f32_at(b, at + 40 + 4 * k)
        &&& forall|k: int| 0 <= k < 3 ==> #[trigger] self.local_velocity@[k] == wire::f32_at(b, at + 52 + 4 * k)
        &&& forall|k: int| 0 <= k < 3 ==> #[trigger] self.world_velocity@[k] == wire::f32_at(b, at + 64 + 4 * k)
        &&& forall|k: int| 0 <= k < 3 ==> #[trigger] self.angular_velocity@[k] == wire::f32_at(b, at + 76 + 4 * k)
        &&& forall|k: int| 0 <= k < 3 ==> #[trigger] self.local_acceleration@[k] == wire::f32_at(b, at + 88 + 4 * k)
        &&& forall|k: int| 0 <= k < 3 ==> #[trigger] self.world_acceleration@[k] == wire::f32_at(b, at + 100 + 4 * k)
        &&& forall|k: int| 0 <= k < 3 ==> #[trigger] self.extents_centre@[k] == wire::f32_at(b, at + 112 + 4 * k)
        &&& self.tyre_flags@ == b.subrange(at + 124, at + 128)
        &&& self.terrains@ == b.subrange(at + 128, at + 132)
        &&& forall|k: int| 0 <= k < 4 ==> #[trigger] self.tyre_y@[k] == wire::f32_at(b, at + 132 + 4 * k)
        &&& forall|k: int| 0 <= k < 4 ==> #[trigger] self.tyre_rps@[k] == wire::f32_at(b, at + 148 + 4 * k)
        &&& self.tyre_temp@ == b.subrange(at + 164, at + 168)
        &&& forall|k: int| 0 <= k < 4 ==> #[trigger] self.tyre_height_above_ground@[k] == wire::f32_at(b, at + 168 + 4 * k)
        &&& self.tyre_wear@ == b.subrange(at + 184, at + 188)
        &&& self.brake_damage@ == b.subrange(at + 188, at + 192)
        &&& self.suspension_damage@ == b.subrange(at + 192, at + 196)
        &&& forall|k: int| 0 <= k < 4 ==> #[trigger] self.brake_temp_celsius@[k] == wire::i16_at(b, at + 196 + 2 * k)
        &&& forall|k: int| 0 <= k < 4 ==> #[trigger] self.tyre_tread_temp@[k] == wire::u16_at(b, at + 204 + 2 * k)
        &&& forall|k: int| 0 <= k < 4 ==> #[trigger] self.tyre_layer_temp@[k] == wire::u16_at(b, at + 212 + 2 * k)
        &&& forall|k: int| 0 <= k < 4 ==> #[trigger] self.tyre_carcass_temp@[k] == wire::u16_at(b, at + 220 + 2 * k)
        &&& forall|k: int| 0 <= k < 4 ==> #[trigger] self.tyre_rim_temp@[k] == wire::u16_at(b, at + 228 + 2 * k)
        &&& forall|k: int| 0 <= k < 4 ==> #[trigger] self.tyre_internal_air_temp@[k] == wire::u16_at(b, at + 236 + 2 * k)
        &&& forall|k: int| 0 <= k < 4 ==> #[trigger] self.tyre_temp_left@[k] == wire::u16_at(b, at + 244 + 2 * k)
        &&& forall|k: int| 0 <= k < 4 ==> #[trigger] self.tyre_temp_center@[k] == wire::u16_at(b, at + 252 + 2 * k)
        &&& forall|k: int| 0 <= k < 4 ==> #[trigger] self.tyre_temp_right@[k] == wire::u16_at(b, at + 260 + 2 * k)
        &&& forall|k: int| 0 <= k < 4 ==> #[trigger] self.wheel_local_position_y@[k] == wire::f32_at(b, at + 268 + 4 * k)
        &&& forall|k: int| 0 <= k < 4 ==> #[trigger] self.ride_height@[k] == wire::f32_at(b, at + 284 + 4 * k)
        &&& forall|k: int| 0 <= k < 4 ==> #[trigger] self.suspension_travel@[k] == wire::f32_at(b, at + 300 + 4 * k)
        &&& forall|k: int| 0 <= k < 4 ==> #[trigger] self.suspension_velocity@[k] == wire::f32_at(b, at + 316 + 4 * k)
        &&& forall|k: int| 0 <= k < 4 ==> #[trigger] self.suspension_ride_height@[k] == wire::u16_at(b, at + 332 + 2 * k)
        &&& forall|k: int| 0 <= k < 4 ==> #[trigger] self.air_pressure@[k] == wire::u16_at(b, at + 340 + 2 * k)
        &&& self.engine_speed == wire::f32_at(b, at + 348)
        &&& self.engine_torque == wire::f32_at(b, at + 352)
        &&& self.wings@ == b.subrange(at + 356, at + 358)
        &&& self.hand_brake == b[at + 358]
        &&& self.aero_damage == b[at + 359]
        &&& self.engine_damage == b[at + 360]
        &&& self.joy_pad == wire::u32_at(b, at + 361)
        &&& self.d_pad == b[at + 365]
        &&& forall|k: int|
            0 <= k < 4 ==> (#[trigger] self.tyre_compound@[k])@ == b.subrange(at + 366 + 40 * k, at + 406 + 40 * k)
        &&& self.turbo_boost_pressure == wire::f32_at(b, at + 526)
        &&& forall|k: int| 0 <= k < 3 ==> #[trigger] self.full_position@[k] == wire::f32_at(b, at + 530 + 4 * k)
        &&& self.brake_bias == b[at + 542]
        &&& self.tick_count == wire::u32_at(b, at + 543)
    }

    fn read(buf: &[u8], at: usize) -> (r: Self) {
        TelemetryData {
            viewed_participant_index: wire::read_i8(buf, at),
            unfiltered_throttle: wire::read_u8(buf, at + 1),
            unfiltered_brake: wire::read_u8(buf, at + 2),
            unfiltered_steering: wire::read_i8(buf, at + 3),
            unfiltered_clutch: wire::read_u8(buf, at + 4),
            car_flags: wire::read_u8(buf, at + 5),
            oil_temp_celsius: wire::read_i16(buf, at + 6),
            oil_pressure_kpa: wire::read_u16(buf, at + 8),
            water_temp_celsius: wire::read_i16(buf, at + 10),
            water_pressure_kpa: wire::read_i16(buf, at + 12),
            fuel_pressure_kpa: wire::read_u16(buf, at + 14),
            fuel_capacity: wire::read_u8(buf, at + 16),
            brake: wire::read_u8(buf, at + 17),
            throttle: wire::read_u8(buf, at + 18),
            clutch: wire::read_u8(buf, at + 19),
            fuel_level: wire::read_f32(buf, at + 20),
            speed: wire::read_f32(buf, at + 24),
            rpm: wire::read_u16(buf, at + 28),
            max_rpm: wire::read_u16(buf, at + 30),
            steering: wire::read_i8(buf, at + 32),
            gear_num_gears: wire::read_u8(buf, at + 33),
            boost_amount: wire::read_u8(buf, at + 34),
            crash_state: wire::read_u8(buf, at + 35),
            odometer_km: wire::read_f32(buf, at + 36),
            orientation: wire::read_f32s::<3>(buf, at + 40),
            local_velocity: wire::read_f32s::<3>(buf, at + 52),
            world_velocity: wire::read_f32s::<3>(buf, at + 64),
            angular_velocity: wire::read_f32s::<3>(buf, at + 76),
            local_acceleration: wire::read_f32s::<3>(buf, at + 88),
            world_acceleration: wire::read_f32s::<3>(buf, at + 100),
            extents_centre: wire::read_f32s::<3>(buf, at + 112),
            tyre_flags: wire::read_bytes::<4>(buf, at + 124),
            terrains: wire::read_bytes::<4>(buf, at + 128),
            tyre_y: wire::read_f32s::<4>(buf, at + 132),
            tyre_rps: wire::read_f32s::<4>(buf, at + 148),
            tyre_temp: wire::read_bytes::<4>(buf, at + 164),
            tyre_height_above_ground: wire::read_f32s::<4>(buf, at + 168),
            tyre_wear: wire::read_bytes::<4>(buf, at + 184),
            brake_damage: wire::read_bytes::<4>(buf, at + 188),
            suspension_damage: wire::read_bytes::<4>(buf, at + 192),
            brake_temp_celsius: wire::read_i16s::<4>(buf, at + 196),
            tyre_tread_temp: wire::read_u16s::<4>(buf, at + 204),
            tyre_layer_temp: wire::read_u16s::<4>(buf, at + 212),
            tyre_carcass_temp: wire::read_u16s::<4>(buf, at + 220),
            tyre_rim_temp: wire::read_u16s::<4>(buf, at + 228),
            tyre_internal_air_temp: wire::read_u16s::<4>(buf, at + 236),
            tyre_temp_left: wire::read_u16s::<4>(buf, at + 244),
            tyre_temp_center: wire::read_u16s::<4>(buf, at + 252),
            tyre_temp_right: wire::read_u16s::<4>(buf, at + 260),
            wheel_local_position_y: wire::read_f32s::<4>(buf, at + 268),
            ride_height: wire::read_f32s::<4>(buf, at + 284),
            suspension_travel: wire::read_f32s::<4>(buf, at + 300),
            suspension_velocity: wire::read_f32s::<4>(buf, at + 316),
            suspension_ride_height: wire::read_u16s::<4>(buf, at + 332),
            air_pressure: wire::read_u16s::<4>(buf, at + 340),
            engine_speed: wire::read_f32(buf, at + 348),
            engine_torque: wire::read_f32(buf, at + 352),
            wings: wire::read_bytes::<2>(buf, at + 356),
            hand_brake: wire::read_u8(buf, at + 358),
            aero_damage: wire::read_u8(buf, at + 359),
            engine_damage: wire::read_u8(buf, at + 360),
            joy_pad: wire::read_u32(buf, at + 361),
            d_pad: wire::read_u8(buf, at + 365),
            tyre_compound: [wire::read_bytes(buf, at + 366), wire::read_bytes(buf, at + 406), wire::read_bytes(buf, at + 446), wire::read_bytes(buf, at + 486)],
            turbo_boost_pressure: wire::read_f32(buf, at + 526),
            full_position: wire::read_f32s::<3>(buf, at + 530),
            brake_bias: wire::read_u8(buf, at + 542),
            tick_count: wire::read_u32(buf, at + 543),
        }
    }
}

impl Record for TelemetryPacket {
    open spec fn size() -> nat {
        559
    }

    open spec fn decodes(self, b: Seq<u8>, at: int) -> bool {
        &&& self.header.decodes(b, at)
        &&& self.data.decodes(b, at + 12)
    }

    fn read(buf: &[u8], at: usize) -> (r: Self) {
        TelemetryPacket {
            header: Header::read(buf, at),
            data: TelemetryData::read(buf, at + 12),
        }
    }
}

impl Header {
    /// The header of any packet.
    pub fn from_bytes(buf: &[u8]) -> (r: Option<Self>)
        ensures
            r is Some <==> buf.len() >= HEADER_BYTES,
            r matches Some(h) ==> h.decodes(buf@, 0),
            r is Some <==> buf@.len() >= 12,
            forall|sent: Header| #[trigger] layout::starts_with(buf@, sent) ==> r == Some(sent),
    {
        if buf.len() < HEADER_BYTES {
            return None;
        }
        let received: Header = Header::read(buf, 0);
        proof {
            assert forall|sent: Header| #[trigger] layout::starts_with(buf@, sent) implies received
                == sent by {
                layout::lemma_start_read_back(sent, received, buf@);
            }
        }
        Some(received)
    }
}

impl TelemetryPacket {
    /// The telemetry packet in a datagram, unless the datagram is too short or
    /// holds a packet of another type.
    pub fn from_bytes(buf: &[u8]) -> (r: Option<Self>)
        ensures
            r is Some <==> buf.len() >= TELEMETRY_PACKET_BYTES && buf@[10]
                == PACKET_TYPE_TELEMETRY,
            r matches Some(p) ==> p.decodes(buf@, 0),
            r is Some <==> buf@.len() >= 559 && buf@[10] == 0,
            forall|sent: TelemetryPacket| #[trigger]
                layout::starts_with(buf@, sent) ==> (r == if sent.header.packet_type == 0 {
                    Some(sent)
                } else {
                    None
                }),
    {
        proof {
            assert forall|sent: TelemetryPacket| #[trigger] layout::starts_with(buf@, sent) implies
                buf@.len() >= 559 && buf@[10] == sent.header.packet_type by {
                layout::lemma_start_decodes(sent, buf@);
            }
        }
        if buf.len() < TELEMETRY_PACKET_BYTES {
            return None;
        }
        if buf[10] != PACKET_TYPE_TELEMETRY {
            return None;
        }
        let received: TelemetryPacket = TelemetryPacket::read(buf, 0);
        proof {
            assert forall|sent: TelemetryPacket| #[trigger] layout::starts_with(buf@, sent) implies received
                == sent by {
                layout::lemma_start_read_back(sent, received, buf@);
            }
        }
        Some(received)
    }
}

/// A byte as a fraction of 255.
pub open spec fn byte_fraction(b: u8) -> Binary32 {
    Binary32::nearest(b as int).over(Binary32 { bits: 0x437F_0000 })
}

fn to_fraction(b: u8) -> (r: Binary32)
    ensures
        r == byte_fraction(b),
        binary32::is_share(b as nat, 255, r),
{
    proof {
        binary32::lemma_value_of_255();
        binary32::lemma_share(b as nat, 255, Binary32 { bits: 0x437F_0000 });
    }
    Binary32::from_u64(b as u64).divide(Binary32 { bits: 0x437F_0000 })
}

impl TelemetryData {
    pub fn rpm(&self) -> (r: i32)
        ensures
            r == self.rpm,
    {
        self.rpm as i32
    }

    pub fn redline_rpm(&self) -> (r: i32)
        ensures
            r == self.max_rpm,
    {
        self.max_rpm as i32
    }

    /// The speed in km/h: 3.6 times the field.
    pub fn speed_kmh(&self) -> (r: Binary32)
        ensures
            r == self.speed.times(Binary32 { bits: 0x4066_6666 }),
            binary32::is_kmh(self.speed, r),
    {
        proof {
            binary32::lemma_kmh(self.speed);
        }
        self.speed.multiply(Binary32 { bits: 0x4066_6666 })
    }

    /// The current gear: 0 for neutral, 15 for reverse.
    pub fn gear(&self) -> (r: u8)
        ensures
            r == self.gear_num_gears % 16,
    {
        self.gear_num_gears % 16
    }

    /// How many gears the car has.
    pub fn num_gears(&self) -> (r: u8)
        ensures
            r == self.gear_num_gears / 16,
    {
        self.gear_num_gears / 16
    }

    /// The gear as text: "R", "N", "1", "2" and so on.
    pub fn gear_label(&self) -> (r: String)
        ensures
            ({
                let g = self.gear_num_gears % 16;
                r@ == if g == 0 {
                    "N"@
                } else if g == 15 {
                    "R"@
                } else {
                    text::signed_decimal(g as int)
                }
            }),
            1 <= self.gear_num_gears % 16 <= 14 ==> text::all_digits(r@) && text::number_in(r@)
                == self.gear_num_gears % 16,
    {
        proof {
            text::lemma_signed_decimal_read_back((self.gear_num_gears % 16) as int);
        }
        let g: u8 = self.gear();
        if g == 0 {
            "N".to_owned()
        } else if g == 15 {
            "R".to_owned()
        } else {
            text::number(g as i64)
        }
    }

    /// How far the throttle is open, between zero and one.
    pub fn throttle_frac(&self) -> (r: Binary32)
        ensures
            r == byte_fraction(self.throttle),
            binary32::is_share(self.throttle as nat, 255, r),
    {
        to_fraction(self.throttle)
    }

    pub fn brake_frac(&self) -> (r: Binary32)
        ensures
            r == byte_fraction(self.brake),
            binary32::is_share(self.brake as nat, 255, r),
    {
        to_fraction(self.brake)
    }

    pub fn clutch_frac(&self) -> (r: Binary32)
        ensures
            r == byte_fraction(self.clutch),
            binary32::is_share(self.clutch as nat, 255, r),
    {
        to_fraction(self.clutch)
    }
}

/// The packet types are numbered from zero in the order of the protocol, and no
/// other number has a name.
pub proof fn lemma_names_of_types(t: u8)
    ensures
        t < 9 ==> name_of_type(t) == seq![
            "Telemetry"@,
            "Race"@,
            "Participants"@,
            "Timings"@,
            "GameState"@,
            "Weather"@,
            "VehicleClassNames"@,
            "TimeStats"@,
            "ParticipantVehicleNames"@,
        ][t as int],
        t >= 9 ==> name_of_type(t) == "Unknown"@,
{
}

} // verus!
