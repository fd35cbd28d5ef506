//! Codemasters "extradata" telemetry: DiRT Rally 2.0 and most EGO-engine titles
//! before F1 2018.
//!
//! A packet is a plain array of little-endian binary32 fields. How many of the
//! 66 fields it has depends on the game's `extradata` setting; 3 means all.

use vstd::prelude::*;

use crate::binary32;
use crate::binary32::Binary32;
use crate::text;
use crate::layout;
use crate::wire;
use crate::wire::Record;

verus! {

/// Size of a packet with all fields.
pub const PACKET_BYTES: usize = 264;

/// Number of fields in a packet with all fields.
pub const FIELD_COUNT: usize = 66;

/// The UDP port that the games' settings have out of the box.
pub const DEFAULT_PORT: u16 = 20777;

/// A packet with all fields. Even what counts something comes as binary32.
#[derive(Debug, Clone, Copy)]
pub struct Telemetry {
    pub run_time: Binary32,
    pub lap_time: Binary32,
    pub distance: Binary32,
    /// 0..=1 fraction of lap completed.
    pub progress: Binary32,
    pub pos_x: Binary32,
    pub pos_y: Binary32,
    pub pos_z: Binary32,
    /// In m/s; see [`Telemetry::speed_kmh`].
    pub speed_ms: Binary32,
    pub vel_x: Binary32,
    pub vel_y: Binary32,
    pub vel_z: Binary32,
    pub roll_x: Binary32,
    pub roll_y: Binary32,
    pub roll_z: Binary32,
    pub pitch_x: Binary32,
    pub pitch_y: Binary32,
    pub pitch_z: Binary32,
    pub susp_rl: Binary32,
    pub susp_rr: Binary32,
    pub susp_fl: Binary32,
    pub susp_fr: Binary32,
    pub susp_vel_rl: Binary32,
    pub susp_vel_rr: Binary32,
    pub susp_vel_fl: Binary32,
    pub susp_vel_fr: Binary32,
    pub wsp_rl: Binary32,
    pub wsp_rr: Binary32,
    pub wsp_fl: Binary32,
    pub wsp_fr: Binary32,
    /// 0..=1
    pub throttle: Binary32,
    /// -1..=+1
    pub steering: Binary32,
    /// 0..=1
    pub brake: Binary32,
    /// 0..=1
    pub clutch: Binary32,
    /// See [`Telemetry::gear_label`].
    pub gear: Binary32,
    pub g_force_lat: Binary32,
    pub g_force_lon: Binary32,
    pub current_lap: Binary32,
    /// A tenth of the engine speed; see [`Telemetry::rpm`].
    pub rpm_div_10: Binary32,
    pub sli_pro_support: Binary32,
    pub car_pos: Binary32,
    pub kers_level: Binary32,
    pub kers_max_level: Binary32,
    pub drs: Binary32,
    pub traction_control: Binary32,
    pub anti_lock_brakes: Binary32,
    pub fuel_in_tank: Binary32,
    pub fuel_capacity: Binary32,
    pub in_pit: Binary32,
    pub sector: Binary32,
    pub sector_1_time: Binary32,
    pub sector_2_time: Binary32,
    pub brakes_temp_rl: Binary32,
    pub brakes_temp_rr: Binary32,
    pub brakes_temp_fl: Binary32,
    pub brakes_temp_fr: Binary32,
    pub tyre_pressure_rl: Binary32,
    pub tyre_pressure_rr: Binary32,
    pub tyre_pressure_fl: Binary32,
    pub tyre_pressure_fr: Binary32,
    pub laps_completed: Binary32,
    pub total_laps: Binary32,
    pub track_length: Binary32,
    pub last_lap_time: Binary32,
    /// A tenth of the redline; see [`Telemetry::redline_rpm`].
    pub max_rpm_div_10: Binary32,
    /// A tenth of the idle speed; see [`Telemetry::idle_rpm`].
    pub idle_rpm_div_10: Binary32,
    pub max_gears: Binary32,
}

impl Record for Telemetry {
    open spec fn size() -> nat {
        264
    }

    open spec fn decodes(self, b: Seq<u8>, at: int) -> bool {
        &&& self.run_time == wire::f32_at(b, at)
        &&& self.lap_time == wire::f32_at(b, at + 4)
        &&& self.distance == wire::f32_at(b, at + 8)
        &&& self.progress == wire::f32_at(b, at + 12)
        &&& self.pos_x == wire::f32_at(b, at + 16)
        &&& self.pos_y == wire::f32_at(b, at + 20)
        &&& self.pos_z == wire::f32_at(b, at + 24)
        &&& self.speed_ms == wire::f32_at(b, at + 28)
        &&& self.vel_x == wire::f32_at(b, at + 32)
        &&& self.vel_y == wire::f32_at(b, at + 36)
        &&& self.vel_z == wire::f32_at(b, at + 40)
        &&& self.roll_x == wire::f32_at(b, at + 44)
        &&& self.roll_y == wire::f32_at(b, at + 48)
        &&& self.roll_z == wire::f32_at(b, at + 52)
        &&& self.pitch_x == wire::f32_at(b, at + 56)
        &&& self.pitch_y == wire::f32_at(b, at + 60)
        &&& self.pitch_z == wire::f32_at(b, at + 64)
        &&& self.susp_rl == wire::f32_at(b, at + 68)
        &&& self.susp_rr == wire::f32_at(b, at + 72)
        &&& self.susp_fl == wire::f32_at(b, at + 76)
        &&& self.susp_fr == wire::f32_at(b, at + 80)
        &&& self.susp_vel_rl == wire::f32_at(b, at + 84)
        &&& self.susp_vel_rr == wire::f32_at(b, at + 88)
        &&& self.susp_vel_fl == wire::f32_at(b, at + 92)
        &&& self.susp_vel_fr == wire::f32_at(b, at + 96)
        &&& self.wsp_rl == wire::f32_at(b, at + 100)
        &&& self.wsp_rr == wire::f32_at(b, at + 104)
        &&& self.wsp_fl == wire::f32_at(b, at + 108)
        &&& self.wsp_fr == wire::f32_at(b, at + 112)
        &&& self.throttle == wire::f32_at(b, at + 116)
        &&& self.steering == wire::f32_at(b, at + 120)
        &&& self.brake == wire::f32_at(b, at + 124)
        &&& self.clutch == wire::f32_at(b, at + 128)
        &&& self.gear == wire::f32_at(b, at + 132)
        &&& self.g_force_lat == wire::f32_at(b, at + 136)
        &&& self.g_force_lon == wire::f32_at(b, at + 140)
        &&& self.current_lap == wire::f32_at(b, at + 144)
        &&& self.rpm_div_10 == wire::f32_at(b, at + 148)
        &&& self.sli_pro_support == wire::f32_at(b, at + 152)
        &&& self.car_pos == wire::f32_at(b, at + 156)
        &&& self.kers_level == wire::f32_at(b, at + 160)
        &&& self.kers_max_level == wire::f32_at(b, at + 164)
        &&& self.drs == wire::f32_at(b, at + 168)
        &&& self.traction_control == wire::f32_at(b, at + 172)
        &&& self.anti_lock_brakes == wire::f32_at(b, at + 176)
        &&& self.fuel_in_tank == wire::f32_at(b, at + 180)
        &&& self.fuel_capacity == wire::f32_at(b, at + 184)
        &&& self.in_pit == wire::f32_at(b, at + 188)
        &&& self.sector == wire::f32_at(b, at + 192)
        &&& self.sector_1_time == wire::f32_at(b, at + 196)
        &&& self.sector_2_time == wire::f32_at(b, at + 200)
        &&& self.brakes_temp_rl == wire::f32_at(b, at + 204)
        &&& self.brakes_temp_rr == wire::f32_at(b, at + 208)
        &&& self.brakes_temp_fl == wire::f32_at(b, at + 212)
        &&& self.brakes_temp_fr == wire::f32_at(b, at + 216)
        &&& self.tyre_pressure_rl == wire::f32_at(b, at + 220)
        &&& self.tyre_pressure_rr == wire::f32_at(b, at + 224)
        &&& self.tyre_pressure_fl == wire::f32_at(b, at + 228)
        &&& self.tyre_pressure_fr == wire::f32_at(b, at + 232)
        &&& self.laps_completed == wire::f32_at(b, at + 236)
        &&& self.total_laps == wire::f32_at(b, at + 240)
        &&& self.track_length == wire::f32_at(b, at + 244)
        &&& self.last_lap_time == wire::f32_at(b, at + 248)
        &&& self.max_rpm_div_10 == wire::f32_at(b, at + 252)
        &&& self.idle_rpm_div_10 == wire::f32_at(b, at + 256)
        &&& self.max_gears == wire::f32_at(b, at + 260)
    }

    fn read(buf: &[u8], at: usize) -> (r: Self) {
        Telemetry {
            run_time: wire::read_f32(buf, at),
            lap_time: wire::read_f32(buf, at + 4),
            distance: wire::read_f32(buf, at + 8),
            progress: wire::read_f32(buf, at + 12),
            pos_x: wire::read_f32(buf, at + 16),
            pos_y: wire::read_f32(buf, at + 20),
            pos_z: wire::read_f32(buf, at + 24),
            speed_ms: wire::read_f32(buf, at + 28),
            vel_x: wire::read_f32(buf, at + 32),
            vel_y: wire::read_f32(buf, at + 36),
            vel_z: wire::read_f32(buf, at + 40),
            roll_x: wire::read_f32(buf, at + 44),
            roll_y: wire::read_f32(buf, at + 48),
            roll_z: wire::read_f32(buf, at + 52),
            pitch_x: wire::read_f32(buf, at + 56),
            pitch_y: wire::read_f32(buf, at + 60),
            pitch_z: wire::read_f32(buf, at + 64),
            susp_rl: wire::read_f32(buf, at + 68),
            susp_rr: wire::read_f32(buf, at + 72),
            susp_fl: wire::read_f32(buf, at + 76),
            susp_fr: wire::read_f32(buf, at + 80),
            susp_vel_rl: wire::read_f32(buf, at + 84),
            susp_vel_rr: wire::read_f32(buf, at + 88),
            susp_vel_fl: wire::read_f32(buf, at + 92),
            susp_vel_fr: wire::read_f32(buf, at + 96),
            wsp_rl: wire::read_f32(buf, at + 100),
            wsp_rr: wire::read_f32(buf, at + 104),
            wsp_fl: wire::read_f32(buf, at + 108),
            wsp_fr: wire::read_f32(buf, at + 112),
            throttle: wire::read_f32(buf, at + 116),
            steering: wire::read_f32(buf, at + 120),
            brake: wire::read_f32(buf, at + 124),
            clutch: wire::read_f32(buf, at + 128),
            gear: wire::read_f32(buf, at + 132),
            g_force_lat: wire::read_f32(buf, at + 136),
            g_force_lon: wire::read_f32(buf, at + 140),
            current_lap: wire::read_f32(buf, at + 144),
            rpm_div_10: wire::read_f32(buf, at + 148),
            sli_pro_support: wire::read_f32(buf, at + 152),
            car_pos: wire::read_f32(buf, at + 156),
            kers_level: wire::read_f32(buf, at + 160),
            kers_max_level: wire::read_f32(buf, at + 164),
            drs: wire::read_f32(buf, at + 168),
            traction_control: wire::read_f32(buf, at + 172),
            anti_lock_brakes: wire::read_f32(buf, at + 176),
            fuel_in_tank: wire::read_f32(buf, at + 180),
            fuel_capacity: wire::read_f32(buf, at + 184),
            in_pit: wire::read_f32(buf, at + 188),
            sector: wire::read_f32(buf, at + 192),
            sector_1_time: wire::read_f32(buf, at + 196),
            sector_2_time: wire::read_f32(buf, at + 200),
            brakes_temp_rl: wire::read_f32(buf, at + 204),
            brakes_temp_rr: wire::read_f32(buf, at + 208),
            brakes_temp_fl: wire::read_f32(buf, at + 212),
            brakes_temp_fr: wire::read_f32(buf, at + 216),
            tyre_pressure_rl: wire::read_f32(buf, at + 220),
            tyre_pressure_rr: wire::read_f32(buf, at + 224),
            tyre_pressure_fl: wire::read_f32(buf, at + 228),
            tyre_pressure_fr: wire::read_f32(buf, at + 232),
            laps_completed: wire::read_f32(buf, at + 236),
            total_laps: wire::read_f32(buf, at + 240),
            track_length: wire::read_f32(buf, at + 244),
            last_lap_time: wire::read_f32(buf, at + 248),
            max_rpm_div_10: wire::read_f32(buf, at + 252),
            idle_rpm_div_10: wire::read_f32(buf, at + 256),
            max_gears: wire::read_f32(buf, at + 260),
        }
    }
}

impl Default for Telemetry {
    fn default() -> (r: Self)
        ensures
            r.decodes(Seq::new(264, |i: int| 0u8), 0),
    {
        let zeros: [u8; 264] = [0u8;264];
        assert(zeros@ == Seq::new(264, |i: int| 0u8));
        Telemetry::read(&zeros, 0)
    }
}

/// The bytes of a packet, with zeros for those that are missing.
pub open spec fn zero_filled(b: Seq<u8>) -> Seq<u8> {
    Seq::new(
        264,
        |i: int|
            if i < b.len() {
                b[i]
            } else {
                0
            },
    )
}

/// Ten times a field, as a whole number.
pub open spec fn tenfold(field: Binary32) -> int {
    field.times(Binary32 { bits: 0x4120_0000 }).clamped(i32::MIN as int, i32::MAX as int)
}

/// Bytes that start alike decode to the same packet.
pub proof fn lemma_decodes_prefix(t: Telemetry, a: Seq<u8>, b: Seq<u8>)
    requires
        a.len() >= 264,
        b.len() >= 264,
        a.take(264) == b.take(264),
        t.decodes(a, 0),
    ensures
        t.decodes(b, 0),
{
    lemma_fields_of_prefix(a, b);
}

proof fn lemma_fields_of_prefix(a: Seq<u8>, b: Seq<u8>)
    requires
        a.len() >= 264,
        b.len() >= 264,
        a.take(264) == b.take(264),
    ensures
        forall|i: int| 0 <= i <= 260 ==> #[trigger] wire::f32_at(a, i) == wire::f32_at(b, i),
{
    assert forall|i: int| 0 <= i <= 260 implies #[trigger] wire::f32_at(a, i) == wire::f32_at(
        b,
        i,
    ) by {
        let s = a.take(264);
        let t = b.take(264);
        assert(s[i] == a[i] && s[i + 1] == a[i + 1] && s[i + 2] == a[i + 2] && s[i + 3] == a[i
            + 3]);
        assert(t[i] == b[i] && t[i + 1] == b[i + 1] && t[i + 2] == b[i + 2] && t[i + 3] == b[i
            + 3]);
    }
}

/// A packet with all fields reads the same, whether all fields are asked for or
/// as many as there are.
pub proof fn lemma_full_packet_is_not_filled(t: Telemetry, b: Seq<u8>)
    requires
        b.len() >= PACKET_BYTES,
    ensures
        t.decodes(b, 0) <==> t.decodes(zero_filled(b), 0),
{
    assert(b.take(264) == zero_filled(b).take(264));
    if t.decodes(b, 0) {
        lemma_decodes_prefix(t, b, zero_filled(b));
    }
    if t.decodes(zero_filled(b), 0) {
        lemma_decodes_prefix(t, zero_filled(b), b);
    }
}

impl Telemetry {
    /// The packet in a datagram that has all fields.
    pub fn from_bytes(buf: &[u8]) -> (r: Option<Self>)
        ensures
            r is Some <==> buf.len() >= PACKET_BYTES,
            r matches Some(t) ==> t.decodes(buf@, 0),
            r is Some <==> buf@.len() >= 264,
            forall|sent: Telemetry| #[trigger] layout::starts_with(buf@, sent) ==> r == Some(sent),
    {
        proof {
            assert forall|sent: Telemetry| #[trigger] layout::starts_with(buf@, sent) implies buf@.len()
                >= Telemetry::size() by {
                layout::lemma_start_decodes(sent, buf@);
            }
        }
        if buf.len() < PACKET_BYTES {
            return None;
        }
        let received: Telemetry = Telemetry::read(buf, 0);
        proof {
            assert forall|sent: Telemetry| #[trigger] layout::starts_with(buf@, sent) implies received
                == sent by {
                layout::lemma_start_read_back(sent, received, buf@);
            }
        }
        Some(received)
    }

    /// As many fields as there are, and zeros for the bytes that are missing.
    pub fn from_bytes_partial(buf: &[u8]) -> (r: Self)
        ensures
            r.decodes(zero_filled(buf@), 0),
            forall|sent: Telemetry| #[trigger] layout::cut_short(buf@, sent) ==> r == sent,
            forall|sent: Telemetry| #[trigger] layout::starts_with(buf@, sent) ==> r == sent,
    {
        let mut whole: [u8; 264] = [0u8;264];
        let mut i: usize = 0;
        while i < PACKET_BYTES && i < buf.len()
            invariant
                i <= PACKET_BYTES,
                i <= buf.len(),
                forall|k: int| 0 <= k < i ==> whole@[k] == buf@[k],
                forall|k: int| i <= k < 264 ==> whole@[k] == 0,
            decreases PACKET_BYTES - i,
        {
            whole[i] = buf[i];
            i = i + 1;
        }
        assert(whole@ == zero_filled(buf@));
        let received: Telemetry = Telemetry::read(&whole, 0);
        proof {
            layout::lemma_all_filled(received, buf@, whole@);
        }
        received
    }

    /// The engine speed: ten times the field.
    pub fn rpm(&self) -> (r: i32)
        ensures
            r == tenfold(self.rpm_div_10),
            binary32::is_tenfold(self.rpm_div_10, r as int),
    {
        proof {
            binary32::lemma_tenfold(self.rpm_div_10);
        }
        self.rpm_div_10.multiply(Binary32 { bits: 0x4120_0000 }).to_i32()
    }

    /// The engine speed at which to change up.
    pub fn redline_rpm(&self) -> (r: i32)
        ensures
            r == tenfold(self.max_rpm_div_10),
            binary32::is_tenfold(self.max_rpm_div_10, r as int),
    {
        proof {
            binary32::lemma_tenfold(self.max_rpm_div_10);
        }
        self.max_rpm_div_10.multiply(Binary32 { bits: 0x4120_0000 }).to_i32()
    }

    pub fn idle_rpm(&self) -> (r: i32)
        ensures
            r == tenfold(self.idle_rpm_div_10),
            binary32::is_tenfold(self.idle_rpm_div_10, r as int),
    {
        proof {
            binary32::lemma_tenfold(self.idle_rpm_div_10);
        }
        self.idle_rpm_div_10.multiply(Binary32 { bits: 0x4120_0000 }).to_i32()
    }

    /// The speed in km/h: 3.6 times the field.
    pub fn speed_kmh(&self) -> (r: Binary32)
        ensures
            r == self.speed_ms.times(Binary32 { bits: 0x4066_6666 }),
            binary32::is_kmh(self.speed_ms, r),
    {
        proof {
            binary32::lemma_kmh(self.speed_ms);
        }
        self.speed_ms.multiply(Binary32 { bits: 0x4066_6666 })
    }

    /// The gear as text: "R" below zero, "N" at zero, else the number.
    pub fn gear_label(&self) -> (r: String)
        ensures
            ({
                let g = self.gear.clamped(i32::MIN as int, i32::MAX as int);
                r@ == if g < 0 {
                    "R"@
                } else if g == 0 {
                    "N"@
                } else {
                    text::signed_decimal(g)
                }
            }),
    {
        let g: i32 = self.gear.to_i32();
        if g < 0 {
            "R".to_owned()
        } else if g == 0 {
            "N".to_owned()
        } else {
            text::number(g as i64)
        }
    }
}

} // verus!
