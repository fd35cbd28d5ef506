//! Wreckfest 2 packets.

use vstd::prelude::*;

use crate::layout;
use crate::layout::Packed;
use crate::wire;
use crate::wire::Record;
use crate::wreckfest;
use crate::wreckfest::damage_part;
use crate::wreckfest::AssistFlags;
use crate::wreckfest::AssistGearbox;
use crate::wreckfest::AssistLevel;
use crate::wreckfest::Assists;
use crate::wreckfest::CarFull;
use crate::wreckfest::Chassis;
use crate::wreckfest::Damage;
use crate::wreckfest::DamageMode;
use crate::wreckfest::DamageState;
use crate::wreckfest::Driveline;
use crate::wreckfest::DrivelineType;
use crate::wreckfest::Engine;
use crate::wreckfest::EngineFlags;
use crate::wreckfest::GameMode;
use crate::wreckfest::GameStatusFlags;
use crate::wreckfest::Header;
use crate::wreckfest::Info;
use crate::wreckfest::Input;
use crate::wreckfest::InputExtended;
use crate::wreckfest::Leaderboard;
use crate::wreckfest::Main;
use crate::wreckfest::MarshalFlags;
use crate::wreckfest::Orientation;
use crate::wreckfest::Packet;
use crate::wreckfest::PacketType;
use crate::wreckfest::ParticipantMotion;
use crate::wreckfest::ParticipantStatus;
use crate::wreckfest::ParticipantsDamage;
use crate::wreckfest::ParticipantsInfo;
use crate::wreckfest::ParticipantsLeaderboard;
use crate::wreckfest::ParticipantsMotion;
use crate::wreckfest::ParticipantsTiming;
use crate::wreckfest::ParticipantsTimingSectors;
use crate::wreckfest::PlayerStatusFlags;
use crate::wreckfest::Session;
use crate::wreckfest::SessionStatus;
use crate::wreckfest::SurfaceType;
use crate::wreckfest::Timing;
use crate::wreckfest::TimingSectors;
use crate::wreckfest::Tire;
use crate::wreckfest::TrackStatus;
use crate::wreckfest::Velocity;
use crate::wreckfest::VelocityEssential;
use crate::wreckfest::Visibility;

verus! {

impl Packed for Header {
    open spec fn image(self) -> Seq<u8> {
        wire::u32_image(self.signature)
            + seq![self.packet_type]
            + seq![self.status_flags]
            + wire::i32_image(self.session_time)
            + wire::i32_image(self.race_time)
    }

    proof fn lemma_read_back(self, b: Seq<u8>, at: int) {
        self.lemma_image_size();
        let p0 = wire::u32_image(self.signature);
        let p1 = p0 + seq![self.packet_type];
        let p2 = p1 + seq![self.status_flags];
        let p3 = p2 + wire::i32_image(self.session_time);
        let p4 = p3 + wire::i32_image(self.race_time);
        assert(p0.len() == 4);
        assert(p1.len() == 5);
        assert(p2.len() == 6);
        assert(p3.len() == 10);
        assert(p4.len() == 14);
        layout::lemma_split(b, at, p3, wire::i32_image(self.race_time));
        layout::lemma_i32_stands(b, at + 10, self.race_time);
        layout::lemma_split(b, at, p2, wire::i32_image(self.session_time));
        layout::lemma_i32_stands(b, at + 6, self.session_time);
        layout::lemma_split(b, at, p1, seq![self.status_flags]);
        layout::lemma_u8_stands(b, at + 5, self.status_flags);
        layout::lemma_split(b, at, p0, seq![self.packet_type]);
        layout::lemma_u8_stands(b, at + 4, self.packet_type);
        layout::lemma_u32_stands(b, at, self.signature);
    }

    proof fn lemma_image_size(self) {
        let p0 = wire::u32_image(self.signature);
        let p1 = p0 + seq![self.packet_type];
        let p2 = p1 + seq![self.status_flags];
        let p3 = p2 + wire::i32_image(self.session_time);
        let p4 = p3 + wire::i32_image(self.race_time);
        assert(p0.len() == 4);
        assert(p1.len() == 5);
        assert(p2.len() == 6);
        assert(p3.len() == 10);
        assert(p4.len() == 14);
    }

    proof fn lemma_one_reading(self, other: Self, b: Seq<u8>, at: int) {
    }
}

impl Packed for Session {
    open spec fn image(self) -> Seq<u8> {
        self.track_id@
            + self.track_name@
            + layout::f32_image(self.track_length)
            + layout::i16_image(self.laps)
            + layout::i16_image(self.event_length)
            + seq![self.grid_size]
            + seq![self.grid_size_remaining]
            + seq![self.sector_count]
            + layout::f32_image(self.sector_fract1)
            + layout::f32_image(self.sector_fract2)
            + seq![self.game_mode]
            + seq![self.damage_mode]
            + seq![self.status]
            + self._reserved@
    }

    proof fn lemma_read_back(self, b: Seq<u8>, at: int) {
        self.lemma_image_size();
        let p0 = self.track_id@;
        let p1 = p0 + self.track_name@;
        let p2 = p1 + layout::f32_image(self.track_length);
        let p3 = p2 + layout::i16_image(self.laps);
        let p4 = p3 + layout::i16_image(self.event_length);
        let p5 = p4 + seq![self.grid_size];
        let p6 = p5 + seq![self.grid_size_remaining];
        let p7 = p6 + seq![self.sector_count];
        let p8 = p7 + layout::f32_image(self.sector_fract1);
        let p9 = p8 + layout::f32_image(self.sector_fract2);
        let p10 = p9 + seq![self.game_mode];
        let p11 = p10 + seq![self.damage_mode];
        let p12 = p11 + seq![self.status];
        let p13 = p12 + self._reserved@;
        assert(p0.len() == 64);
        assert(p1.len() == 160);
        layout::lemma_f32_size(self.track_length);
        assert(p2.len() == 164);
        assert(p3.len() == 166);
        assert(p4.len() == 168);
        assert(p5.len() == 169);
        assert(p6.len() == 170);
        assert(p7.len() == 171);
        layout::lemma_f32_size(self.sector_fract1);
        assert(p8.len() == 175);
        layout::lemma_f32_size(self.sector_fract2);
        assert(p9.len() == 179);
        assert(p10.len() == 180);
        assert(p11.len() == 181);
        assert(p12.len() == 182);
        assert(p13.len() == 208);
        layout::lemma_split(b, at, p12, self._reserved@);
        layout::lemma_bytes_stand(b, at + 182, self._reserved@);
        layout::lemma_split(b, at, p11, seq![self.status]);
        layout::lemma_u8_stands(b, at + 181, self.status);
        layout::lemma_split(b, at, p10, seq![self.damage_mode]);
        layout::lemma_u8_stands(b, at + 180, self.damage_mode);
        layout::lemma_split(b, at, p9, seq![self.game_mode]);
        layout::lemma_u8_stands(b, at + 179, self.game_mode);
        layout::lemma_split(b, at, p8, layout::f32_image(self.sector_fract2));
        layout::lemma_f32_stands(b, at + 175, self.sector_fract2);
        layout::lemma_split(b, at, p7, layout::f32_image(self.sector_fract1));
        layout::lemma_f32_stands(b, at + 171, self.sector_fract1);
        layout::lemma_split(b, at, p6, seq![self.sector_count]);
        layout::lemma_u8_stands(b, at + 170, self.sector_count);
        layout::lemma_split(b, at, p5, seq![self.grid_size_remaining]);
        layout::lemma_u8_stands(b, at + 169, self.grid_size_remaining);
        layout::lemma_split(b, at, p4, seq![self.grid_size]);
        layout::lemma_u8_stands(b, at + 168, self.grid_size);
        layout::lemma_split(b, at, p3, layout::i16_image(self.event_length));
        layout::lemma_i16_stands(b, at + 166, self.event_length);
        layout::lemma_split(b, at, p2, layout::i16_image(self.laps));
        layout::lemma_i16_stands(b, at + 164, self.laps);
        layout::lemma_split(b, at, p1, layout::f32_image(self.track_length));
        layout::lemma_f32_stands(b, at + 160, self.track_length);
        layout::lemma_split(b, at, p0, self.track_name@);
        layout::lemma_bytes_stand(b, at + 64, self.track_name@);
        layout::lemma_bytes_stand(b, at, self.track_id@);
    }

    proof fn lemma_image_size(self) {
        let p0 = self.track_id@;
        let p1 = p0 + self.track_name@;
        let p2 = p1 + layout::f32_image(self.track_length);
        let p3 = p2 + layout::i16_image(self.laps);
        let p4 = p3 + layout::i16_image(self.event_length);
        let p5 = p4 + seq![self.grid_size];
        let p6 = p5 + seq![self.grid_size_remaining];
        let p7 = p6 + seq![self.sector_count];
        let p8 = p7 + layout::f32_image(self.sector_fract1);
        let p9 = p8 + layout::f32_image(self.sector_fract2);
        let p10 = p9 + seq![self.game_mode];
        let p11 = p10 + seq![self.damage_mode];
        let p12 = p11 + seq![self.status];
        let p13 = p12 + self._reserved@;
        assert(p0.len() == 64);
        assert(p1.len() == 160);
        layout::lemma_f32_size(self.track_length);
        assert(p2.len() == 164);
        assert(p3.len() == 166);
        assert(p4.len() == 168);
        assert(p5.len() == 169);
        assert(p6.len() == 170);
        assert(p7.len() == 171);
        layout::lemma_f32_size(self.sector_fract1);
        assert(p8.len() == 175);
        layout::lemma_f32_size(self.sector_fract2);
        assert(p9.len() == 179);
        assert(p10.len() == 180);
        assert(p11.len() == 181);
        assert(p12.len() == 182);
        assert(p13.len() == 208);
    }

    proof fn lemma_one_reading(self, other: Self, b: Seq<u8>, at: int) {
        assert(self.track_id@ == other.track_id@);
        assert(self.track_id =~= other.track_id);
        assert(self.track_name@ == other.track_name@);
        assert(self.track_name =~= other.track_name);
        assert(self._reserved@ == other._reserved@);
        assert(self._reserved =~= other._reserved);
    }
}

impl Packed for Orientation {
    open spec fn image(self) -> Seq<u8> {
        layout::f32_image(self.position_x)
            + layout::f32_image(self.position_y)
            + layout::f32_image(self.position_z)
            + layout::f32_image(self.orientation_quat_x)
            + layout::f32_image(self.orientation_quat_y)
            + layout::f32_image(self.orientation_quat_z)
            + layout::f32_image(self.orientation_quat_w)
            + wire::u16_image(self.extents_x)
            + wire::u16_image(self.extents_y)
            + wire::u16_image(self.extents_z)
    }

    proof fn lemma_read_back(self, b: Seq<u8>, at: int) {
        self.lemma_image_size();
        let p0 = layout::f32_image(self.position_x);
        let p1 = p0 + layout::f32_image(self.position_y);
        let p2 = p1 + layout::f32_image(self.position_z);
        let p3 = p2 + layout::f32_image(self.orientation_quat_x);
        let p4 = p3 + layout::f32_image(self.orientation_quat_y);
        let p5 = p4 + layout::f32_image(self.orientation_quat_z);
        let p6 = p5 + layout::f32_image(self.orientation_quat_w);
        let p7 = p6 + wire::u16_image(self.extents_x);
        let p8 = p7 + wire::u16_image(self.extents_y);
        let p9 = p8 + wire::u16_image(self.extents_z);
        layout::lemma_f32_size(self.position_x);
        assert(p0.len() == 4);
        layout::lemma_f32_size(self.position_y);
        assert(p1.len() == 8);
        layout::lemma_f32_size(self.position_z);
        assert(p2.len() == 12);
        layout::lemma_f32_size(self.orientation_quat_x);
        assert(p3.len() == 16);
        layout::lemma_f32_size(self.orientation_quat_y);
        assert(p4.len() == 20);
        layout::lemma_f32_size(self.orientation_quat_z);
        assert(p5.len() == 24);
        layout::lemma_f32_size(self.orientation_quat_w);
        assert(p6.len() == 28);
        assert(p7.len() == 30);
        assert(p8.len() == 32);
        assert(p9.len() == 34);
        layout::lemma_split(b, at, p8, wire::u16_image(self.extents_z));
        layout::lemma_u16_stands(b, at + 32, self.extents_z);
        layout::lemma_split(b, at, p7, wire::u16_image(self.extents_y));
        layout::lemma_u16_stands(b, at + 30, self.extents_y);
        layout::lemma_split(b, at, p6, wire::u16_image(self.extents_x));
        layout::lemma_u16_stands(b, at + 28, self.extents_x);
        layout::lemma_split(b, at, p5, layout::f32_image(self.orientation_quat_w));
        layout::lemma_f32_stands(b, at + 24, self.orientation_quat_w);
        layout::lemma_split(b, at, p4, layout::f32_image(self.orientation_quat_z));
        layout::lemma_f32_stands(b, at + 20, self.orientation_quat_z);
        layout::lemma_split(b, at, p3, layout::f32_image(self.orientation_quat_y));
        layout::lemma_f32_stands(b, at + 16, self.orientation_quat_y);
        layout::lemma_split(b, at, p2, layout::f32_image(self.orientation_quat_x));
        layout::lemma_f32_stands(b, at + 12, self.orientation_quat_x);
        layout::lemma_split(b, at, p1, layout::f32_image(self.position_z));
        layout::lemma_f32_stands(b, at + 8, self.position_z);
        layout::lemma_split(b, at, p0, layout::f32_image(self.position_y));
        layout::lemma_f32_stands(b, at + 4, self.position_y);
        layout::lemma_f32_stands(b, at, self.position_x);
    }

    proof fn lemma_image_size(self) {
        let p0 = layout::f32_image(self.position_x);
        let p1 = p0 + layout::f32_image(self.position_y);
        let p2 = p1 + layout::f32_image(self.position_z);
        let p3 = p2 + layout::f32_image(self.orientation_quat_x);
        let p4 = p3 + layout::f32_image(self.orientation_quat_y);
        let p5 = p4 + layout::f32_image(self.orientation_quat_z);
        let p6 = p5 + layout::f32_image(self.orientation_quat_w);
        let p7 = p6 + wire::u16_image(self.extents_x);
        let p8 = p7 + wire::u16_image(self.extents_y);
        let p9 = p8 + wire::u16_image(self.extents_z);
        layout::lemma_f32_size(self.position_x);
        assert(p0.len() == 4);
        layout::lemma_f32_size(self.position_y);
        assert(p1.len() == 8);
        layout::lemma_f32_size(self.position_z);
        assert(p2.len() == 12);
        layout::lemma_f32_size(self.orientation_quat_x);
        assert(p3.len() == 16);
        layout::lemma_f32_size(self.orientation_quat_y);
        assert(p4.len() == 20);
        layout::lemma_f32_size(self.orientation_quat_z);
        assert(p5.len() == 24);
        layout::lemma_f32_size(self.orientation_quat_w);
        assert(p6.len() == 28);
        assert(p7.len() == 30);
        assert(p8.len() == 32);
        assert(p9.len() == 34);
    }

    proof fn lemma_one_reading(self, other: Self, b: Seq<u8>, at: int) {
    }
}

impl Packed for Velocity {
    open spec fn image(self) -> Seq<u8> {
        layout::f32_image(self.velocity_local_x)
            + layout::f32_image(self.velocity_local_y)
            + layout::f32_image(self.velocity_local_z)
            + layout::f32_image(self.angular_velocity_x)
            + layout::f32_image(self.angular_velocity_y)
            + layout::f32_image(self.angular_velocity_z)
            + layout::f32_image(self.acceleration_local_x)
            + layout::f32_image(self.acceleration_local_y)
            + layout::f32_image(self.acceleration_local_z)
    }

    proof fn lemma_read_back(self, b: Seq<u8>, at: int) {
        self.lemma_image_size();
        let p0 = layout::f32_image(self.velocity_local_x);
        let p1 = p0 + layout::f32_image(self.velocity_local_y);
        let p2 = p1 + layout::f32_image(self.velocity_local_z);
        let p3 = p2 + layout::f32_image(self.angular_velocity_x);
        let p4 = p3 + layout::f32_image(self.angular_velocity_y);
        let p5 = p4 + layout::f32_image(self.angular_velocity_z);
        let p6 = p5 + layout::f32_image(self.acceleration_local_x);
        let p7 = p6 + layout::f32_image(self.acceleration_local_y);
        let p8 = p7 + layout::f32_image(self.acceleration_local_z);
        layout::lemma_f32_size(self.velocity_local_x);
        assert(p0.len() == 4);
        layout::lemma_f32_size(self.velocity_local_y);
        assert(p1.len() == 8);
        layout::lemma_f32_size(self.velocity_local_z);
        assert(p2.len() == 12);
        layout::lemma_f32_size(self.angular_velocity_x);
        assert(p3.len() == 16);
        layout::lemma_f32_size(self.angular_velocity_y);
        assert(p4.len() == 20);
        layout::lemma_f32_size(self.angular_velocity_z);
        assert(p5.len() == 24);
        layout::lemma_f32_size(self.acceleration_local_x);
        assert(p6.len() == 28);
        layout::lemma_f32_size(self.acceleration_local_y);
        assert(p7.len() == 32);
        layout::lemma_f32_size(self.acceleration_local_z);
        assert(p8.len() == 36);
        layout::lemma_split(b, at, p7, layout::f32_image(self.acceleration_local_z));
        layout::lemma_f32_stands(b, at + 32, self.acceleration_local_z);
        layout::lemma_split(b, at, p6, layout::f32_image(self.acceleration_local_y));
        layout::lemma_f32_stands(b, at + 28, self.acceleration_local_y);
        layout::lemma_split(b, at, p5, layout::f32_image(self.acceleration_local_x));
        layout::lemma_f32_stands(b, at + 24, self.acceleration_local_x);
        layout::lemma_split(b, at, p4, layout::f32_image(self.angular_velocity_z));
        layout::lemma_f32_stands(b, at + 20, self.angular_velocity_z);
        layout::lemma_split(b, at, p3, layout::f32_image(self.angular_velocity_y));
        layout::lemma_f32_stands(b, at + 16, self.angular_velocity_y);
        layout::lemma_split(b, at, p2, layout::f32_image(self.angular_velocity_x));
        layout::lemma_f32_stands(b, at + 12, self.angular_velocity_x);
        layout::lemma_split(b, at, p1, layout::f32_image(self.velocity_local_z));
        layout::lemma_f32_stands(b, at + 8, self.velocity_local_z);
        layout::lemma_split(b, at, p0, layout::f32_image(self.velocity_local_y));
        layout::lemma_f32_stands(b, at + 4, self.velocity_local_y);
        layout::lemma_f32_stands(b, at, self.velocity_local_x);
    }

    proof fn lemma_image_size(self) {
        let p0 = layout::f32_image(self.velocity_local_x);
        let p1 = p0 + layout::f32_image(self.velocity_local_y);
        let p2 = p1 + layout::f32_image(self.velocity_local_z);
        let p3 = p2 + layout::f32_image(self.angular_velocity_x);
        let p4 = p3 + layout::f32_image(self.angular_velocity_y);
        let p5 = p4 + layout::f32_image(self.angular_velocity_z);
        let p6 = p5 + layout::f32_image(self.acceleration_local_x);
        let p7 = p6 + layout::f32_image(self.acceleration_local_y);
        let p8 = p7 + layout::f32_image(self.acceleration_local_z);
        layout::lemma_f32_size(self.velocity_local_x);
        assert(p0.len() == 4);
        layout::lemma_f32_size(self.velocity_local_y);
        assert(p1.len() == 8);
        layout::lemma_f32_size(self.velocity_local_z);
        assert(p2.len() == 12);
        layout::lemma_f32_size(self.angular_velocity_x);
        assert(p3.len() == 16);
        layout::lemma_f32_size(self.angular_velocity_y);
        assert(p4.len() == 20);
        layout::lemma_f32_size(self.angular_velocity_z);
        assert(p5.len() == 24);
        layout::lemma_f32_size(self.acceleration_local_x);
        assert(p6.len() == 28);
        layout::lemma_f32_size(self.acceleration_local_y);
        assert(p7.len() == 32);
        layout::lemma_f32_size(self.acceleration_local_z);
        assert(p8.len() == 36);
    }

    proof fn lemma_one_reading(self, other: Self, b: Seq<u8>, at: int) {
    }
}

impl Packed for VelocityEssential {
    open spec fn image(self) -> Seq<u8> {
        layout::f32_image(self.velocity_magnitude)
    }

    proof fn lemma_read_back(self, b: Seq<u8>, at: int) {
        self.lemma_image_size();
        let p0 = layout::f32_image(self.velocity_magnitude);
        layout::lemma_f32_size(self.velocity_magnitude);
        assert(p0.len() == 4);
        layout::lemma_f32_stands(b, at, self.velocity_magnitude);
    }

    proof fn lemma_image_size(self) {
        let p0 = layout::f32_image(self.velocity_magnitude);
        layout::lemma_f32_size(self.velocity_magnitude);
        assert(p0.len() == 4);
    }

    proof fn lemma_one_reading(self, other: Self, b: Seq<u8>, at: int) {
    }
}

impl Packed for Assists {
    open spec fn image(self) -> Seq<u8> {
        seq![self.flags]
            + seq![self.assist_gearbox]
            + seq![self.level_abs]
            + seq![self.level_tcs]
            + seq![self.level_esc]
            + self._reserved@
    }

    proof fn lemma_read_back(self, b: Seq<u8>, at: int) {
        self.lemma_image_size();
        let p0 = seq![self.flags];
        let p1 = p0 + seq![self.assist_gearbox];
        let p2 = p1 + seq![self.level_abs];
        let p3 = p2 + seq![self.level_tcs];
        let p4 = p3 + seq![self.level_esc];
        let p5 = p4 + self._reserved@;
        assert(p0.len() == 1);
        assert(p1.len() == 2);
        assert(p2.len() == 3);
        assert(p3.len() == 4);
        assert(p4.len() == 5);
        assert(p5.len() == 8);
        layout::lemma_split(b, at, p4, self._reserved@);
        layout::lemma_bytes_stand(b, at + 5, self._reserved@);
        layout::lemma_split(b, at, p3, seq![self.level_esc]);
        layout::lemma_u8_stands(b, at + 4, self.level_esc);
        layout::lemma_split(b, at, p2, seq![self.level_tcs]);
        layout::lemma_u8_stands(b, at + 3, self.level_tcs);
        layout::lemma_split(b, at, p1, seq![self.level_abs]);
        layout::lemma_u8_stands(b, at + 2, self.level_abs);
        layout::lemma_split(b, at, p0, seq![self.assist_gearbox]);
        layout::lemma_u8_stands(b, at + 1, self.assist_gearbox);
        layout::lemma_u8_stands(b, at, self.flags);
    }

    proof fn lemma_image_size(self) {
        let p0 = seq![self.flags];
        let p1 = p0 + seq![self.assist_gearbox];
        let p2 = p1 + seq![self.level_abs];
        let p3 = p2 + seq![self.level_tcs];
        let p4 = p3 + seq![self.level_esc];
        let p5 = p4 + self._reserved@;
        assert(p0.len() == 1);
        assert(p1.len() == 2);
        assert(p2.len() == 3);
        assert(p3.len() == 4);
        assert(p4.len() == 5);
        assert(p5.len() == 8);
    }

    proof fn lemma_one_reading(self, other: Self, b: Seq<u8>, at: int) {
        assert(self._reserved@ == other._reserved@);
        assert(self._reserved =~= other._reserved);
    }
}

impl Packed for Chassis {
    open spec fn image(self) -> Seq<u8> {
        layout::f32_image(self.track_width_front)
            + layout::f32_image(self.track_width_rear)
            + layout::f32_image(self.wheel_base)
            + wire::i32_image(self.steering_wheel_lock_to_lock)
            + layout::f32_image(self.steering_lock)
            + layout::f32_image(self.corner_weight_fl)
            + layout::f32_image(self.corner_weight_fr)
            + layout::f32_image(self.corner_weight_rl)
            + layout::f32_image(self.corner_weight_rr)
            + self._reserved@
    }

    proof fn lemma_read_back(self, b: Seq<u8>, at: int) {
        self.lemma_image_size();
        let p0 = layout::f32_image(self.track_width_front);
        let p1 = p0 + layout::f32_image(self.track_width_rear);
        let p2 = p1 + layout::f32_image(self.wheel_base);
        let p3 = p2 + wire::i32_image(self.steering_wheel_lock_to_lock);
        let p4 = p3 + layout::f32_image(self.steering_lock);
        let p5 = p4 + layout::f32_image(self.corner_weight_fl);
        let p6 = p5 + layout::f32_image(self.corner_weight_fr);
        let p7 = p6 + layout::f32_image(self.corner_weight_rl);
        let p8 = p7 + layout::f32_image(self.corner_weight_rr);
        let p9 = p8 + self._reserved@;
        layout::lemma_f32_size(self.track_width_front);
        assert(p0.len() == 4);
        layout::lemma_f32_size(self.track_width_rear);
        assert(p1.len() == 8);
        layout::lemma_f32_size(self.wheel_base);
        assert(p2.len() == 12);
        assert(p3.len() == 16);
        layout::lemma_f32_size(self.steering_lock);
        assert(p4.len() == 20);
        layout::lemma_f32_size(self.corner_weight_fl);
        assert(p5.len() == 24);
        layout::lemma_f32_size(self.corner_weight_fr);
        assert(p6.len() == 28);
        layout::lemma_f32_size(self.corner_weight_rl);
        assert(p7.len() == 32);
        layout::lemma_f32_size(self.corner_weight_rr);
        assert(p8.len() == 36);
        assert(p9.len() == 52);
        layout::lemma_split(b, at, p8, self._reserved@);
        layout::lemma_bytes_stand(b, at + 36, self._reserved@);
        layout::lemma_split(b, at, p7, layout::f32_image(self.corner_weight_rr));
        layout::lemma_f32_stands(b, at + 32, self.corner_weight_rr);
        layout::lemma_split(b, at, p6, layout::f32_image(self.corner_weight_rl));
        layout::lemma_f32_stands(b, at + 28, self.corner_weight_rl);
        layout::lemma_split(b, at, p5, layout::f32_image(self.corner_weight_fr));
        layout::lemma_f32_stands(b, at + 24, self.corner_weight_fr);
        layout::lemma_split(b, at, p4, layout::f32_image(self.corner_weight_fl));
        layout::lemma_f32_stands(b, at + 20, self.corner_weight_fl);
        layout::lemma_split(b, at, p3, layout::f32_image(self.steering_lock));
        layout::lemma_f32_stands(b, at + 16, self.steering_lock);
        layout::lemma_split(b, at, p2, wire::i32_image(self.steering_wheel_lock_to_lock));
        layout::lemma_i32_stands(b, at + 12, self.steering_wheel_lock_to_lock);
        layout::lemma_split(b, at, p1, layout::f32_image(self.wheel_base));
        layout::lemma_f32_stands(b, at + 8, self.wheel_base);
        layout::lemma_split(b, at, p0, layout::f32_image(self.track_width_rear));
        layout::lemma_f32_stands(b, at + 4, self.track_width_rear);
        layout::lemma_f32_stands(b, at, self.track_width_front);
    }

    proof fn lemma_image_size(self) {
        let p0 = layout::f32_image(self.track_width_front);
        let p1 = p0 + layout::f32_image(self.track_width_rear);
        let p2 = p1 + layout::f32_image(self.wheel_base);
        let p3 = p2 + wire::i32_image(self.steering_wheel_lock_to_lock);
        let p4 = p3 + layout::f32_image(self.steering_lock);
        let p5 = p4 + layout::f32_image(self.corner_weight_fl);
        let p6 = p5 + layout::f32_image(self.corner_weight_fr);
        let p7 = p6 + layout::f32_image(self.corner_weight_rl);
        let p8 = p7 + layout::f32_image(self.corner_weight_rr);
        let p9 = p8 + self._reserved@;
        layout::lemma_f32_size(self.track_width_front);
        assert(p0.len() == 4);
        layout::lemma_f32_size(self.track_width_rear);
        assert(p1.len() == 8);
        layout::lemma_f32_size(self.wheel_base);
        assert(p2.len() == 12);
        assert(p3.len() == 16);
        layout::lemma_f32_size(self.steering_lock);
        assert(p4.len() == 20);
        layout::lemma_f32_size(self.corner_weight_fl);
        assert(p5.len() == 24);
        layout::lemma_f32_size(self.corner_weight_fr);
        assert(p6.len() == 28);
        layout::lemma_f32_size(self.corner_weight_rl);
        assert(p7.len() == 32);
        layout::lemma_f32_size(self.corner_weight_rr);
        assert(p8.len() == 36);
        assert(p9.len() == 52);
    }

    proof fn lemma_one_reading(self, other: Self, b: Seq<u8>, at: int) {
        assert(self._reserved@ == other._reserved@);
        assert(self._reserved =~= other._reserved);
    }
}

impl Packed for Driveline {
    open spec fn image(self) -> Seq<u8> {
        seq![self.driveline_type]
            + seq![self.gear]
            + seq![self.gear_max]
            + layout::f32_image(self.speed)
            + self._reserved@
    }

    proof fn lemma_read_back(self, b: Seq<u8>, at: int) {
        self.lemma_image_size();
        let p0 = seq![self.driveline_type];
        let p1 = p0 + seq![self.gear];
        let p2 = p1 + seq![self.gear_max];
        let p3 = p2 + layout::f32_image(self.speed);
        let p4 = p3 + self._reserved@;
        assert(p0.len() == 1);
        assert(p1.len() == 2);
        assert(p2.len() == 3);
        layout::lemma_f32_size(self.speed);
        assert(p3.len() == 7);
        assert(p4.len() == 24);
        layout::lemma_split(b, at, p3, self._reserved@);
        layout::lemma_bytes_stand(b, at + 7, self._reserved@);
        layout::lemma_split(b, at, p2, layout::f32_image(self.speed));
        layout::lemma_f32_stands(b, at + 3, self.speed);
        layout::lemma_split(b, at, p1, seq![self.gear_max]);
        layout::lemma_u8_stands(b, at + 2, self.gear_max);
        layout::lemma_split(b, at, p0, seq![self.gear]);
        layout::lemma_u8_stands(b, at + 1, self.gear);
        layout::lemma_u8_stands(b, at, self.driveline_type);
    }

    proof fn lemma_image_size(self) {
        let p0 = seq![self.driveline_type];
        let p1 = p0 + seq![self.gear];
        let p2 = p1 + seq![self.gear_max];
        let p3 = p2 + layout::f32_image(self.speed);
        let p4 = p3 + self._reserved@;
        assert(p0.len() == 1);
        assert(p1.len() == 2);
        assert(p2.len() == 3);
        layout::lemma_f32_size(self.speed);
        assert(p3.len() == 7);
        assert(p4.len() == 24);
    }

    proof fn lemma_one_reading(self, other: Self, b: Seq<u8>, at: int) {
        assert(self._reserved@ == other._reserved@);
        assert(self._reserved =~= other._reserved);
    }
}

impl Packed for Engine {
    open spec fn image(self) -> Seq<u8> {
        seq![self.flags]
            + wire::i32_image(self.rpm)
            + wire::i32_image(self.rpm_max)
            + wire::i32_image(self.rpm_redline)
            + wire::i32_image(self.rpm_idle)
            + layout::f32_image(self.torque)
            + layout::f32_image(self.power)
            + layout::f32_image(self.temp_block)
            + layout::f32_image(self.temp_water)
            + layout::f32_image(self.pressure_manifold)
            + layout::f32_image(self.pressure_oil)
            + self._reserved@
    }

    proof fn lemma_read_back(self, b: Seq<u8>, at: int) {
        self.lemma_image_size();
        let p0 = seq![self.flags];
        let p1 = p0 + wire::i32_image(self.rpm);
        let p2 = p1 + wire::i32_image(self.rpm_max);
        let p3 = p2 + wire::i32_image(self.rpm_redline);
        let p4 = p3 + wire::i32_image(self.rpm_idle);
        let p5 = p4 + layout::f32_image(self.torque);
        let p6 = p5 + layout::f32_image(self.power);
        let p7 = p6 + layout::f32_image(self.temp_block);
        let p8 = p7 + layout::f32_image(self.temp_water);
        let p9 = p8 + layout::f32_image(self.pressure_manifold);
        let p10 = p9 + layout::f32_image(self.pressure_oil);
        let p11 = p10 + self._reserved@;
        assert(p0.len() == 1);
        assert(p1.len() == 5);
        assert(p2.len() == 9);
        assert(p3.len() == 13);
        assert(p4.len() == 17);
        layout::lemma_f32_size(self.torque);
        assert(p5.len() == 21);
        layout::lemma_f32_size(self.power);
        assert(p6.len() == 25);
        layout::lemma_f32_size(self.temp_block);
        assert(p7.len() == 29);
        layout::lemma_f32_size(self.temp_water);
        assert(p8.len() == 33);
        layout::lemma_f32_size(self.pressure_manifold);
        assert(p9.len() == 37);
        layout::lemma_f32_size(self.pressure_oil);
        assert(p10.len() == 41);
        assert(p11.len() == 56);
        layout::lemma_split(b, at, p10, self._reserved@);
        layout::lemma_bytes_stand(b, at + 41, self._reserved@);
        layout::lemma_split(b, at, p9, layout::f32_image(self.pressure_oil));
        layout::lemma_f32_stands(b, at + 37, self.pressure_oil);
        layout::lemma_split(b, at, p8, layout::f32_image(self.pressure_manifold));
        layout::lemma_f32_stands(b, at + 33, self.pressure_manifold);
        layout::lemma_split(b, at, p7, layout::f32_image(self.temp_water));
        layout::lemma_f32_stands(b, at + 29, self.temp_water);
        layout::lemma_split(b, at, p6, layout::f32_image(self.temp_block));
        layout::lemma_f32_stands(b, at + 25, self.temp_block);
        layout::lemma_split(b, at, p5, layout::f32_image(self.power));
        layout::lemma_f32_stands(b, at + 21, self.power);
        layout::lemma_split(b, at, p4, layout::f32_image(self.torque));
        layout::lemma_f32_stands(b, at + 17, self.torque);
        layout::lemma_split(b, at, p3, wire::i32_image(self.rpm_idle));
        layout::lemma_i32_stands(b, at + 13, self.rpm_idle);
        layout::lemma_split(b, at, p2, wire::i32_image(self.rpm_redline));
        layout::lemma_i32_stands(b, at + 9, self.rpm_redline);
        layout::lemma_split(b, at, p1, wire::i32_image(self.rpm_max));
        layout::lemma_i32_stands(b, at + 5, self.rpm_max);
        layout::lemma_split(b, at, p0, wire::i32_image(self.rpm));
        layout::lemma_i32_stands(b, at + 1, self.rpm);
        layout::lemma_u8_stands(b, at, self.flags);
    }

    proof fn lemma_image_size(self) {
        let p0 = seq![self.flags];
        let p1 = p0 + wire::i32_image(self.rpm);
        let p2 = p1 + wire::i32_image(self.rpm_max);
        let p3 = p2 + wire::i32_image(self.rpm_redline);
        let p4 = p3 + wire::i32_image(self.rpm_idle);
        let p5 = p4 + layout::f32_image(self.torque);
        let p6 = p5 + layout::f32_image(self.power);
        let p7 = p6 + layout::f32_image(self.temp_block);
        let p8 = p7 + layout::f32_image(self.temp_water);
        let p9 = p8 + layout::f32_image(self.pressure_manifold);
        let p10 = p9 + layout::f32_image(self.pressure_oil);
        let p11 = p10 + self._reserved@;
        assert(p0.len() == 1);
        assert(p1.len() == 5);
        assert(p2.len() == 9);
        assert(p3.len() == 13);
        assert(p4.len() == 17);
        layout::lemma_f32_size(self.torque);
        assert(p5.len() == 21);
        layout::lemma_f32_size(self.power);
        assert(p6.len() == 25);
        layout::lemma_f32_size(self.temp_block);
        assert(p7.len() == 29);
        layout::lemma_f32_size(self.temp_water);
        assert(p8.len() == 33);
        layout::lemma_f32_size(self.pressure_manifold);
        assert(p9.len() == 37);
        layout::lemma_f32_size(self.pressure_oil);
        assert(p10.len() == 41);
        assert(p11.len() == 56);
    }

    proof fn lemma_one_reading(self, other: Self, b: Seq<u8>, at: int) {
        assert(self._reserved@ == other._reserved@);
        assert(self._reserved =~= other._reserved);
    }
}

impl Packed for Input {
    open spec fn image(self) -> Seq<u8> {
        layout::f32_image(self.throttle)
            + layout::f32_image(self.brake)
            + layout::f32_image(self.clutch)
            + layout::f32_image(self.handbrake)
            + layout::f32_image(self.steering)
    }

    proof fn lemma_read_back(self, b: Seq<u8>, at: int) {
        self.lemma_image_size();
        let p0 = layout::f32_image(self.throttle);
        let p1 = p0 + layout::f32_image(self.brake);
        let p2 = p1 + layout::f32_image(self.clutch);
        let p3 = p2 + layout::f32_image(self.handbrake);
        let p4 = p3 + layout::f32_image(self.steering);
        layout::lemma_f32_size(self.throttle);
        assert(p0.len() == 4);
        layout::lemma_f32_size(self.brake);
        assert(p1.len() == 8);
        layout::lemma_f32_size(self.clutch);
        assert(p2.len() == 12);
        layout::lemma_f32_size(self.handbrake);
        assert(p3.len() == 16);
        layout::lemma_f32_size(self.steering);
        assert(p4.len() == 20);
        layout::lemma_split(b, at, p3, layout::f32_image(self.steering));
        layout::lemma_f32_stands(b, at + 16, self.steering);
        layout::lemma_split(b, at, p2, layout::f32_image(self.handbrake));
        layout::lemma_f32_stands(b, at + 12, self.handbrake);
        layout::lemma_split(b, at, p1, layout::f32_image(self.clutch));
        layout::lemma_f32_stands(b, at + 8, self.clutch);
        layout::lemma_split(b, at, p0, layout::f32_image(self.brake));
        layout::lemma_f32_stands(b, at + 4, self.brake);
        layout::lemma_f32_stands(b, at, self.throttle);
    }

    proof fn lemma_image_size(self) {
        let p0 = layout::f32_image(self.throttle);
        let p1 = p0 + layout::f32_image(self.brake);
        let p2 = p1 + layout::f32_image(self.clutch);
        let p3 = p2 + layout::f32_image(self.handbrake);
        let p4 = p3 + layout::f32_image(self.steering);
        layout::lemma_f32_size(self.throttle);
        assert(p0.len() == 4);
        layout::lemma_f32_size(self.brake);
        assert(p1.len() == 8);
        layout::lemma_f32_size(self.clutch);
        assert(p2.len() == 12);
        layout::lemma_f32_size(self.handbrake);
        assert(p3.len() == 16);
        layout::lemma_f32_size(self.steering);
        assert(p4.len() == 20);
    }

    proof fn lemma_one_reading(self, other: Self, b: Seq<u8>, at: int) {
    }
}

impl Packed for Tire {
    open spec fn image(self) -> Seq<u8> {
        layout::f32_image(self.rps)
            + layout::f32_image(self.camber)
            + layout::f32_image(self.slip_ratio)
            + layout::f32_image(self.slip_angle)
            + layout::f32_image(self.radius_unloaded)
            + layout::f32_image(self.load_vertical)
            + layout::f32_image(self.force_lat)
            + layout::f32_image(self.force_long)
            + layout::f32_image(self.temperature_inner)
            + layout::f32_image(self.temperature_tread)
            + layout::f32_image(self.suspension_velocity)
            + layout::f32_image(self.suspension_displacement)
            + layout::f32_image(self.suspension_disp_norm)
            + layout::f32_image(self.position_vertical)
            + seq![self.surface_type]
            + self._reserved@
    }

    proof fn lemma_read_back(self, b: Seq<u8>, at: int) {
        self.lemma_image_size();
        let p0 = layout::f32_image(self.rps);
        let p1 = p0 + layout::f32_image(self.camber);
        let p2 = p1 + layout::f32_image(self.slip_ratio);
        let p3 = p2 + layout::f32_image(self.slip_angle);
        let p4 = p3 + layout::f32_image(self.radius_unloaded);
        let p5 = p4 + layout::f32_image(self.load_vertical);
        let p6 = p5 + layout::f32_image(self.force_lat);
        let p7 = p6 + layout::f32_image(self.force_long);
        let p8 = p7 + layout::f32_image(self.temperature_inner);
        let p9 = p8 + layout::f32_image(self.temperature_tread);
        let p10 = p9 + layout::f32_image(self.suspension_velocity);
        let p11 = p10 + layout::f32_image(self.suspension_displacement);
        let p12 = p11 + layout::f32_image(self.suspension_disp_norm);
        let p13 = p12 + layout::f32_image(self.position_vertical);
        let p14 = p13 + seq![self.surface_type];
        let p15 = p14 + self._reserved@;
        layout::lemma_f32_size(self.rps);
        assert(p0.len() == 4);
        layout::lemma_f32_size(self.camber);
        assert(p1.len() == 8);
        layout::lemma_f32_size(self.slip_ratio);
        assert(p2.len() == 12);
        layout::lemma_f32_size(self.slip_angle);
        assert(p3.len() == 16);
        layout::lemma_f32_size(self.radius_unloaded);
        assert(p4.len() == 20);
        layout::lemma_f32_size(self.load_vertical);
        assert(p5.len() == 24);
        layout::lemma_f32_size(self.force_lat);
        assert(p6.len() == 28);
        layout::lemma_f32_size(self.force_long);
        assert(p7.len() == 32);
        layout::lemma_f32_size(self.temperature_inner);
        assert(p8.len() == 36);
        layout::lemma_f32_size(self.temperature_tread);
        assert(p9.len() == 40);
        layout::lemma_f32_size(self.suspension_velocity);
        assert(p10.len() == 44);
        layout::lemma_f32_size(self.suspension_displacement);
        assert(p11.len() == 48);
        layout::lemma_f32_size(self.suspension_disp_norm);
        assert(p12.len() == 52);
        layout::lemma_f32_size(self.position_vertical);
        assert(p13.len() == 56);
        assert(p14.len() == 57);
        assert(p15.len() == 72);
        layout::lemma_split(b, at, p14, self._reserved@);
        layout::lemma_bytes_stand(b, at + 57, self._reserved@);
        layout::lemma_split(b, at, p13, seq![self.surface_type]);
        layout::lemma_u8_stands(b, at + 56, self.surface_type);
        layout::lemma_split(b, at, p12, layout::f32_image(self.position_vertical));
        layout::lemma_f32_stands(b, at + 52, self.position_vertical);
        layout::lemma_split(b, at, p11, layout::f32_image(self.suspension_disp_norm));
        layout::lemma_f32_stands(b, at + 48, self.suspension_disp_norm);
        layout::lemma_split(b, at, p10, layout::f32_image(self.suspension_displacement));
        layout::lemma_f32_stands(b, at + 44, self.suspension_displacement);
        layout::lemma_split(b, at, p9, layout::f32_image(self.suspension_velocity));
        layout::lemma_f32_stands(b, at + 40, self.suspension_velocity);
        layout::lemma_split(b, at, p8, layout::f32_image(self.temperature_tread));
        layout::lemma_f32_stands(b, at + 36, self.temperature_tread);
        layout::lemma_split(b, at, p7, layout::f32_image(self.temperature_inner));
        layout::lemma_f32_stands(b, at + 32, self.temperature_inner);
        layout::lemma_split(b, at, p6, layout::f32_image(self.force_long));
        layout::lemma_f32_stands(b, at + 28, self.force_long);
        layout::lemma_split(b, at, p5, layout::f32_image(self.force_lat));
        layout::lemma_f32_stands(b, at + 24, self.force_lat);
        layout::lemma_split(b, at, p4, layout::f32_image(self.load_vertical));
        layout::lemma_f32_stands(b, at + 20, self.load_vertical);
        layout::lemma_split(b, at, p3, layout::f32_image(self.radius_unloaded));
        layout::lemma_f32_stands(b, at + 16, self.radius_unloaded);
        layout::lemma_split(b, at, p2, layout::f32_image(self.slip_angle));
        layout::lemma_f32_stands(b, at + 12, self.slip_angle);
        layout::lemma_split(b, at, p1, layout::f32_image(self.slip_ratio));
        layout::lemma_f32_stands(b, at + 8, self.slip_ratio);
        layout::lemma_split(b, at, p0, layout::f32_image(self.camber));
        layout::lemma_f32_stands(b, at + 4, self.camber);
        layout::lemma_f32_stands(b, at, self.rps);
    }

    proof fn lemma_image_size(self) {
        let p0 = layout::f32_image(self.rps);
        let p1 = p0 + layout::f32_image(self.camber);
        let p2 = p1 + layout::f32_image(self.slip_ratio);
        let p3 = p2 + layout::f32_image(self.slip_angle);
        let p4 = p3 + layout::f32_image(self.radius_unloaded);
        let p5 = p4 + layout::f32_image(self.load_vertical);
        let p6 = p5 + layout::f32_image(self.force_lat);
        let p7 = p6 + layout::f32_image(self.force_long);
        let p8 = p7 + layout::f32_image(self.temperature_inner);
        let p9 = p8 + layout::f32_image(self.temperature_tread);
        let p10 = p9 + layout::f32_image(self.suspension_velocity);
        let p11 = p10 + layout::f32_image(self.suspension_displacement);
        let p12 = p11 + layout::f32_image(self.suspension_disp_norm);
        let p13 = p12 + layout::f32_image(self.position_vertical);
        let p14 = p13 + seq![self.surface_type];
        let p15 = p14 + self._reserved@;
        layout::lemma_f32_size(self.rps);
        assert(p0.len() == 4);
        layout::lemma_f32_size(self.camber);
        assert(p1.len() == 8);
        layout::lemma_f32_size(self.slip_ratio);
        assert(p2.len() == 12);
        layout::lemma_f32_size(self.slip_angle);
        assert(p3.len() == 16);
        layout::lemma_f32_size(self.radius_unloaded);
        assert(p4.len() == 20);
        layout::lemma_f32_size(self.load_vertical);
        assert(p5.len() == 24);
        layout::lemma_f32_size(self.force_lat);
        assert(p6.len() == 28);
        layout::lemma_f32_size(self.force_long);
        assert(p7.len() == 32);
        layout::lemma_f32_size(self.temperature_inner);
        assert(p8.len() == 36);
        layout::lemma_f32_size(self.temperature_tread);
        assert(p9.len() == 40);
        layout::lemma_f32_size(self.suspension_velocity);
        assert(p10.len() == 44);
        layout::lemma_f32_size(self.suspension_displacement);
        assert(p11.len() == 48);
        layout::lemma_f32_size(self.suspension_disp_norm);
        assert(p12.len() == 52);
        layout::lemma_f32_size(self.position_vertical);
        assert(p13.len() == 56);
        assert(p14.len() == 57);
        assert(p15.len() == 72);
    }

    proof fn lemma_one_reading(self, other: Self, b: Seq<u8>, at: int) {
        assert(self._reserved@ == other._reserved@);
        assert(self._reserved =~= other._reserved);
    }
}

impl Packed for CarFull {
    open spec fn image(self) -> Seq<u8> {
        self.assists.image()
            + self.chassis.image()
            + self.driveline.image()
            + self.engine.image()
            + self.input.image()
            + self.orientation.image()
            + self.velocity.image()
            + layout::records_image(self.tires@)
            + self._reserved@
    }

    proof fn lemma_read_back(self, b: Seq<u8>, at: int) {
        self.lemma_image_size();
        let p0 = self.assists.image();
        let p1 = p0 + self.chassis.image();
        let p2 = p1 + self.driveline.image();
        let p3 = p2 + self.engine.image();
        let p4 = p3 + self.input.image();
        let p5 = p4 + self.orientation.image();
        let p6 = p5 + self.velocity.image();
        let p7 = p6 + layout::records_image(self.tires@);
        let p8 = p7 + self._reserved@;
        self.assists.lemma_image_size();
        assert(p0.len() == 8);
        self.chassis.lemma_image_size();
        assert(p1.len() == 60);
        self.driveline.lemma_image_size();
        assert(p2.len() == 84);
        self.engine.lemma_image_size();
        assert(p3.len() == 140);
        self.input.lemma_image_size();
        assert(p4.len() == 160);
        self.orientation.lemma_image_size();
        assert(p5.len() == 194);
        self.velocity.lemma_image_size();
        assert(p6.len() == 230);
        layout::lemma_records_size(self.tires@);
        assert(p7.len() == 518);
        assert(p8.len() == 532);
        layout::lemma_split(b, at, p7, self._reserved@);
        layout::lemma_bytes_stand(b, at + 518, self._reserved@);
        layout::lemma_split(b, at, p6, layout::records_image(self.tires@));
        layout::lemma_records_stand(b, at + 230, self.tires@);
        layout::lemma_split(b, at, p5, self.velocity.image());
        self.velocity.lemma_read_back(b, at + 194);
        layout::lemma_split(b, at, p4, self.orientation.image());
        self.orientation.lemma_read_back(b, at + 160);
        layout::lemma_split(b, at, p3, self.input.image());
        self.input.lemma_read_back(b, at + 140);
        layout::lemma_split(b, at, p2, self.engine.image());
        self.engine.lemma_read_back(b, at + 84);
        layout::lemma_split(b, at, p1, self.driveline.image());
        self.driveline.lemma_read_back(b, at + 60);
        layout::lemma_split(b, at, p0, self.chassis.image());
        self.chassis.lemma_read_back(b, at + 8);
        self.assists.lemma_read_back(b, at);
    }

    proof fn lemma_image_size(self) {
        let p0 = self.assists.image();
        let p1 = p0 + self.chassis.image();
        let p2 = p1 + self.driveline.image();
        let p3 = p2 + self.engine.image();
        let p4 = p3 + self.input.image();
        let p5 = p4 + self.orientation.image();
        let p6 = p5 + self.velocity.image();
        let p7 = p6 + layout::records_image(self.tires@);
        let p8 = p7 + self._reserved@;
        self.assists.lemma_image_size();
        assert(p0.len() == 8);
        self.chassis.lemma_image_size();
        assert(p1.len() == 60);
        self.driveline.lemma_image_size();
        assert(p2.len() == 84);
        self.engine.lemma_image_size();
        assert(p3.len() == 140);
        self.input.lemma_image_size();
        assert(p4.len() == 160);
        self.orientation.lemma_image_size();
        assert(p5.len() == 194);
        self.velocity.lemma_image_size();
        assert(p6.len() == 230);
        layout::lemma_records_size(self.tires@);
        assert(p7.len() == 518);
        assert(p8.len() == 532);
    }

    proof fn lemma_one_reading(self, other: Self, b: Seq<u8>, at: int) {
        self.assists.lemma_one_reading(other.assists, b, at);
        self.chassis.lemma_one_reading(other.chassis, b, at + 8);
        self.driveline.lemma_one_reading(other.driveline, b, at + 60);
        self.engine.lemma_one_reading(other.engine, b, at + 84);
        self.input.lemma_one_reading(other.input, b, at + 140);
        self.orientation.lemma_one_reading(other.orientation, b, at + 160);
        self.velocity.lemma_one_reading(other.velocity, b, at + 194);
        assert forall|k: int| 0 <= k < 4 implies self.tires@[k] == other.tires@[k] by {
            let x = self.tires@[k];
            let y = other.tires@[k];
            x.lemma_one_reading(y, b, at + 230 + 72 * k);
        }
        assert(self.tires@ == other.tires@);
        assert(self.tires =~= other.tires);
        assert(self._reserved@ == other._reserved@);
        assert(self._reserved =~= other._reserved);
    }
}

impl Packed for InputExtended {
    open spec fn image(self) -> Seq<u8> {
        seq![self.flags]
            + layout::f32_image(self.ffb_force)
            + self._reserved@
    }

    proof fn lemma_read_back(self, b: Seq<u8>, at: int) {
        self.lemma_image_size();
        let p0 = seq![self.flags];
        let p1 = p0 + layout::f32_image(self.ffb_force);
        let p2 = p1 + self._reserved@;
        assert(p0.len() == 1);
        layout::lemma_f32_size(self.ffb_force);
        assert(p1.len() == 5);
        assert(p2.len() == 20);
        layout::lemma_split(b, at, p1, self._reserved@);
        layout::lemma_bytes_stand(b, at + 5, self._reserved@);
        layout::lemma_split(b, at, p0, layout::f32_image(self.ffb_force));
        layout::lemma_f32_stands(b, at + 1, self.ffb_force);
        layout::lemma_u8_stands(b, at, self.flags);
    }

    proof fn lemma_image_size(self) {
        let p0 = seq![self.flags];
        let p1 = p0 + layout::f32_image(self.ffb_force);
        let p2 = p1 + self._reserved@;
        assert(p0.len() == 1);
        layout::lemma_f32_size(self.ffb_force);
        assert(p1.len() == 5);
        assert(p2.len() == 20);
    }

    proof fn lemma_one_reading(self, other: Self, b: Seq<u8>, at: int) {
        assert(self._reserved@ == other._reserved@);
        assert(self._reserved =~= other._reserved);
    }
}

impl Packed for Leaderboard {
    open spec fn image(self) -> Seq<u8> {
        seq![self.status]
            + seq![self.track_status]
            + wire::u16_image(self.lap_current)
            + seq![self.position]
            + seq![self.health]
            + wire::u16_image(self.wrecks)
            + wire::u16_image(self.frags)
            + wire::u16_image(self.assists)
            + wire::i32_image(self.score)
            + wire::i32_image(self.points)
            + wire::i32_image(self.delta_leader)
            + wire::u16_image(self.lap_timing)
            + self._reserved@
    }

    proof fn lemma_read_back(self, b: Seq<u8>, at: int) {
        self.lemma_image_size();
        let p0 = seq![self.status];
        let p1 = p0 + seq![self.track_status];
        let p2 = p1 + wire::u16_image(self.lap_current);
        let p3 = p2 + seq![self.position];
        let p4 = p3 + seq![self.health];
        let p5 = p4 + wire::u16_image(self.wrecks);
        let p6 = p5 + wire::u16_image(self.frags);
        let p7 = p6 + wire::u16_image(self.assists);
        let p8 = p7 + wire::i32_image(self.score);
        let p9 = p8 + wire::i32_image(self.points);
        let p10 = p9 + wire::i32_image(self.delta_leader);
        let p11 = p10 + wire::u16_image(self.lap_timing);
        let p12 = p11 + self._reserved@;
        assert(p0.len() == 1);
        assert(p1.len() == 2);
        assert(p2.len() == 4);
        assert(p3.len() == 5);
        assert(p4.len() == 6);
        assert(p5.len() == 8);
        assert(p6.len() == 10);
        assert(p7.len() == 12);
        assert(p8.len() == 16);
        assert(p9.len() == 20);
        assert(p10.len() == 24);
        assert(p11.len() == 26);
        assert(p12.len() == 32);
        layout::lemma_split(b, at, p11, self._reserved@);
        layout::lemma_bytes_stand(b, at + 26, self._reserved@);
        layout::lemma_split(b, at, p10, wire::u16_image(self.lap_timing));
        layout::lemma_u16_stands(b, at + 24, self.lap_timing);
        layout::lemma_split(b, at, p9, wire::i32_image(self.delta_leader));
        layout::lemma_i32_stands(b, at + 20, self.delta_leader);
        layout::lemma_split(b, at, p8, wire::i32_image(self.points));
        layout::lemma_i32_stands(b, at + 16, self.points);
        layout::lemma_split(b, at, p7, wire::i32_image(self.score));
        layout::lemma_i32_stands(b, at + 12, self.score);
        layout::lemma_split(b, at, p6, wire::u16_image(self.assists));
        layout::lemma_u16_stands(b, at + 10, self.assists);
        layout::lemma_split(b, at, p5, wire::u16_image(self.frags));
        layout::lemma_u16_stands(b, at + 8, self.frags);
        layout::lemma_split(b, at, p4, wire::u16_image(self.wrecks));
        layout::lemma_u16_stands(b, at + 6, self.wrecks);
        layout::lemma_split(b, at, p3, seq![self.health]);
        layout::lemma_u8_stands(b, at + 5, self.health);
        layout::lemma_split(b, at, p2, seq![self.position]);
        layout::lemma_u8_stands(b, at + 4, self.position);
        layout::lemma_split(b, at, p1, wire::u16_image(self.lap_current));
        layout::lemma_u16_stands(b, at + 2, self.lap_current);
        layout::lemma_split(b, at, p0, seq![self.track_status]);
        layout::lemma_u8_stands(b, at + 1, self.track_status);
        layout::lemma_u8_stands(b, at, self.status);
    }

    proof fn lemma_image_size(self) {
        let p0 = seq![self.status];
        let p1 = p0 + seq![self.track_status];
        let p2 = p1 + wire::u16_image(self.lap_current);
        let p3 = p2 + seq![self.position];
        let p4 = p3 + seq![self.health];
        let p5 = p4 + wire::u16_image(self.wrecks);
        let p6 = p5 + wire::u16_image(self.frags);
        let p7 = p6 + wire::u16_image(self.assists);
        let p8 = p7 + wire::i32_image(self.score);
        let p9 = p8 + wire::i32_image(self.points);
        let p10 = p9 + wire::i32_image(self.delta_leader);
        let p11 = p10 + wire::u16_image(self.lap_timing);
        let p12 = p11 + self._reserved@;
        assert(p0.len() == 1);
        assert(p1.len() == 2);
        assert(p2.len() == 4);
        assert(p3.len() == 5);
        assert(p4.len() == 6);
        assert(p5.len() == 8);
        assert(p6.len() == 10);
        assert(p7.len() == 12);
        assert(p8.len() == 16);
        assert(p9.len() == 20);
        assert(p10.len() == 24);
        assert(p11.len() == 26);
        assert(p12.len() == 32);
    }

    proof fn lemma_one_reading(self, other: Self, b: Seq<u8>, at: int) {
        assert(self._reserved@ == other._reserved@);
        assert(self._reserved =~= other._reserved);
    }
}

impl Packed for Timing {
    open spec fn image(self) -> Seq<u8> {
        wire::u32_image(self.lap_time_current)
            + wire::u32_image(self.lap_time_penalty_current)
            + wire::u32_image(self.lap_time_last)
            + wire::u32_image(self.lap_time_best)
            + seq![self.lap_best]
            + wire::i32_image(self.delta_ahead)
            + wire::i32_image(self.delta_behind)
            + layout::f32_image(self.lap_progress)
            + self._reserved@
    }

    proof fn lemma_read_back(self, b: Seq<u8>, at: int) {
        self.lemma_image_size();
        let p0 = wire::u32_image(self.lap_time_current);
        let p1 = p0 + wire::u32_image(self.lap_time_penalty_current);
        let p2 = p1 + wire::u32_image(self.lap_time_last);
        let p3 = p2 + wire::u32_image(self.lap_time_best);
        let p4 = p3 + seq![self.lap_best];
        let p5 = p4 + wire::i32_image(self.delta_ahead);
        let p6 = p5 + wire::i32_image(self.delta_behind);
        let p7 = p6 + layout::f32_image(self.lap_progress);
        let p8 = p7 + self._reserved@;
        assert(p0.len() == 4);
        assert(p1.len() == 8);
        assert(p2.len() == 12);
        assert(p3.len() == 16);
        assert(p4.len() == 17);
        assert(p5.len() == 21);
        assert(p6.len() == 25);
        layout::lemma_f32_size(self.lap_progress);
        assert(p7.len() == 29);
        assert(p8.len() == 32);
        layout::lemma_split(b, at, p7, self._reserved@);
        layout::lemma_bytes_stand(b, at + 29, self._reserved@);
        layout::lemma_split(b, at, p6, layout::f32_image(self.lap_progress));
        layout::lemma_f32_stands(b, at + 25, self.lap_progress);
        layout::lemma_split(b, at, p5, wire::i32_image(self.delta_behind));
        layout::lemma_i32_stands(b, at + 21, self.delta_behind);
        layout::lemma_split(b, at, p4, wire::i32_image(self.delta_ahead));
        layout::lemma_i32_stands(b, at + 17, self.delta_ahead);
        layout::lemma_split(b, at, p3, seq![self.lap_best]);
        layout::lemma_u8_stands(b, at + 16, self.lap_best);
        layout::lemma_split(b, at, p2, wire::u32_image(self.lap_time_best));
        layout::lemma_u32_stands(b, at + 12, self.lap_time_best);
        layout::lemma_split(b, at, p1, wire::u32_image(self.lap_time_last));
        layout::lemma_u32_stands(b, at + 8, self.lap_time_last);
        layout::lemma_split(b, at, p0, wire::u32_image(self.lap_time_penalty_current));
        layout::lemma_u32_stands(b, at + 4, self.lap_time_penalty_current);
        layout::lemma_u32_stands(b, at, self.lap_time_current);
    }

    proof fn lemma_image_size(self) {
        let p0 = wire::u32_image(self.lap_time_current);
        let p1 = p0 + wire::u32_image(self.lap_time_penalty_current);
        let p2 = p1 + wire::u32_image(self.lap_time_last);
        let p3 = p2 + wire::u32_image(self.lap_time_best);
        let p4 = p3 + seq![self.lap_best];
        let p5 = p4 + wire::i32_image(self.delta_ahead);
        let p6 = p5 + wire::i32_image(self.delta_behind);
        let p7 = p6 + layout::f32_image(self.lap_progress);
        let p8 = p7 + self._reserved@;
        assert(p0.len() == 4);
        assert(p1.len() == 8);
        assert(p2.len() == 12);
        assert(p3.len() == 16);
        assert(p4.len() == 17);
        assert(p5.len() == 21);
        assert(p6.len() == 25);
        layout::lemma_f32_size(self.lap_progress);
        assert(p7.len() == 29);
        assert(p8.len() == 32);
    }

    proof fn lemma_one_reading(self, other: Self, b: Seq<u8>, at: int) {
        assert(self._reserved@ == other._reserved@);
        assert(self._reserved =~= other._reserved);
    }
}

impl Packed for TimingSectors {
    open spec fn image(self) -> Seq<u8> {
        wire::u32_image(self.sector_time_current_lap_1)
            + wire::u32_image(self.sector_time_current_lap_2)
            + wire::u32_image(self.sector_time_last_lap_1)
            + wire::u32_image(self.sector_time_last_lap_2)
            + wire::u32_image(self.sector_time_best_lap_1)
            + wire::u32_image(self.sector_time_best_lap_2)
            + wire::u32_image(self.sector_time_best_1)
            + wire::u32_image(self.sector_time_best_2)
            + wire::u32_image(self.sector_time_best_3)
    }

    proof fn lemma_read_back(self, b: Seq<u8>, at: int) {
        self.lemma_image_size();
        let p0 = wire::u32_image(self.sector_time_current_lap_1);
        let p1 = p0 + wire::u32_image(self.sector_time_current_lap_2);
        let p2 = p1 + wire::u32_image(self.sector_time_last_lap_1);
        let p3 = p2 + wire::u32_image(self.sector_time_last_lap_2);
        let p4 = p3 + wire::u32_image(self.sector_time_best_lap_1);
        let p5 = p4 + wire::u32_image(self.sector_time_best_lap_2);
        let p6 = p5 + wire::u32_image(self.sector_time_best_1);
        let p7 = p6 + wire::u32_image(self.sector_time_best_2);
        let p8 = p7 + wire::u32_image(self.sector_time_best_3);
        assert(p0.len() == 4);
        assert(p1.len() == 8);
        assert(p2.len() == 12);
        assert(p3.len() == 16);
        assert(p4.len() == 20);
        assert(p5.len() == 24);
        assert(p6.len() == 28);
        assert(p7.len() == 32);
        assert(p8.len() == 36);
        layout::lemma_split(b, at, p7, wire::u32_image(self.sector_time_best_3));
        layout::lemma_u32_stands(b, at + 32, self.sector_time_best_3);
        layout::lemma_split(b, at, p6, wire::u32_image(self.sector_time_best_2));
        layout::lemma_u32_stands(b, at + 28, self.sector_time_best_2);
        layout::lemma_split(b, at, p5, wire::u32_image(self.sector_time_best_1));
        layout::lemma_u32_stands(b, at + 24, self.sector_time_best_1);
        layout::lemma_split(b, at, p4, wire::u32_image(self.sector_time_best_lap_2));
        layout::lemma_u32_stands(b, at + 20, self.sector_time_best_lap_2);
        layout::lemma_split(b, at, p3, wire::u32_image(self.sector_time_best_lap_1));
        layout::lemma_u32_stands(b, at + 16, self.sector_time_best_lap_1);
        layout::lemma_split(b, at, p2, wire::u32_image(self.sector_time_last_lap_2));
        layout::lemma_u32_stands(b, at + 12, self.sector_time_last_lap_2);
        layout::lemma_split(b, at, p1, wire::u32_image(self.sector_time_last_lap_1));
        layout::lemma_u32_stands(b, at + 8, self.sector_time_last_lap_1);
        layout::lemma_split(b, at, p0, wire::u32_image(self.sector_time_current_lap_2));
        layout::lemma_u32_stands(b, at + 4, self.sector_time_current_lap_2);
        layout::lemma_u32_stands(b, at, self.sector_time_current_lap_1);
    }

    proof fn lemma_image_size(self) {
        let p0 = wire::u32_image(self.sector_time_current_lap_1);
        let p1 = p0 + wire::u32_image(self.sector_time_current_lap_2);
        let p2 = p1 + wire::u32_image(self.sector_time_last_lap_1);
        let p3 = p2 + wire::u32_image(self.sector_time_last_lap_2);
        let p4 = p3 + wire::u32_image(self.sector_time_best_lap_1);
        let p5 = p4 + wire::u32_image(self.sector_time_best_lap_2);
        let p6 = p5 + wire::u32_image(self.sector_time_best_1);
        let p7 = p6 + wire::u32_image(self.sector_time_best_2);
        let p8 = p7 + wire::u32_image(self.sector_time_best_3);
        assert(p0.len() == 4);
        assert(p1.len() == 8);
        assert(p2.len() == 12);
        assert(p3.len() == 16);
        assert(p4.len() == 20);
        assert(p5.len() == 24);
        assert(p6.len() == 28);
        assert(p7.len() == 32);
        assert(p8.len() == 36);
    }

    proof fn lemma_one_reading(self, other: Self, b: Seq<u8>, at: int) {
    }
}

impl Packed for ParticipantMotion {
    open spec fn image(self) -> Seq<u8> {
        self.orientation.image()
            + self.velocity.image()
    }

    proof fn lemma_read_back(self, b: Seq<u8>, at: int) {
        self.lemma_image_size();
        let p0 = self.orientation.image();
        let p1 = p0 + self.velocity.image();
        self.orientation.lemma_image_size();
        assert(p0.len() == 34);
        self.velocity.lemma_image_size();
        assert(p1.len() == 38);
        layout::lemma_split(b, at, p0, self.velocity.image());
        self.velocity.lemma_read_back(b, at + 34);
        self.orientation.lemma_read_back(b, at);
    }

    proof fn lemma_image_size(self) {
        let p0 = self.orientation.image();
        let p1 = p0 + self.velocity.image();
        self.orientation.lemma_image_size();
        assert(p0.len() == 34);
        self.velocity.lemma_image_size();
        assert(p1.len() == 38);
    }

    proof fn lemma_one_reading(self, other: Self, b: Seq<u8>, at: int) {
        self.orientation.lemma_one_reading(other.orientation, b, at);
        self.velocity.lemma_one_reading(other.velocity, b, at + 34);
    }
}

impl Packed for Damage {
    open spec fn image(self) -> Seq<u8> {
        self.damage_states@
    }

    proof fn lemma_read_back(self, b: Seq<u8>, at: int) {
        self.lemma_image_size();
        let p0 = self.damage_states@;
        assert(p0.len() == 21);
        layout::lemma_bytes_stand(b, at, self.damage_states@);
    }

    proof fn lemma_image_size(self) {
        let p0 = self.damage_states@;
        assert(p0.len() == 21);
    }

    proof fn lemma_one_reading(self, other: Self, b: Seq<u8>, at: int) {
        assert(self.damage_states@ == other.damage_states@);
        assert(self.damage_states =~= other.damage_states);
    }
}

impl Packed for Info {
    open spec fn image(self) -> Seq<u8> {
        self.car_id@
            + self.car_name@
            + self.player_name@
            + seq![self.participant_index]
            + wire::i32_image(self.last_normal_track_status_time)
            + wire::i32_image(self.last_collision_time)
            + wire::i32_image(self.last_reset_time)
            + self._reserved@
    }

    proof fn lemma_read_back(self, b: Seq<u8>, at: int) {
        self.lemma_image_size();
        let p0 = self.car_id@;
        let p1 = p0 + self.car_name@;
        let p2 = p1 + self.player_name@;
        let p3 = p2 + seq![self.participant_index];
        let p4 = p3 + wire::i32_image(self.last_normal_track_status_time);
        let p5 = p4 + wire::i32_image(self.last_collision_time);
        let p6 = p5 + wire::i32_image(self.last_reset_time);
        let p7 = p6 + self._reserved@;
        assert(p0.len() == 64);
        assert(p1.len() == 160);
        assert(p2.len() == 184);
        assert(p3.len() == 185);
        assert(p4.len() == 189);
        assert(p5.len() == 193);
        assert(p6.len() == 197);
        assert(p7.len() == 213);
        layout::lemma_split(b, at, p6, self._reserved@);
        layout::lemma_bytes_stand(b, at + 197, self._reserved@);
        layout::lemma_split(b, at, p5, wire::i32_image(self.last_reset_time));
        layout::lemma_i32_stands(b, at + 193, self.last_reset_time);
        layout::lemma_split(b, at, p4, wire::i32_image(self.last_collision_time));
        layout::lemma_i32_stands(b, at + 189, self.last_collision_time);
        layout::lemma_split(b, at, p3, wire::i32_image(self.last_normal_track_status_time));
        layout::lemma_i32_stands(b, at + 185, self.last_normal_track_status_time);
        layout::lemma_split(b, at, p2, seq![self.participant_index]);
        layout::lemma_u8_stands(b, at + 184, self.participant_index);
        layout::lemma_split(b, at, p1, self.player_name@);
        layout::lemma_bytes_stand(b, at + 160, self.player_name@);
        layout::lemma_split(b, at, p0, self.car_name@);
        layout::lemma_bytes_stand(b, at + 64, self.car_name@);
        layout::lemma_bytes_stand(b, at, self.car_id@);
    }

    proof fn lemma_image_size(self) {
        let p0 = self.car_id@;
        let p1 = p0 + self.car_name@;
        let p2 = p1 + self.player_name@;
        let p3 = p2 + seq![self.participant_index];
        let p4 = p3 + wire::i32_image(self.last_normal_track_status_time);
        let p5 = p4 + wire::i32_image(self.last_collision_time);
        let p6 = p5 + wire::i32_image(self.last_reset_time);
        let p7 = p6 + self._reserved@;
        assert(p0.len() == 64);
        assert(p1.len() == 160);
        assert(p2.len() == 184);
        assert(p3.len() == 185);
        assert(p4.len() == 189);
        assert(p5.len() == 193);
        assert(p6.len() == 197);
        assert(p7.len() == 213);
    }

    proof fn lemma_one_reading(self, other: Self, b: Seq<u8>, at: int) {
        assert(self.car_id@ == other.car_id@);
        assert(self.car_id =~= other.car_id);
        assert(self.car_name@ == other.car_name@);
        assert(self.car_name =~= other.car_name);
        assert(self.player_name@ == other.player_name@);
        assert(self.player_name =~= other.player_name);
        assert(self._reserved@ == other._reserved@);
        assert(self._reserved =~= other._reserved);
    }
}

impl Packed for Main {
    open spec fn image(self) -> Seq<u8> {
        self.header.image()
            + wire::u16_image(self.marshal_flags_player)
            + self.leaderboard.image()
            + self.timing.image()
            + self.timing_sectors.image()
            + self.info.image()
            + self.damage.image()
            + self.car.image()
            + self.session.image()
            + wire::u16_image(self.player_status_flags)
            + self.input_extended.image()
            + self._reserved@
    }

    proof fn lemma_read_back(self, b: Seq<u8>, at: int) {
        self.lemma_image_size();
        let p0 = self.header.image();
        let p1 = p0 + wire::u16_image(self.marshal_flags_player);
        let p2 = p1 + self.leaderboard.image();
        let p3 = p2 + self.timing.image();
        let p4 = p3 + self.timing_sectors.image();
        let p5 = p4 + self.info.image();
        let p6 = p5 + self.damage.image();
        let p7 = p6 + self.car.image();
        let p8 = p7 + self.session.image();
        let p9 = p8 + wire::u16_image(self.player_status_flags);
        let p10 = p9 + self.input_extended.image();
        let p11 = p10 + self._reserved@;
        self.header.lemma_image_size();
        assert(p0.len() == 14);
        assert(p1.len() == 16);
        self.leaderboard.lemma_image_size();
        assert(p2.len() == 48);
        self.timing.lemma_image_size();
        assert(p3.len() == 80);
        self.timing_sectors.lemma_image_size();
        assert(p4.len() == 116);
        self.info.lemma_image_size();
        assert(p5.len() == 329);
        self.damage.lemma_image_size();
        assert(p6.len() == 350);
        self.car.lemma_image_size();
        assert(p7.len() == 882);
        self.session.lemma_image_size();
        assert(p8.len() == 1090);
        assert(p9.len() == 1092);
        self.input_extended.lemma_image_size();
        assert(p10.len() == 1112);
        assert(p11.len() == 1218);
        layout::lemma_split(b, at, p10, self._reserved@);
        layout::lemma_bytes_stand(b, at + 1112, self._reserved@);
        layout::lemma_split(b, at, p9, self.input_extended.image());
        self.input_extended.lemma_read_back(b, at + 1092);
        layout::lemma_split(b, at, p8, wire::u16_image(self.player_status_flags));
        layout::lemma_u16_stands(b, at + 1090, self.player_status_flags);
        layout::lemma_split(b, at, p7, self.session.image());
        self.session.lemma_read_back(b, at + 882);
        layout::lemma_split(b, at, p6, self.car.image());
        self.car.lemma_read_back(b, at + 350);
        layout::lemma_split(b, at, p5, self.damage.image());
        self.damage.lemma_read_back(b, at + 329);
        layout::lemma_split(b, at, p4, self.info.image());
        self.info.lemma_read_back(b, at + 116);
        layout::lemma_split(b, at, p3, self.timing_sectors.image());
        self.timing_sectors.lemma_read_back(b, at + 80);
        layout::lemma_split(b, at, p2, self.timing.image());
        self.timing.lemma_read_back(b, at + 48);
        layout::lemma_split(b, at, p1, self.leaderboard.image());
        self.leaderboard.lemma_read_back(b, at + 16);
        layout::lemma_split(b, at, p0, wire::u16_image(self.marshal_flags_player));
        layout::lemma_u16_stands(b, at + 14, self.marshal_flags_player);
        self.header.lemma_read_back(b, at);
    }

    proof fn lemma_image_size(self) {
        let p0 = self.header.image();
        let p1 = p0 + wire::u16_image(self.marshal_flags_player);
        let p2 = p1 + self.leaderboard.image();
        let p3 = p2 + self.timing.image();
        let p4 = p3 + self.timing_sectors.image();
        let p5 = p4 + self.info.image();
        let p6 = p5 + self.damage.image();
        let p7 = p6 + self.car.image();
        let p8 = p7 + self.session.image();
        let p9 = p8 + wire::u16_image(self.player_status_flags);
        let p10 = p9 + self.input_extended.image();
        let p11 = p10 + self._reserved@;
        self.header.lemma_image_size();
        assert(p0.len() == 14);
        assert(p1.len() == 16);
        self.leaderboard.lemma_image_size();
        assert(p2.len() == 48);
        self.timing.lemma_image_size();
        assert(p3.len() == 80);
        self.timing_sectors.lemma_image_size();
        assert(p4.len() == 116);
        self.info.lemma_image_size();
        assert(p5.len() == 329);
        self.damage.lemma_image_size();
        assert(p6.len() == 350);
        self.car.lemma_image_size();
        assert(p7.len() == 882);
        self.session.lemma_image_size();
        assert(p8.len() == 1090);
        assert(p9.len() == 1092);
        self.input_extended.lemma_image_size();
        assert(p10.len() == 1112);
        assert(p11.len() == 1218);
    }

    proof fn lemma_one_reading(self, other: Self, b: Seq<u8>, at: int) {
        self.header.lemma_one_reading(other.header, b, at);
        self.leaderboard.lemma_one_reading(other.leaderboard, b, at + 16);
        self.timing.lemma_one_reading(other.timing, b, at + 48);
        self.timing_sectors.lemma_one_reading(other.timing_sectors, b, at + 80);
        self.info.lemma_one_reading(other.info, b, at + 116);
        self.damage.lemma_one_reading(other.damage, b, at + 329);
        self.car.lemma_one_reading(other.car, b, at + 350);
        self.session.lemma_one_reading(other.session, b, at + 882);
        self.input_extended.lemma_one_reading(other.input_extended, b, at + 1092);
        assert(self._reserved@ == other._reserved@);
        assert(self._reserved =~= other._reserved);
    }
}

impl Packed for ParticipantsLeaderboard {
    open spec fn image(self) -> Seq<u8> {
        self.header.image()
            + seq![self.participant_visibility]
            + layout::records_image(self.participants@)
            + self._reserved@
    }

    proof fn lemma_read_back(self, b: Seq<u8>, at: int) {
        self.lemma_image_size();
        let p0 = self.header.image();
        let p1 = p0 + seq![self.participant_visibility];
        let p2 = p1 + layout::records_image(self.participants@);
        let p3 = p2 + self._reserved@;
        self.header.lemma_image_size();
        assert(p0.len() == 14);
        assert(p1.len() == 15);
        layout::lemma_records_size(self.participants@);
        assert(p2.len() == 1167);
        assert(p3.len() == 1231);
        layout::lemma_split(b, at, p2, self._reserved@);
        layout::lemma_bytes_stand(b, at + 1167, self._reserved@);
        layout::lemma_split(b, at, p1, layout::records_image(self.participants@));
        layout::lemma_records_stand(b, at + 15, self.participants@);
        layout::lemma_split(b, at, p0, seq![self.participant_visibility]);
        layout::lemma_u8_stands(b, at + 14, self.participant_visibility);
        self.header.lemma_read_back(b, at);
    }

    proof fn lemma_image_size(self) {
        let p0 = self.header.image();
        let p1 = p0 + seq![self.participant_visibility];
        let p2 = p1 + layout::records_image(self.participants@);
        let p3 = p2 + self._reserved@;
        self.header.lemma_image_size();
        assert(p0.len() == 14);
        assert(p1.len() == 15);
        layout::lemma_records_size(self.participants@);
        assert(p2.len() == 1167);
        assert(p3.len() == 1231);
    }

    proof fn lemma_one_reading(self, other: Self, b: Seq<u8>, at: int) {
        self.header.lemma_one_reading(other.header, b, at);
        assert forall|k: int| 0 <= k < 36 implies self.participants@[k] == other.participants@[k] by {
            let x = self.participants@[k];
            let y = other.participants@[k];
            x.lemma_one_reading(y, b, at + 15 + 32 * k);
        }
        assert(self.participants@ == other.participants@);
        assert(self.participants =~= other.participants);
        assert(self._reserved@ == other._reserved@);
        assert(self._reserved =~= other._reserved);
    }
}

impl Packed for ParticipantsTiming {
    open spec fn image(self) -> Seq<u8> {
        self.header.image()
            + seq![self.participant_visibility]
            + layout::records_image(self.participants@)
            + self._reserved@
    }

    proof fn lemma_read_back(self, b: Seq<u8>, at: int) {
        self.lemma_image_size();
        let p0 = self.header.image();
        let p1 = p0 + seq![self.participant_visibility];
        let p2 = p1 + layout::records_image(self.participants@);
        let p3 = p2 + self._reserved@;
        self.header.lemma_image_size();
        assert(p0.len() == 14);
        assert(p1.len() == 15);
        layout::lemma_records_size(self.participants@);
        assert(p2.len() == 1167);
        assert(p3.len() == 1231);
        layout::lemma_split(b, at, p2, self._reserved@);
        layout::lemma_bytes_stand(b, at + 1167, self._reserved@);
        layout::lemma_split(b, at, p1, layout::records_image(self.participants@));
        layout::lemma_records_stand(b, at + 15, self.participants@);
        layout::lemma_split(b, at, p0, seq![self.participant_visibility]);
        layout::lemma_u8_stands(b, at + 14, self.participant_visibility);
        self.header.lemma_read_back(b, at);
    }

    proof fn lemma_image_size(self) {
        let p0 = self.header.image();
        let p1 = p0 + seq![self.participant_visibility];
        let p2 = p1 + layout::records_image(self.participants@);
        let p3 = p2 + self._reserved@;
        self.header.lemma_image_size();
        assert(p0.len() == 14);
        assert(p1.len() == 15);
        layout::lemma_records_size(self.participants@);
        assert(p2.len() == 1167);
        assert(p3.len() == 1231);
    }

    proof fn lemma_one_reading(self, other: Self, b: Seq<u8>, at: int) {
        self.header.lemma_one_reading(other.header, b, at);
        assert forall|k: int| 0 <= k < 36 implies self.participants@[k] == other.participants@[k] by {
            let x = self.participants@[k];
            let y = other.participants@[k];
            x.lemma_one_reading(y, b, at + 15 + 32 * k);
        }
        assert(self.participants@ == other.participants@);
        assert(self.participants =~= other.participants);
        assert(self._reserved@ == other._reserved@);
        assert(self._reserved =~= other._reserved);
    }
}

impl Packed for ParticipantsTimingSectors {
    open spec fn image(self) -> Seq<u8> {
        self.header.image()
            + seq![self.participant_visibility]
            + layout::records_image(self.participants@)
            + self._reserved@
    }

    proof fn lemma_read_back(self, b: Seq<u8>, at: int) {
        self.lemma_image_size();
        let p0 = self.header.image();
        let p1 = p0 + seq![self.participant_visibility];
        let p2 = p1 + layout::records_image(self.participants@);
        let p3 = p2 + self._reserved@;
        self.header.lemma_image_size();
        assert(p0.len() == 14);
        assert(p1.len() == 15);
        layout::lemma_records_size(self.participants@);
        assert(p2.len() == 1311);
        assert(p3.len() == 1375);
        layout::lemma_split(b, at, p2, self._reserved@);
        layout::lemma_bytes_stand(b, at + 1311, self._reserved@);
        layout::lemma_split(b, at, p1, layout::records_image(self.participants@));
        layout::lemma_records_stand(b, at + 15, self.participants@);
        layout::lemma_split(b, at, p0, seq![self.participant_visibility]);
        layout::lemma_u8_stands(b, at + 14, self.participant_visibility);
        self.header.lemma_read_back(b, at);
    }

    proof fn lemma_image_size(self) {
        let p0 = self.header.image();
        let p1 = p0 + seq![self.participant_visibility];
        let p2 = p1 + layout::records_image(self.participants@);
        let p3 = p2 + self._reserved@;
        self.header.lemma_image_size();
        assert(p0.len() == 14);
        assert(p1.len() == 15);
        layout::lemma_records_size(self.participants@);
        assert(p2.len() == 1311);
        assert(p3.len() == 1375);
    }

    proof fn lemma_one_reading(self, other: Self, b: Seq<u8>, at: int) {
        self.header.lemma_one_reading(other.header, b, at);
        assert forall|k: int| 0 <= k < 36 implies self.participants@[k] == other.participants@[k] by {
            let x = self.participants@[k];
            let y = other.participants@[k];
            x.lemma_one_reading(y, b, at + 15 + 36 * k);
        }
        assert(self.participants@ == other.participants@);
        assert(self.participants =~= other.participants);
        assert(self._reserved@ == other._reserved@);
        assert(self._reserved =~= other._reserved);
    }
}

impl Packed for ParticipantsMotion {
    open spec fn image(self) -> Seq<u8> {
        self.header.image()
            + seq![self.participant_visibility]
            + layout::records_image(self.participants@)
    }

    proof fn lemma_read_back(self, b: Seq<u8>, at: int) {
        self.lemma_image_size();
        let p0 = self.header.image();
        let p1 = p0 + seq![self.participant_visibility];
        let p2 = p1 + layout::records_image(self.participants@);
        self.header.lemma_image_size();
        assert(p0.len() == 14);
        assert(p1.len() == 15);
        layout::lemma_records_size(self.participants@);
        assert(p2.len() == 1383);
        layout::lemma_split(b, at, p1, layout::records_image(self.participants@));
        layout::lemma_records_stand(b, at + 15, self.participants@);
        layout::lemma_split(b, at, p0, seq![self.participant_visibility]);
        layout::lemma_u8_stands(b, at + 14, self.participant_visibility);
        self.header.lemma_read_back(b, at);
    }

    proof fn lemma_image_size(self) {
        let p0 = self.header.image();
        let p1 = p0 + seq![self.participant_visibility];
        let p2 = p1 + layout::records_image(self.participants@);
        self.header.lemma_image_size();
        assert(p0.len() == 14);
        assert(p1.len() == 15);
        layout::lemma_records_size(self.participants@);
        assert(p2.len() == 1383);
    }

    proof fn lemma_one_reading(self, other: Self, b: Seq<u8>, at: int) {
        self.header.lemma_one_reading(other.header, b, at);
        assert forall|k: int| 0 <= k < 36 implies self.participants@[k] == other.participants@[k] by {
            let x = self.participants@[k];
            let y = other.participants@[k];
            x.lemma_one_reading(y, b, at + 15 + 38 * k);
        }
        assert(self.participants@ == other.participants@);
        assert(self.participants =~= other.participants);
    }
}

impl Packed for ParticipantsInfo {
    open spec fn image(self) -> Seq<u8> {
        self.header.image()
            + seq![self.participant_visibility]
            + layout::records_image(self.participants@)
            + self._reserved@
    }

    proof fn lemma_read_back(self, b: Seq<u8>, at: int) {
        self.lemma_image_size();
        let p0 = self.header.image();
        let p1 = p0 + seq![self.participant_visibility];
        let p2 = p1 + layout::records_image(self.participants@);
        let p3 = p2 + self._reserved@;
        self.header.lemma_image_size();
        assert(p0.len() == 14);
        assert(p1.len() == 15);
        layout::lemma_records_size(self.participants@);
        assert(p2.len() == 7683);
        assert(p3.len() == 8195);
        layout::lemma_split(b, at, p2, self._reserved@);
        layout::lemma_bytes_stand(b, at + 7683, self._reserved@);
        layout::lemma_split(b, at, p1, layout::records_image(self.participants@));
        layout::lemma_records_stand(b, at + 15, self.participants@);
        layout::lemma_split(b, at, p0, seq![self.participant_visibility]);
        layout::lemma_u8_stands(b, at + 14, self.participant_visibility);
        self.header.lemma_read_back(b, at);
    }

    proof fn lemma_image_size(self) {
        let p0 = self.header.image();
        let p1 = p0 + seq![self.participant_visibility];
        let p2 = p1 + layout::records_image(self.participants@);
        let p3 = p2 + self._reserved@;
        self.header.lemma_image_size();
        assert(p0.len() == 14);
        assert(p1.len() == 15);
        layout::lemma_records_size(self.participants@);
        assert(p2.len() == 7683);
        assert(p3.len() == 8195);
    }

    proof fn lemma_one_reading(self, other: Self, b: Seq<u8>, at: int) {
        self.header.lemma_one_reading(other.header, b, at);
        assert forall|k: int| 0 <= k < 36 implies self.participants@[k] == other.participants@[k] by {
            let x = self.participants@[k];
            let y = other.participants@[k];
            x.lemma_one_reading(y, b, at + 15 + 213 * k);
        }
        assert(self.participants@ == other.participants@);
        assert(self.participants =~= other.participants);
        assert(self._reserved@ == other._reserved@);
        assert(self._reserved =~= other._reserved);
    }
}

impl Packed for ParticipantsDamage {
    open spec fn image(self) -> Seq<u8> {
        self.header.image()
            + seq![self.participant_visibility]
            + layout::records_image(self.participants@)
            + self._reserved@
    }

    proof fn lemma_read_back(self, b: Seq<u8>, at: int) {
        self.lemma_image_size();
        let p0 = self.header.image();
        let p1 = p0 + seq![self.participant_visibility];
        let p2 = p1 + layout::records_image(self.participants@);
        let p3 = p2 + self._reserved@;
        self.header.lemma_image_size();
        assert(p0.len() == 14);
        assert(p1.len() == 15);
        layout::lemma_records_size(self.participants@);
        assert(p2.len() == 771);
        assert(p3.len() == 1027);
        layout::lemma_split(b, at, p2, self._reserved@);
        layout::lemma_bytes_stand(b, at + 771, self._reserved@);
        layout::lemma_split(b, at, p1, layout::records_image(self.participants@));
        layout::lemma_records_stand(b, at + 15, self.participants@);
        layout::lemma_split(b, at, p0, seq![self.participant_visibility]);
        layout::lemma_u8_stands(b, at + 14, self.participant_visibility);
        self.header.lemma_read_back(b, at);
    }

    proof fn lemma_image_size(self) {
        let p0 = self.header.image();
        let p1 = p0 + seq![self.participant_visibility];
        let p2 = p1 + layout::records_image(self.participants@);
        let p3 = p2 + self._reserved@;
        self.header.lemma_image_size();
        assert(p0.len() == 14);
        assert(p1.len() == 15);
        layout::lemma_records_size(self.participants@);
        assert(p2.len() == 771);
        assert(p3.len() == 1027);
    }

    proof fn lemma_one_reading(self, other: Self, b: Seq<u8>, at: int) {
        self.header.lemma_one_reading(other.header, b, at);
        assert forall|k: int| 0 <= k < 36 implies self.participants@[k] == other.participants@[k] by {
            let x = self.participants@[k];
            let y = other.participants@[k];
            x.lemma_one_reading(y, b, at + 15 + 21 * k);
        }
        assert(self.participants@ == other.participants@);
        assert(self.participants =~= other.participants);
        assert(self._reserved@ == other._reserved@);
        assert(self._reserved =~= other._reserved);
    }
}

/// The bytes of a packet.
pub open spec fn packet_image(p: Packet) -> Seq<u8> {
    match p {
        Packet::Main(q) => q.image(),
        Packet::ParticipantsLeaderboard(q) => q.image(),
        Packet::ParticipantsTiming(q) => q.image(),
        Packet::ParticipantsTimingSectors(q) => q.image(),
        Packet::ParticipantsMotion(q) => q.image(),
        Packet::ParticipantsInfo(q) => q.image(),
        Packet::ParticipantsDamage(q) => q.image(),
    }
}

/// The packet type that announces each packet.
pub open spec fn announced_by(p: Packet) -> int {
    match p {
        Packet::Main(_) => 0,
        Packet::ParticipantsLeaderboard(_) => 1,
        Packet::ParticipantsTiming(_) => 2,
        Packet::ParticipantsTimingSectors(_) => 3,
        Packet::ParticipantsMotion(_) => 4,
        Packet::ParticipantsInfo(_) => 5,
        Packet::ParticipantsDamage(_) => 6,
    }
}

/// Whether a datagram holds a packet as the game sends it: the signature "pkro",
/// the number of the packet type, and at least all bytes of the packet.
pub open spec fn arrives(sent: Packet, b: Seq<u8>) -> bool {
    &&& sent.spec_header().signature == 1869769584
    &&& sent.spec_header().packet_type == announced_by(sent)
    &&& packet_image(sent).len() <= b.len()
    &&& b.subrange(0, packet_image(sent).len() as int) == packet_image(sent)
}

/// A packet that arrives is what parsing gives, field by field.
pub proof fn lemma_packet_read_back(sent: Packet, received: Option<Packet>, b: Seq<u8>)
    requires
        arrives(sent, b),
        received matches Some(p) ==> wreckfest::holds(b, p.kind()) && p.decodes(b),
        received is None ==> forall|kind: PacketType| !#[trigger] wreckfest::holds(b, kind),
    ensures
        received == Some(sent),
{
    layout::lemma_stands(b, 0, packet_image(sent));
    match sent {
        Packet::Main(q) => {
            q.lemma_read_back(b, 0);
            assert(wreckfest::holds(b, PacketType::Main));
            if let Some(Packet::Main(p)) = received {
                q.lemma_one_reading(p, b, 0);
            }
        },
        Packet::ParticipantsLeaderboard(q) => {
            q.lemma_read_back(b, 0);
            assert(wreckfest::holds(b, PacketType::ParticipantsLeaderboard));
            if let Some(Packet::ParticipantsLeaderboard(p)) = received {
                q.lemma_one_reading(p, b, 0);
            }
        },
        Packet::ParticipantsTiming(q) => {
            q.lemma_read_back(b, 0);
            assert(wreckfest::holds(b, PacketType::ParticipantsTiming));
            if let Some(Packet::ParticipantsTiming(p)) = received {
                q.lemma_one_reading(p, b, 0);
            }
        },
        Packet::ParticipantsTimingSectors(q) => {
            q.lemma_read_back(b, 0);
            assert(wreckfest::holds(b, PacketType::ParticipantsTimingSectors));
            if let Some(Packet::ParticipantsTimingSectors(p)) = received {
                q.lemma_one_reading(p, b, 0);
            }
        },
        Packet::ParticipantsMotion(q) => {
            q.lemma_read_back(b, 0);
            assert(wreckfest::holds(b, PacketType::ParticipantsMotion));
            if let Some(Packet::ParticipantsMotion(p)) = received {
                q.lemma_one_reading(p, b, 0);
            }
        },
        Packet::ParticipantsInfo(q) => {
            q.lemma_read_back(b, 0);
            assert(wreckfest::holds(b, PacketType::ParticipantsInfo));
            if let Some(Packet::ParticipantsInfo(p)) = received {
                q.lemma_one_reading(p, b, 0);
            }
        },
        Packet::ParticipantsDamage(q) => {
            q.lemma_read_back(b, 0);
            assert(wreckfest::holds(b, PacketType::ParticipantsDamage));
            if let Some(Packet::ParticipantsDamage(p)) = received {
                q.lemma_one_reading(p, b, 0);
            }
        },
    }
}

/// The values of `PacketType` are numbered from zero in the order of the protocol.
pub proof fn lemma_packet_type_numbers(i: int)
    requires
        0 <= i < 7,
    ensures
        seq![
            PacketType::Main,
            PacketType::ParticipantsLeaderboard,
            PacketType::ParticipantsTiming,
            PacketType::ParticipantsTimingSectors,
            PacketType::ParticipantsMotion,
            PacketType::ParticipantsInfo,
            PacketType::ParticipantsDamage,
        ][i].code() == i,
{
}

/// The values of `GameMode` are numbered from zero in the order of the protocol, and
/// 255 stands for any other.
pub proof fn lemma_game_mode_numbers(i: int)
    requires
        0 <= i < 3,
    ensures
        seq![
            GameMode::Banger,
            GameMode::Deathmatch,
            GameMode::LastManStanding,
        ][i].code() == i,
        GameMode::Other.code() == 255,
{
}

/// The values of `DamageMode` are numbered from zero in the order of the protocol, and
/// 255 stands for any other.
pub proof fn lemma_damage_mode_numbers(i: int)
    requires
        0 <= i < 3,
    ensures
        seq![
            DamageMode::Wrecker,
            DamageMode::Normal,
            DamageMode::Realistic,
        ][i].code() == i,
        DamageMode::Other.code() == 255,
{
}

/// The values of `SessionStatus` are numbered from zero in the order of the protocol.
pub proof fn lemma_session_status_numbers(i: int)
    requires
        0 <= i < 6,
    ensures
        seq![
            SessionStatus::NoSession,
            SessionStatus::PreRace,
            SessionStatus::Countdown,
            SessionStatus::Racing,
            SessionStatus::Abandoned,
            SessionStatus::PostRace,
        ][i].code() == i,
{
}

/// The values of `SurfaceType` are numbered from zero in the order of the protocol.
pub proof fn lemma_surface_type_numbers(i: int)
    requires
        0 <= i < 17,
    ensures
        seq![
            SurfaceType::Default,
            SurfaceType::NoContact,
            SurfaceType::Tarmac,
            SurfaceType::Concrete,
            SurfaceType::Gravel,
            SurfaceType::Dirt,
            SurfaceType::Mud,
            SurfaceType::RumbleLowFreq,
            SurfaceType::RumbleHighFreq,
            SurfaceType::Water,
            SurfaceType::Metal,
            SurfaceType::Wood,
            SurfaceType::Sand,
            SurfaceType::Rocks,
            SurfaceType::Foliage,
            SurfaceType::Slowdown,
            SurfaceType::Snow,
        ][i].code() == i,
{
}

/// The values of `AssistGearbox` are numbered from zero in the order of the protocol.
pub proof fn lemma_assist_gearbox_numbers(i: int)
    requires
        0 <= i < 3,
    ensures
        seq![
            AssistGearbox::Auto,
            AssistGearbox::Manual,
            AssistGearbox::ManualWithClutch,
        ][i].code() == i,
{
}

/// The values of `AssistLevel` are numbered from zero in the order of the protocol.
pub proof fn lemma_assist_level_numbers(i: int)
    requires
        0 <= i < 3,
    ensures
        seq![
            AssistLevel::Off,
            AssistLevel::Half,
            AssistLevel::Full,
        ][i].code() == i,
{
}

/// The values of `DrivelineType` are numbered from zero in the order of the protocol.
pub proof fn lemma_driveline_type_numbers(i: int)
    requires
        0 <= i < 3,
    ensures
        seq![
            DrivelineType::Fwd,
            DrivelineType::Rwd,
            DrivelineType::Awd,
        ][i].code() == i,
{
}

/// The values of `Visibility` are numbered from zero in the order of the protocol.
pub proof fn lemma_visibility_numbers(i: int)
    requires
        0 <= i < 2,
    ensures
        seq![
            Visibility::Full,
            Visibility::Limited,
        ][i].code() == i,
{
}

/// The values of `ParticipantStatus` are numbered from zero in the order of the protocol.
pub proof fn lemma_participant_status_numbers(i: int)
    requires
        0 <= i < 10,
    ensures
        seq![
            ParticipantStatus::Invalid,
            ParticipantStatus::Unused,
            ParticipantStatus::Racing,
            ParticipantStatus::FinishSuccess,
            ParticipantStatus::FinishEliminated,
            ParticipantStatus::DnfDq,
            ParticipantStatus::DnfRetired,
            ParticipantStatus::DnfTimeout,
            ParticipantStatus::DnfWrecked,
            ParticipantStatus::Pose,
        ][i].code() == i,
{
}

/// The values of `TrackStatus` are numbered from zero in the order of the protocol.
pub proof fn lemma_track_status_numbers(i: int)
    requires
        0 <= i < 4,
    ensures
        seq![
            TrackStatus::Normal,
            TrackStatus::OutOfSectors,
            TrackStatus::InWrongSectors,
            TrackStatus::WrongDirection,
        ][i].code() == i,
{
}

/// The values of `DamageState` are numbered from zero in the order of the protocol.
pub proof fn lemma_damage_state_numbers(i: int)
    requires
        0 <= i < 5,
    ensures
        seq![
            DamageState::Intact,
            DamageState::Damaged1,
            DamageState::Damaged2,
            DamageState::Damaged3,
            DamageState::Terminal,
        ][i].code() == i,
{
}


/// The flags of `GameStatusFlags` take one bit each, from the lowest up in the order of the
/// protocol: each is twice the one before it.
pub proof fn lemma_bits_of_game_status_flags(i: int)
    requires
        0 <= i < 5,
    ensures
        ({
            let flags = seq![
                GameStatusFlags::PAUSED,
                GameStatusFlags::REPLAY,
                GameStatusFlags::SPECTATE,
                GameStatusFlags::MULTIPLAYER_CLIENT,
                GameStatusFlags::MULTIPLAYER_SERVER,
                GameStatusFlags::IN_RACE,
            ];
            flags[0] == 1 && flags[i + 1] == 2 * flags[i]
        }),
{
}

/// The flags of `MarshalFlags` take one bit each, from the lowest up in the order of the
/// protocol: each is twice the one before it. What stands above a gap is named.
pub proof fn lemma_bits_of_marshal_flags(i: int)
    requires
        0 <= i < 7,
    ensures
        ({
            let flags = seq![
                MarshalFlags::GREEN,
                MarshalFlags::LAST_LAP,
                MarshalFlags::FINISH,
                MarshalFlags::DQ,
                MarshalFlags::MEATBALL,
                MarshalFlags::WARNING,
                MarshalFlags::BLUE,
                MarshalFlags::WHITE,
            ];
            flags[0] == 1 && flags[i + 1] == 2 * flags[i]
        }),
        MarshalFlags::COUNTDOWN1 == 0x4000,
        MarshalFlags::COUNTDOWN2 == 0x8000,
{
}

/// The flags of `PlayerStatusFlags` take one bit each, from the lowest up in the order of the
/// protocol: each is twice the one before it.
pub proof fn lemma_bits_of_player_status_flags(i: int)
    requires
        0 <= i < 4,
    ensures
        ({
            let flags = seq![
                PlayerStatusFlags::IN_RACE,
                PlayerStatusFlags::CAR_DRIVABLE,
                PlayerStatusFlags::PHYSICS_RUNNING,
                PlayerStatusFlags::CONTROL_PLAYER,
                PlayerStatusFlags::CONTROL_AI,
            ];
            flags[0] == 1 && flags[i + 1] == 2 * flags[i]
        }),
{
}

/// The flags of `AssistFlags` take one bit each, from the lowest up in the order of the
/// protocol: each is twice the one before it.
pub proof fn lemma_bits_of_assist_flags(i: int)
    requires
        0 <= i < 2,
    ensures
        ({
            let flags = seq![
                AssistFlags::ABS_ACTIVE,
                AssistFlags::TCS_ACTIVE,
                AssistFlags::ESC_ACTIVE,
            ];
            flags[0] == 1 && flags[i + 1] == 2 * flags[i]
        }),
{
}

/// The flags of `EngineFlags` take one bit each, from the lowest up in the order of the
/// protocol: each is twice the one before it. What stands above a gap is named.
pub proof fn lemma_bits_of_engine_flags(i: int)
    requires
        0 <= i < 2,
    ensures
        ({
            let flags = seq![
                EngineFlags::RUNNING,
                EngineFlags::STARTING,
                EngineFlags::MISFIRING,
            ];
            flags[0] == 1 && flags[i + 1] == 2 * flags[i]
        }),
        EngineFlags::DANGER_TO_MANIFOLD == 0x80,
{
}

/// The parts of a car are numbered from zero in the order of the protocol.
pub proof fn lemma_damage_part_numbers(i: int)
    requires
        0 <= i < 37,
    ensures
        seq![
            damage_part::ENGINE,
            damage_part::GEARBOX,
            damage_part::BRAKE_FL,
            damage_part::BRAKE_FR,
            damage_part::BRAKE_RL,
            damage_part::BRAKE_RR,
            damage_part::SUSPENSION_FL,
            damage_part::SUSPENSION_FR,
            damage_part::SUSPENSION_RL,
            damage_part::SUSPENSION_RR,
            damage_part::TIRE_FL,
            damage_part::TIRE_FR,
            damage_part::TIRE_RL,
            damage_part::TIRE_RR,
            damage_part::HEAD_GASKET,
            damage_part::RADIATOR,
            damage_part::PISTONS,
            damage_part::TIRE_HUB_FL,
            damage_part::TIRE_HUB_FR,
            damage_part::TIRE_HUB_RL,
            damage_part::TIRE_HUB_RR,
            damage_part::OIL_PAN,
            damage_part::COOLANT,
            damage_part::OIL,
            damage_part::END_BEARINGS,
            damage_part::HALF_SHAFT_FL,
            damage_part::HALF_SHAFT_FR,
            damage_part::HALF_SHAFT_RL,
            damage_part::HALF_SHAFT_RR,
            damage_part::RADIATOR_LEAK,
            damage_part::ARMOR_FL,
            damage_part::ARMOR_FR,
            damage_part::ARMOR_RL,
            damage_part::ARMOR_RR,
            damage_part::ARMOR_SL,
            damage_part::ARMOR_SR,
            damage_part::MISFIRE,
        ][i] == i,
        damage_part::COUNT == 37,
{
}

} // verus!
