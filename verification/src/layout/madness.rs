//! Madness-engine packets.

use vstd::prelude::*;

use crate::madness::Header;
use crate::madness::TelemetryData;
use crate::madness::TelemetryPacket;
use crate::layout;
use crate::layout::Packed;
use crate::wire;

verus! {

impl Packed for Header {
    open spec fn image(self) -> Seq<u8> {
        wire::u32_image(self.packet_number)
            + wire::u32_image(self.category_packet_number)
            + seq![self.partial_packet_index]
            + seq![self.partial_packet_number]
            + seq![self.packet_type]
            + seq![self.packet_version]
    }

    proof fn lemma_read_back(self, b: Seq<u8>, at: int) {
        self.lemma_image_size();
        let p0 = wire::u32_image(self.packet_number);
        let p1 = p0 + wire::u32_image(self.category_packet_number);
        let p2 = p1 + seq![self.partial_packet_index];
        let p3 = p2 + seq![self.partial_packet_number];
        let p4 = p3 + seq![self.packet_type];
        let p5 = p4 + seq![self.packet_version];
        assert(p0.len() == 4);
        assert(p1.len() == 8);
        assert(p2.len() == 9);
        assert(p3.len() == 10);
        assert(p4.len() == 11);
        assert(p5.len() == 12);
        layout::lemma_split(b, at, p4, seq![self.packet_version]);
        layout::lemma_u8_stands(b, at + 11, self.packet_version);
        layout::lemma_split(b, at, p3, seq![self.packet_type]);
        layout::lemma_u8_stands(b, at + 10, self.packet_type);
        layout::lemma_split(b, at, p2, seq![self.partial_packet_number]);
        layout::lemma_u8_stands(b, at + 9, self.partial_packet_number);
        layout::lemma_split(b, at, p1, seq![self.partial_packet_index]);
        layout::lemma_u8_stands(b, at + 8, self.partial_packet_index);
        layout::lemma_split(b, at, p0, wire::u32_image(self.category_packet_number));
        layout::lemma_u32_stands(b, at + 4, self.category_packet_number);
        layout::lemma_u32_stands(b, at, self.packet_number);
    }

    proof fn lemma_image_size(self) {
        let p0 = wire::u32_image(self.packet_number);
        let p1 = p0 + wire::u32_image(self.category_packet_number);
        let p2 = p1 + seq![self.partial_packet_index];
        let p3 = p2 + seq![self.partial_packet_number];
        let p4 = p3 + seq![self.packet_type];
        let p5 = p4 + seq![self.packet_version];
        assert(p0.len() == 4);
        assert(p1.len() == 8);
        assert(p2.len() == 9);
        assert(p3.len() == 10);
        assert(p4.len() == 11);
        assert(p5.len() == 12);
    }

    proof fn lemma_one_reading(self, other: Self, b: Seq<u8>, at: int) {
    }
}

impl Packed for TelemetryData {
    open spec fn image(self) -> Seq<u8> {
        layout::i8_image(self.viewed_participant_index)
            + seq![self.unfiltered_throttle]
            + seq![self.unfiltered_brake]
            + layout::i8_image(self.unfiltered_steering)
            + seq![self.unfiltered_clutch]
            + seq![self.car_flags]
            + layout::i16_image(self.oil_temp_celsius)
            + wire::u16_image(self.oil_pressure_kpa)
            + layout::i16_image(self.water_temp_celsius)
            + layout::i16_image(self.water_pressure_kpa)
            + wire::u16_image(self.fuel_pressure_kpa)
            + seq![self.fuel_capacity]
            + seq![self.brake]
            + seq![self.throttle]
            + seq![self.clutch]
            + layout::f32_image(self.fuel_level)
            + layout::f32_image(self.speed)
            + wire::u16_image(self.rpm)
            + wire::u16_image(self.max_rpm)
            + layout::i8_image(self.steering)
            + seq![self.gear_num_gears]
            + seq![self.boost_amount]
            + seq![self.crash_state]
            + layout::f32_image(self.odometer_km)
            + layout::f32s_image(self.orientation@)
            + layout::f32s_image(self.local_velocity@)
            + layout::f32s_image(self.world_velocity@)
            + layout::f32s_image(self.angular_velocity@)
            + layout::f32s_image(self.local_acceleration@)
            + layout::f32s_image(self.world_acceleration@)
            + layout::f32s_image(self.extents_centre@)
            + self.tyre_flags@
            + self.terrains@
            + layout::f32s_image(self.tyre_y@)
            + layout::f32s_image(self.tyre_rps@)
            + self.tyre_temp@
            + layout::f32s_image(self.tyre_height_above_ground@)
            + self.tyre_wear@
            + self.brake_damage@
            + self.suspension_damage@
            + layout::i16s_image(self.brake_temp_celsius@)
            + layout::u16s_image(self.tyre_tread_temp@)
            + layout::u16s_image(self.tyre_layer_temp@)
            + layout::u16s_image(self.tyre_carcass_temp@)
            + layout::u16s_image(self.tyre_rim_temp@)
            + layout::u16s_image(self.tyre_internal_air_temp@)
            + layout::u16s_image(self.tyre_temp_left@)
            + layout::u16s_image(self.tyre_temp_center@)
            + layout::u16s_image(self.tyre_temp_right@)
            + layout::f32s_image(self.wheel_local_position_y@)
            + layout::f32s_image(self.ride_height@)
            + layout::f32s_image(self.suspension_travel@)
            + layout::f32s_image(self.suspension_velocity@)
            + layout::u16s_image(self.suspension_ride_height@)
            + layout::u16s_image(self.air_pressure@)
            + layout::f32_image(self.engine_speed)
            + layout::f32_image(self.engine_torque)
            + self.wings@
            + seq![self.hand_brake]
            + seq![self.aero_damage]
            + seq![self.engine_damage]
            + wire::u32_image(self.joy_pad)
            + seq![self.d_pad]
            + self.tyre_compound@[0]@
            + self.tyre_compound@[1]@
            + self.tyre_compound@[2]@
            + self.tyre_compound@[3]@
            + layout::f32_image(self.turbo_boost_pressure)
            + layout::f32s_image(self.full_position@)
            + seq![self.brake_bias]
            + wire::u32_image(self.tick_count)
    }

    proof fn lemma_read_back(self, b: Seq<u8>, at: int) {
        self.lemma_image_size();
        let p0 = layout::i8_image(self.viewed_participant_index);
        let p1 = p0 + seq![self.unfiltered_throttle];
        let p2 = p1 + seq![self.unfiltered_brake];
        let p3 = p2 + layout::i8_image(self.unfiltered_steering);
        let p4 = p3 + seq![self.unfiltered_clutch];
        let p5 = p4 + seq![self.car_flags];
        let p6 = p5 + layout::i16_image(self.oil_temp_celsius);
        let p7 = p6 + wire::u16_image(self.oil_pressure_kpa);
        let p8 = p7 + layout::i16_image(self.water_temp_celsius);
        let p9 = p8 + layout::i16_image(self.water_pressure_kpa);
        let p10 = p9 + wire::u16_image(self.fuel_pressure_kpa);
        let p11 = p10 + seq![self.fuel_capacity];
        let p12 = p11 + seq![self.brake];
        let p13 = p12 + seq![self.throttle];
        let p14 = p13 + seq![self.clutch];
        let p15 = p14 + layout::f32_image(self.fuel_level);
        let p16 = p15 + layout::f32_image(self.speed);
        let p17 = p16 + wire::u16_image(self.rpm);
        let p18 = p17 + wire::u16_image(self.max_rpm);
        let p19 = p18 + layout::i8_image(self.steering);
        let p20 = p19 + seq![self.gear_num_gears];
        let p21 = p20 + seq![self.boost_amount];
        let p22 = p21 + seq![self.crash_state];
        let p23 = p22 + layout::f32_image(self.odometer_km);
        let p24 = p23 + layout::f32s_image(self.orientation@);
        let p25 = p24 + layout::f32s_image(self.local_velocity@);
        let p26 = p25 + layout::f32s_image(self.world_velocity@);
        let p27 = p26 + layout::f32s_image(self.angular_velocity@);
        let p28 = p27 + layout::f32s_image(self.local_acceleration@);
        let p29 = p28 + layout::f32s_image(self.world_acceleration@);
        let p30 = p29 + layout::f32s_image(self.extents_centre@);
        let p31 = p30 + self.tyre_flags@;
        let p32 = p31 + self.terrains@;
        let p33 = p32 + layout::f32s_image(self.tyre_y@);
        let p34 = p33 + layout::f32s_image(self.tyre_rps@);
        let p35 = p34 + self.tyre_temp@;
        let p36 = p35 + layout::f32s_image(self.tyre_height_above_ground@);
        let p37 = p36 + self.tyre_wear@;
        let p38 = p37 + self.brake_damage@;
        let p39 = p38 + self.suspension_damage@;
        let p40 = p39 + layout::i16s_image(self.brake_temp_celsius@);
        let p41 = p40 + layout::u16s_image(self.tyre_tread_temp@);
        let p42 = p41 + layout::u16s_image(self.tyre_layer_temp@);
        let p43 = p42 + layout::u16s_image(self.tyre_carcass_temp@);
        let p44 = p43 + layout::u16s_image(self.tyre_rim_temp@);
        let p45 = p44 + layout::u16s_image(self.tyre_internal_air_temp@);
        let p46 = p45 + layout::u16s_image(self.tyre_temp_left@);
        let p47 = p46 + layout::u16s_image(self.tyre_temp_center@);
        let p48 = p47 + layout::u16s_image(self.tyre_temp_right@);
        let p49 = p48 + layout::f32s_image(self.wheel_local_position_y@);
        let p50 = p49 + layout::f32s_image(self.ride_height@);
        let p51 = p50 + layout::f32s_image(self.suspension_travel@);
        let p52 = p51 + layout::f32s_image(self.suspension_velocity@);
        let p53 = p52 + layout::u16s_image(self.suspension_ride_height@);
        let p54 = p53 + layout::u16s_image(self.air_pressure@);
        let p55 = p54 + layout::f32_image(self.engine_speed);
        let p56 = p55 + layout::f32_image(self.engine_torque);
        let p57 = p56 + self.wings@;
        let p58 = p57 + seq![self.hand_brake];
        let p59 = p58 + seq![self.aero_damage];
        let p60 = p59 + seq![self.engine_damage];
        let p61 = p60 + wire::u32_image(self.joy_pad);
        let p62 = p61 + seq![self.d_pad];
        let p63 = p62 + self.tyre_compound@[0]@;
        let p64 = p63 + self.tyre_compound@[1]@;
        let p65 = p64 + self.tyre_compound@[2]@;
        let p66 = p65 + self.tyre_compound@[3]@;
        let p67 = p66 + layout::f32_image(self.turbo_boost_pressure);
        let p68 = p67 + layout::f32s_image(self.full_position@);
        let p69 = p68 + seq![self.brake_bias];
        let p70 = p69 + wire::u32_image(self.tick_count);
        assert(p0.len() == 1);
        assert(p1.len() == 2);
        assert(p2.len() == 3);
        assert(p3.len() == 4);
        assert(p4.len() == 5);
        assert(p5.len() == 6);
        assert(p6.len() == 8);
        assert(p7.len() == 10);
        assert(p8.len() == 12);
        assert(p9.len() == 14);
        assert(p10.len() == 16);
        assert(p11.len() == 17);
        assert(p12.len() == 18);
        assert(p13.len() == 19);
        assert(p14.len() == 20);
        layout::lemma_f32_size(self.fuel_level);
        assert(p15.len() == 24);
        layout::lemma_f32_size(self.speed);
        assert(p16.len() == 28);
        assert(p17.len() == 30);
        assert(p18.len() == 32);
        assert(p19.len() == 33);
        assert(p20.len() == 34);
        assert(p21.len() == 35);
        assert(p22.len() == 36);
        layout::lemma_f32_size(self.odometer_km);
        assert(p23.len() == 40);
        layout::lemma_f32s_size(self.orientation@);
        assert(p24.len() == 52);
        layout::lemma_f32s_size(self.local_velocity@);
        assert(p25.len() == 64);
        layout::lemma_f32s_size(self.world_velocity@);
        assert(p26.len() == 76);
        layout::lemma_f32s_size(self.angular_velocity@);
        assert(p27.len() == 88);
        layout::lemma_f32s_size(self.local_acceleration@);
        assert(p28.len() == 100);
        layout::lemma_f32s_size(self.world_acceleration@);
        assert(p29.len() == 112);
        layout::lemma_f32s_size(self.extents_centre@);
        assert(p30.len() == 124);
        assert(p31.len() == 128);
        assert(p32.len() == 132);
        layout::lemma_f32s_size(self.tyre_y@);
        assert(p33.len() == 148);
        layout::lemma_f32s_size(self.tyre_rps@);
        assert(p34.len() == 164);
        assert(p35.len() == 168);
        layout::lemma_f32s_size(self.tyre_height_above_ground@);
        assert(p36.len() == 184);
        assert(p37.len() == 188);
        assert(p38.len() == 192);
        assert(p39.len() == 196);
        layout::lemma_i16s_size(self.brake_temp_celsius@);
        assert(p40.len() == 204);
        layout::lemma_u16s_size(self.tyre_tread_temp@);
        assert(p41.len() == 212);
        layout::lemma_u16s_size(self.tyre_layer_temp@);
        assert(p42.len() == 220);
        layout::lemma_u16s_size(self.tyre_carcass_temp@);
        assert(p43.len() == 228);
        layout::lemma_u16s_size(self.tyre_rim_temp@);
        assert(p44.len() == 236);
        layout::lemma_u16s_size(self.tyre_internal_air_temp@);
        assert(p45.len() == 244);
        layout::lemma_u16s_size(self.tyre_temp_left@);
        assert(p46.len() == 252);
        layout::lemma_u16s_size(self.tyre_temp_center@);
        assert(p47.len() == 260);
        layout::lemma_u16s_size(self.tyre_temp_right@);
        assert(p48.len() == 268);
        layout::lemma_f32s_size(self.wheel_local_position_y@);
        assert(p49.len() == 284);
        layout::lemma_f32s_size(self.ride_height@);
        assert(p50.len() == 300);
        layout::lemma_f32s_size(self.suspension_travel@);
        assert(p51.len() == 316);
        layout::lemma_f32s_size(self.suspension_velocity@);
        assert(p52.len() == 332);
        layout::lemma_u16s_size(self.suspension_ride_height@);
        assert(p53.len() == 340);
        layout::lemma_u16s_size(self.air_pressure@);
        assert(p54.len() == 348);
        layout::lemma_f32_size(self.engine_speed);
        assert(p55.len() == 352);
        layout::lemma_f32_size(self.engine_torque);
        assert(p56.len() == 356);
        assert(p57.len() == 358);
        assert(p58.len() == 359);
        assert(p59.len() == 360);
        assert(p60.len() == 361);
        assert(p61.len() == 365);
        assert(p62.len() == 366);
        assert(p63.len() == 406);
        assert(p64.len() == 446);
        assert(p65.len() == 486);
        assert(p66.len() == 526);
        layout::lemma_f32_size(self.turbo_boost_pressure);
        assert(p67.len() == 530);
        layout::lemma_f32s_size(self.full_position@);
        assert(p68.len() == 542);
        assert(p69.len() == 543);
        assert(p70.len() == 547);
        layout::lemma_split(b, at, p69, wire::u32_image(self.tick_count));
        layout::lemma_u32_stands(b, at + 543, self.tick_count);
        layout::lemma_split(b, at, p68, seq![self.brake_bias]);
        layout::lemma_u8_stands(b, at + 542, self.brake_bias);
        layout::lemma_split(b, at, p67, layout::f32s_image(self.full_position@));
        layout::lemma_f32s_stand(b, at + 530, self.full_position@);
        layout::lemma_split(b, at, p66, layout::f32_image(self.turbo_boost_pressure));
        layout::lemma_f32_stands(b, at + 526, self.turbo_boost_pressure);
        layout::lemma_split(b, at, p65, self.tyre_compound@[3]@);
        layout::lemma_bytes_stand(b, at + 486, self.tyre_compound@[3]@);
        layout::lemma_split(b, at, p64, self.tyre_compound@[2]@);
        layout::lemma_bytes_stand(b, at + 446, self.tyre_compound@[2]@);
        layout::lemma_split(b, at, p63, self.tyre_compound@[1]@);
        layout::lemma_bytes_stand(b, at + 406, self.tyre_compound@[1]@);
        layout::lemma_split(b, at, p62, self.tyre_compound@[0]@);
        layout::lemma_bytes_stand(b, at + 366, self.tyre_compound@[0]@);
        layout::lemma_split(b, at, p61, seq![self.d_pad]);
        layout::lemma_u8_stands(b, at + 365, self.d_pad);
        layout::lemma_split(b, at, p60, wire::u32_image(self.joy_pad));
        layout::lemma_u32_stands(b, at + 361, self.joy_pad);
        layout::lemma_split(b, at, p59, seq![self.engine_damage]);
        layout::lemma_u8_stands(b, at + 360, self.engine_damage);
        layout::lemma_split(b, at, p58, seq![self.aero_damage]);
        layout::lemma_u8_stands(b, at + 359, self.aero_damage);
        layout::lemma_split(b, at, p57, seq![self.hand_brake]);
        layout::lemma_u8_stands(b, at + 358, self.hand_brake);
        layout::lemma_split(b, at, p56, self.wings@);
        layout::lemma_bytes_stand(b, at + 356, self.wings@);
        layout::lemma_split(b, at, p55, layout::f32_image(self.engine_torque));
        layout::lemma_f32_stands(b, at + 352, self.engine_torque);
        layout::lemma_split(b, at, p54, layout::f32_image(self.engine_speed));
        layout::lemma_f32_stands(b, at + 348, self.engine_speed);
        layout::lemma_split(b, at, p53, layout::u16s_image(self.air_pressure@));
        layout::lemma_u16s_stand(b, at + 340, self.air_pressure@);
        layout::lemma_split(b, at, p52, layout::u16s_image(self.suspension_ride_height@));
        layout::lemma_u16s_stand(b, at + 332, self.suspension_ride_height@);
        layout::lemma_split(b, at, p51, layout::f32s_image(self.suspension_velocity@));
        layout::lemma_f32s_stand(b, at + 316, self.suspension_velocity@);
        layout::lemma_split(b, at, p50, layout::f32s_image(self.suspension_travel@));
        layout::lemma_f32s_stand(b, at + 300, self.suspension_travel@);
        layout::lemma_split(b, at, p49, layout::f32s_image(self.ride_height@));
        layout::lemma_f32s_stand(b, at + 284, self.ride_height@);
        layout::lemma_split(b, at, p48, layout::f32s_image(self.wheel_local_position_y@));
        layout::lemma_f32s_stand(b, at + 268, self.wheel_local_position_y@);
        layout::lemma_split(b, at, p47, layout::u16s_image(self.tyre_temp_right@));
        layout::lemma_u16s_stand(b, at + 260, self.tyre_temp_right@);
        layout::lemma_split(b, at, p46, layout::u16s_image(self.tyre_temp_center@));
        layout::lemma_u16s_stand(b, at + 252, self.tyre_temp_center@);
        layout::lemma_split(b, at, p45, layout::u16s_image(self.tyre_temp_left@));
        layout::lemma_u16s_stand(b, at + 244, self.tyre_temp_left@);
        layout::lemma_split(b, at, p44, layout::u16s_image(self.tyre_internal_air_temp@));
        layout::lemma_u16s_stand(b, at + 236, self.tyre_internal_air_temp@);
        layout::lemma_split(b, at, p43, layout::u16s_image(self.tyre_rim_temp@));
        layout::lemma_u16s_stand(b, at + 228, self.tyre_rim_temp@);
        layout::lemma_split(b, at, p42, layout::u16s_image(self.tyre_carcass_temp@));
        layout::lemma_u16s_stand(b, at + 220, self.tyre_carcass_temp@);
        layout::lemma_split(b, at, p41, layout::u16s_image(self.tyre_layer_temp@));
        layout::lemma_u16s_stand(b, at + 212, self.tyre_layer_temp@);
        layout::lemma_split(b, at, p40, layout::u16s_image(self.tyre_tread_temp@));
        layout::lemma_u16s_stand(b, at + 204, self.tyre_tread_temp@);
        layout::lemma_split(b, at, p39, layout::i16s_image(self.brake_temp_celsius@));
        layout::lemma_i16s_stand(b, at + 196, self.brake_temp_celsius@);
        layout::lemma_split(b, at, p38, self.suspension_damage@);
        layout::lemma_bytes_stand(b, at + 192, self.suspension_damage@);
        layout::lemma_split(b, at, p37, self.brake_damage@);
        layout::lemma_bytes_stand(b, at + 188, self.brake_damage@);
        layout::lemma_split(b, at, p36, self.tyre_wear@);
        layout::lemma_bytes_stand(b, at + 184, self.tyre_wear@);
        layout::lemma_split(b, at, p35, layout::f32s_image(self.tyre_height_above_ground@));
        layout::lemma_f32s_stand(b, at + 168, self.tyre_height_above_ground@);
        layout::lemma_split(b, at, p34, self.tyre_temp@);
        layout::lemma_bytes_stand(b, at + 164, self.tyre_temp@);
        layout::lemma_split(b, at, p33, layout::f32s_image(self.tyre_rps@));
        layout::lemma_f32s_stand(b, at + 148, self.tyre_rps@);
        layout::lemma_split(b, at, p32, layout::f32s_image(self.tyre_y@));
        layout::lemma_f32s_stand(b, at + 132, self.tyre_y@);
        layout::lemma_split(b, at, p31, self.terrains@);
        layout::lemma_bytes_stand(b, at + 128, self.terrains@);
        layout::lemma_split(b, at, p30, self.tyre_flags@);
        layout::lemma_bytes_stand(b, at + 124, self.tyre_flags@);
        layout::lemma_split(b, at, p29, layout::f32s_image(self.extents_centre@));
        layout::lemma_f32s_stand(b, at + 112, self.extents_centre@);
        layout::lemma_split(b, at, p28, layout::f32s_image(self.world_acceleration@));
        layout::lemma_f32s_stand(b, at + 100, self.world_acceleration@);
        layout::lemma_split(b, at, p27, layout::f32s_image(self.local_acceleration@));
        layout::lemma_f32s_stand(b, at + 88, self.local_acceleration@);
        layout::lemma_split(b, at, p26, layout::f32s_image(self.angular_velocity@));
        layout::lemma_f32s_stand(b, at + 76, self.angular_velocity@);
        layout::lemma_split(b, at, p25, layout::f32s_image(self.world_velocity@));
        layout::lemma_f32s_stand(b, at + 64, self.world_velocity@);
        layout::lemma_split(b, at, p24, layout::f32s_image(self.local_velocity@));
        layout::lemma_f32s_stand(b, at + 52, self.local_velocity@);
        layout::lemma_split(b, at, p23, layout::f32s_image(self.orientation@));
        layout::lemma_f32s_stand(b, at + 40, self.orientation@);
        layout::lemma_split(b, at, p22, layout::f32_image(self.odometer_km));
        layout::lemma_f32_stands(b, at + 36, self.odometer_km);
        layout::lemma_split(b, at, p21, seq![self.crash_state]);
        layout::lemma_u8_stands(b, at + 35, self.crash_state);
        layout::lemma_split(b, at, p20, seq![self.boost_amount]);
        layout::lemma_u8_stands(b, at + 34, self.boost_amount);
        layout::lemma_split(b, at, p19, seq![self.gear_num_gears]);
        layout::lemma_u8_stands(b, at + 33, self.gear_num_gears);
        layout::lemma_split(b, at, p18, layout::i8_image(self.steering));
        layout::lemma_i8_stands(b, at + 32, self.steering);
        layout::lemma_split(b, at, p17, wire::u16_image(self.max_rpm));
        layout::lemma_u16_stands(b, at + 30, self.max_rpm);
        layout::lemma_split(b, at, p16, wire::u16_image(self.rpm));
        layout::lemma_u16_stands(b, at + 28, self.rpm);
        layout::lemma_split(b, at, p15, layout::f32_image(self.speed));
        layout::lemma_f32_stands(b, at + 24, self.speed);
        layout::lemma_split(b, at, p14, layout::f32_image(self.fuel_level));
        layout::lemma_f32_stands(b, at + 20, self.fuel_level);
        layout::lemma_split(b, at, p13, seq![self.clutch]);
        layout::lemma_u8_stands(b, at + 19, self.clutch);
        layout::lemma_split(b, at, p12, seq![self.throttle]);
        layout::lemma_u8_stands(b, at + 18, self.throttle);
        layout::lemma_split(b, at, p11, seq![self.brake]);
        layout::lemma_u8_stands(b, at + 17, self.brake);
        layout::lemma_split(b, at, p10, seq![self.fuel_capacity]);
        layout::lemma_u8_stands(b, at + 16, self.fuel_capacity);
        layout::lemma_split(b, at, p9, wire::u16_image(self.fuel_pressure_kpa));
        layout::lemma_u16_stands(b, at + 14, self.fuel_pressure_kpa);
        layout::lemma_split(b, at, p8, layout::i16_image(self.water_pressure_kpa));
        layout::lemma_i16_stands(b, at + 12, self.water_pressure_kpa);
        layout::lemma_split(b, at, p7, layout::i16_image(self.water_temp_celsius));
        layout::lemma_i16_stands(b, at + 10, self.water_temp_celsius);
        layout::lemma_split(b, at, p6, wire::u16_image(self.oil_pressure_kpa));
        layout::lemma_u16_stands(b, at + 8, self.oil_pressure_kpa);
        layout::lemma_split(b, at, p5, layout::i16_image(self.oil_temp_celsius));
        layout::lemma_i16_stands(b, at + 6, self.oil_temp_celsius);
        layout::lemma_split(b, at, p4, seq![self.car_flags]);
        layout::lemma_u8_stands(b, at + 5, self.car_flags);
        layout::lemma_split(b, at, p3, seq![self.unfiltered_clutch]);
        layout::lemma_u8_stands(b, at + 4, self.unfiltered_clutch);
        layout::lemma_split(b, at, p2, layout::i8_image(self.unfiltered_steering));
        layout::lemma_i8_stands(b, at + 3, self.unfiltered_steering);
        layout::lemma_split(b, at, p1, seq![self.unfiltered_brake]);
        layout::lemma_u8_stands(b, at + 2, self.unfiltered_brake);
        layout::lemma_split(b, at, p0, seq![self.unfiltered_throttle]);
        layout::lemma_u8_stands(b, at + 1, self.unfiltered_throttle);
        layout::lemma_i8_stands(b, at, self.viewed_participant_index);
    }

    proof fn lemma_image_size(self) {
        let p0 = layout::i8_image(self.viewed_participant_index);
        let p1 = p0 + seq![self.unfiltered_throttle];
        let p2 = p1 + seq![self.unfiltered_brake];
        let p3 = p2 + layout::i8_image(self.unfiltered_steering);
        let p4 = p3 + seq![self.unfiltered_clutch];
        let p5 = p4 + seq![self.car_flags];
        let p6 = p5 + layout::i16_image(self.oil_temp_celsius);
        let p7 = p6 + wire::u16_image(self.oil_pressure_kpa);
        let p8 = p7 + layout::i16_image(self.water_temp_celsius);
        let p9 = p8 + layout::i16_image(self.water_pressure_kpa);
        let p10 = p9 + wire::u16_image(self.fuel_pressure_kpa);
        let p11 = p10 + seq![self.fuel_capacity];
        let p12 = p11 + seq![self.brake];
        let p13 = p12 + seq![self.throttle];
        let p14 = p13 + seq![self.clutch];
        let p15 = p14 + layout::f32_image(self.fuel_level);
        let p16 = p15 + layout::f32_image(self.speed);
        let p17 = p16 + wire::u16_image(self.rpm);
        let p18 = p17 + wire::u16_image(self.max_rpm);
        let p19 = p18 + layout::i8_image(self.steering);
        let p20 = p19 + seq![self.gear_num_gears];
        let p21 = p20 + seq![self.boost_amount];
        let p22 = p21 + seq![self.crash_state];
        let p23 = p22 + layout::f32_image(self.odometer_km);
        let p24 = p23 + layout::f32s_image(self.orientation@);
        let p25 = p24 + layout::f32s_image(self.local_velocity@);
        let p26 = p25 + layout::f32s_image(self.world_velocity@);
        let p27 = p26 + layout::f32s_image(self.angular_velocity@);
        let p28 = p27 + layout::f32s_image(self.local_acceleration@);
        let p29 = p28 + layout::f32s_image(self.world_acceleration@);
        let p30 = p29 + layout::f32s_image(self.extents_centre@);
        let p31 = p30 + self.tyre_flags@;
        let p32 = p31 + self.terrains@;
        let p33 = p32 + layout::f32s_image(self.tyre_y@);
        let p34 = p33 + layout::f32s_image(self.tyre_rps@);
        let p35 = p34 + self.tyre_temp@;
        let p36 = p35 + layout::f32s_image(self.tyre_height_above_ground@);
        let p37 = p36 + self.tyre_wear@;
        let p38 = p37 + self.brake_damage@;
        let p39 = p38 + self.suspension_damage@;
        let p40 = p39 + layout::i16s_image(self.brake_temp_celsius@);
        let p41 = p40 + layout::u16s_image(self.tyre_tread_temp@);
        let p42 = p41 + layout::u16s_image(self.tyre_layer_temp@);
        let p43 = p42 + layout::u16s_image(self.tyre_carcass_temp@);
        let p44 = p43 + layout::u16s_image(self.tyre_rim_temp@);
        let p45 = p44 + layout::u16s_image(self.tyre_internal_air_temp@);
        let p46 = p45 + layout::u16s_image(self.tyre_temp_left@);
        let p47 = p46 + layout::u16s_image(self.tyre_temp_center@);
        let p48 = p47 + layout::u16s_image(self.tyre_temp_right@);
        let p49 = p48 + layout::f32s_image(self.wheel_local_position_y@);
        let p50 = p49 + layout::f32s_image(self.ride_height@);
        let p51 = p50 + layout::f32s_image(self.suspension_travel@);
        let p52 = p51 + layout::f32s_image(self.suspension_velocity@);
        let p53 = p52 + layout::u16s_image(self.suspension_ride_height@);
        let p54 = p53 + layout::u16s_image(self.air_pressure@);
        let p55 = p54 + layout::f32_image(self.engine_speed);
        let p56 = p55 + layout::f32_image(self.engine_torque);
        let p57 = p56 + self.wings@;
        let p58 = p57 + seq![self.hand_brake];
        let p59 = p58 + seq![self.aero_damage];
        let p60 = p59 + seq![self.engine_damage];
        let p61 = p60 + wire::u32_image(self.joy_pad);
        let p62 = p61 + seq![self.d_pad];
        let p63 = p62 + self.tyre_compound@[0]@;
        let p64 = p63 + self.tyre_compound@[1]@;
        let p65 = p64 + self.tyre_compound@[2]@;
        let p66 = p65 + self.tyre_compound@[3]@;
        let p67 = p66 + layout::f32_image(self.turbo_boost_pressure);
        let p68 = p67 + layout::f32s_image(self.full_position@);
        let p69 = p68 + seq![self.brake_bias];
        let p70 = p69 + wire::u32_image(self.tick_count);
        assert(p0.len() == 1);
        assert(p1.len() == 2);
        assert(p2.len() == 3);
        assert(p3.len() == 4);
        assert(p4.len() == 5);
        assert(p5.len() == 6);
        assert(p6.len() == 8);
        assert(p7.len() == 10);
        assert(p8.len() == 12);
        assert(p9.len() == 14);
        assert(p10.len() == 16);
        assert(p11.len() == 17);
        assert(p12.len() == 18);
        assert(p13.len() == 19);
        assert(p14.len() == 20);
        layout::lemma_f32_size(self.fuel_level);
        assert(p15.len() == 24);
        layout::lemma_f32_size(self.speed);
        assert(p16.len() == 28);
        assert(p17.len() == 30);
        assert(p18.len() == 32);
        assert(p19.len() == 33);
        assert(p20.len() == 34);
        assert(p21.len() == 35);
        assert(p22.len() == 36);
        layout::lemma_f32_size(self.odometer_km);
        assert(p23.len() == 40);
        layout::lemma_f32s_size(self.orientation@);
        assert(p24.len() == 52);
        layout::lemma_f32s_size(self.local_velocity@);
        assert(p25.len() == 64);
        layout::lemma_f32s_size(self.world_velocity@);
        assert(p26.len() == 76);
        layout::lemma_f32s_size(self.angular_velocity@);
        assert(p27.len() == 88);
        layout::lemma_f32s_size(self.local_acceleration@);
        assert(p28.len() == 100);
        layout::lemma_f32s_size(self.world_acceleration@);
        assert(p29.len() == 112);
        layout::lemma_f32s_size(self.extents_centre@);
        assert(p30.len() == 124);
        assert(p31.len() == 128);
        assert(p32.len() == 132);
        layout::lemma_f32s_size(self.tyre_y@);
        assert(p33.len() == 148);
        layout::lemma_f32s_size(self.tyre_rps@);
        assert(p34.len() == 164);
        assert(p35.len() == 168);
        layout::lemma_f32s_size(self.tyre_height_above_ground@);
        assert(p36.len() == 184);
        assert(p37.len() == 188);
        assert(p38.len() == 192);
        assert(p39.len() == 196);
        layout::lemma_i16s_size(self.brake_temp_celsius@);
        assert(p40.len() == 204);
        layout::lemma_u16s_size(self.tyre_tread_temp@);
        assert(p41.len() == 212);
        layout::lemma_u16s_size(self.tyre_layer_temp@);
        assert(p42.len() == 220);
        layout::lemma_u16s_size(self.tyre_carcass_temp@);
        assert(p43.len() == 228);
        layout::lemma_u16s_size(self.tyre_rim_temp@);
        assert(p44.len() == 236);
        layout::lemma_u16s_size(self.tyre_internal_air_temp@);
        assert(p45.len() == 244);
        layout::lemma_u16s_size(self.tyre_temp_left@);
        assert(p46.len() == 252);
        layout::lemma_u16s_size(self.tyre_temp_center@);
        assert(p47.len() == 260);
        layout::lemma_u16s_size(self.tyre_temp_right@);
        assert(p48.len() == 268);
        layout::lemma_f32s_size(self.wheel_local_position_y@);
        assert(p49.len() == 284);
        layout::lemma_f32s_size(self.ride_height@);
        assert(p50.len() == 300);
        layout::lemma_f32s_size(self.suspension_travel@);
        assert(p51.len() == 316);
        layout::lemma_f32s_size(self.suspension_velocity@);
        assert(p52.len() == 332);
        layout::lemma_u16s_size(self.suspension_ride_height@);
        assert(p53.len() == 340);
        layout::lemma_u16s_size(self.air_pressure@);
        assert(p54.len() == 348);
        layout::lemma_f32_size(self.engine_speed);
        assert(p55.len() == 352);
        layout::lemma_f32_size(self.engine_torque);
        assert(p56.len() == 356);
        assert(p57.len() == 358);
        assert(p58.len() == 359);
        assert(p59.len() == 360);
        assert(p60.len() == 361);
        assert(p61.len() == 365);
        assert(p62.len() == 366);
        assert(p63.len() == 406);
        assert(p64.len() == 446);
        assert(p65.len() == 486);
        assert(p66.len() == 526);
        layout::lemma_f32_size(self.turbo_boost_pressure);
        assert(p67.len() == 530);
        layout::lemma_f32s_size(self.full_position@);
        assert(p68.len() == 542);
        assert(p69.len() == 543);
        assert(p70.len() == 547);
    }

    proof fn lemma_one_reading(self, other: Self, b: Seq<u8>, at: int) {
        assert(self.orientation@ == other.orientation@);
        assert(self.orientation =~= other.orientation);
        assert(self.local_velocity@ == other.local_velocity@);
        assert(self.local_velocity =~= other.local_velocity);
        assert(self.world_velocity@ == other.world_velocity@);
        assert(self.world_velocity =~= other.world_velocity);
        assert(self.angular_velocity@ == other.angular_velocity@);
        assert(self.angular_velocity =~= other.angular_velocity);
        assert(self.local_acceleration@ == other.local_acceleration@);
        assert(self.local_acceleration =~= other.local_acceleration);
        assert(self.world_acceleration@ == other.world_acceleration@);
        assert(self.world_acceleration =~= other.world_acceleration);
        assert(self.extents_centre@ == other.extents_centre@);
        assert(self.extents_centre =~= other.extents_centre);
        assert(self.tyre_flags@ == other.tyre_flags@);
        assert(self.tyre_flags =~= other.tyre_flags);
        assert(self.terrains@ == other.terrains@);
        assert(self.terrains =~= other.terrains);
        assert(self.tyre_y@ == other.tyre_y@);
        assert(self.tyre_y =~= other.tyre_y);
        assert(self.tyre_rps@ == other.tyre_rps@);
        assert(self.tyre_rps =~= other.tyre_rps);
        assert(self.tyre_temp@ == other.tyre_temp@);
        assert(self.tyre_temp =~= other.tyre_temp);
        assert(self.tyre_height_above_ground@ == other.tyre_height_above_ground@);
        assert(self.tyre_height_above_ground =~= other.tyre_height_above_ground);
        assert(self.tyre_wear@ == other.tyre_wear@);
        assert(self.tyre_wear =~= other.tyre_wear);
        assert(self.brake_damage@ == other.brake_damage@);
        assert(self.brake_damage =~= other.brake_damage);
        assert(self.suspension_damage@ == other.suspension_damage@);
        assert(self.suspension_damage =~= other.suspension_damage);
        assert(self.brake_temp_celsius@ == other.brake_temp_celsius@);
        assert(self.brake_temp_celsius =~= other.brake_temp_celsius);
        assert(self.tyre_tread_temp@ == other.tyre_tread_temp@);
        assert(self.tyre_tread_temp =~= other.tyre_tread_temp);
        assert(self.tyre_layer_temp@ == other.tyre_layer_temp@);
        assert(self.tyre_layer_temp =~= other.tyre_layer_temp);
        assert(self.tyre_carcass_temp@ == other.tyre_carcass_temp@);
        assert(self.tyre_carcass_temp =~= other.tyre_carcass_temp);
        assert(self.tyre_rim_temp@ == other.tyre_rim_temp@);
        assert(self.tyre_rim_temp =~= other.tyre_rim_temp);
        assert(self.tyre_internal_air_temp@ == other.tyre_internal_air_temp@);
        assert(self.tyre_internal_air_temp =~= other.tyre_internal_air_temp);
        assert(self.tyre_temp_left@ == other.tyre_temp_left@);
        assert(self.tyre_temp_left =~= other.tyre_temp_left);
        assert(self.tyre_temp_center@ == other.tyre_temp_center@);
        assert(self.tyre_temp_center =~= other.tyre_temp_center);
        assert(self.tyre_temp_right@ == other.tyre_temp_right@);
        assert(self.tyre_temp_right =~= other.tyre_temp_right);
        assert(self.wheel_local_position_y@ == other.wheel_local_position_y@);
        assert(self.wheel_local_position_y =~= other.wheel_local_position_y);
        assert(self.ride_height@ == other.ride_height@);
        assert(self.ride_height =~= other.ride_height);
        assert(self.suspension_travel@ == other.suspension_travel@);
        assert(self.suspension_travel =~= other.suspension_travel);
        assert(self.suspension_velocity@ == other.suspension_velocity@);
        assert(self.suspension_velocity =~= other.suspension_velocity);
        assert(self.suspension_ride_height@ == other.suspension_ride_height@);
        assert(self.suspension_ride_height =~= other.suspension_ride_height);
        assert(self.air_pressure@ == other.air_pressure@);
        assert(self.air_pressure =~= other.air_pressure);
        assert(self.wings@ == other.wings@);
        assert(self.wings =~= other.wings);
        assert forall|k: int| 0 <= k < 4 implies self.tyre_compound@[k] == other.tyre_compound@[k] by {
            assert(self.tyre_compound@[k]@ == other.tyre_compound@[k]@);
            assert(self.tyre_compound@[k] =~= other.tyre_compound@[k]);
        }
        assert(self.tyre_compound@ == other.tyre_compound@);
        assert(self.tyre_compound =~= other.tyre_compound);
        assert(self.full_position@ == other.full_position@);
        assert(self.full_position =~= other.full_position);
    }
}

impl Packed for TelemetryPacket {
    open spec fn image(self) -> Seq<u8> {
        self.header.image()
            + self.data.image()
    }

    proof fn lemma_read_back(self, b: Seq<u8>, at: int) {
        self.lemma_image_size();
        let p0 = self.header.image();
        let p1 = p0 + self.data.image();
        self.header.lemma_image_size();
        assert(p0.len() == 12);
        self.data.lemma_image_size();
        assert(p1.len() == 559);
        layout::lemma_split(b, at, p0, self.data.image());
        self.data.lemma_read_back(b, at + 12);
        self.header.lemma_read_back(b, at);
    }

    proof fn lemma_image_size(self) {
        let p0 = self.header.image();
        let p1 = p0 + self.data.image();
        self.header.lemma_image_size();
        assert(p0.len() == 12);
        self.data.lemma_image_size();
        assert(p1.len() == 559);
    }

    proof fn lemma_one_reading(self, other: Self, b: Seq<u8>, at: int) {
        self.header.lemma_one_reading(other.header, b, at);
        self.data.lemma_one_reading(other.data, b, at + 12);
    }
}

} // verus!
