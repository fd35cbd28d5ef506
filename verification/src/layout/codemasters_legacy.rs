//! Codemasters packets.

use vstd::prelude::*;

use crate::codemasters_legacy::Telemetry;
use crate::layout;
use crate::layout::Packed;
use crate::wire;

verus! {

impl Packed for Telemetry {
    open spec fn image(self) -> Seq<u8> {
        layout::f32_image(self.run_time)
            + layout::f32_image(self.lap_time)
            + layout::f32_image(self.distance)
            + layout::f32_image(self.progress)
            + layout::f32_image(self.pos_x)
            + layout::f32_image(self.pos_y)
            + layout::f32_image(self.pos_z)
            + layout::f32_image(self.speed_ms)
            + layout::f32_image(self.vel_x)
            + layout::f32_image(self.vel_y)
            + layout::f32_image(self.vel_z)
            + layout::f32_image(self.roll_x)
            + layout::f32_image(self.roll_y)
            + layout::f32_image(self.roll_z)
            + layout::f32_image(self.pitch_x)
            + layout::f32_image(self.pitch_y)
            + layout::f32_image(self.pitch_z)
            + layout::f32_image(self.susp_rl)
            + layout::f32_image(self.susp_rr)
            + layout::f32_image(self.susp_fl)
            + layout::f32_image(self.susp_fr)
            + layout::f32_image(self.susp_vel_rl)
            + layout::f32_image(self.susp_vel_rr)
            + layout::f32_image(self.susp_vel_fl)
            + layout::f32_image(self.susp_vel_fr)
            + layout::f32_image(self.wsp_rl)
            + layout::f32_image(self.wsp_rr)
            + layout::f32_image(self.wsp_fl)
            + layout::f32_image(self.wsp_fr)
            + layout::f32_image(self.throttle)
            + layout::f32_image(self.steering)
            + layout::f32_image(self.brake)
            + layout::f32_image(self.clutch)
            + layout::f32_image(self.gear)
            + layout::f32_image(self.g_force_lat)
            + layout::f32_image(self.g_force_lon)
            + layout::f32_image(self.current_lap)
            + layout::f32_image(self.rpm_div_10)
            + layout::f32_image(self.sli_pro_support)
            + layout::f32_image(self.car_pos)
            + layout::f32_image(self.kers_level)
            + layout::f32_image(self.kers_max_level)
            + layout::f32_image(self.drs)
            + layout::f32_image(self.traction_control)
            + layout::f32_image(self.anti_lock_brakes)
            + layout::f32_image(self.fuel_in_tank)
            + layout::f32_image(self.fuel_capacity)
            + layout::f32_image(self.in_pit)
            + layout::f32_image(self.sector)
            + layout::f32_image(self.sector_1_time)
            + layout::f32_image(self.sector_2_time)
            + layout::f32_image(self.brakes_temp_rl)
            + layout::f32_image(self.brakes_temp_rr)
            + layout::f32_image(self.brakes_temp_fl)
            + layout::f32_image(self.brakes_temp_fr)
            + layout::f32_image(self.tyre_pressure_rl)
            + layout::f32_image(self.tyre_pressure_rr)
            + layout::f32_image(self.tyre_pressure_fl)
            + layout::f32_image(self.tyre_pressure_fr)
            + layout::f32_image(self.laps_completed)
            + layout::f32_image(self.total_laps)
            + layout::f32_image(self.track_length)
            + layout::f32_image(self.last_lap_time)
            + layout::f32_image(self.max_rpm_div_10)
            + layout::f32_image(self.idle_rpm_div_10)
            + layout::f32_image(self.max_gears)
    }

    proof fn lemma_read_back(self, b: Seq<u8>, at: int) {
        self.lemma_image_size();
        let p0 = layout::f32_image(self.run_time);
        let p1 = p0 + layout::f32_image(self.lap_time);
        let p2 = p1 + layout::f32_image(self.distance);
        let p3 = p2 + layout::f32_image(self.progress);
        let p4 = p3 + layout::f32_image(self.pos_x);
        let p5 = p4 + layout::f32_image(self.pos_y);
        let p6 = p5 + layout::f32_image(self.pos_z);
        let p7 = p6 + layout::f32_image(self.speed_ms);
        let p8 = p7 + layout::f32_image(self.vel_x);
        let p9 = p8 + layout::f32_image(self.vel_y);
        let p10 = p9 + layout::f32_image(self.vel_z);
        let p11 = p10 + layout::f32_image(self.roll_x);
        let p12 = p11 + layout::f32_image(self.roll_y);
        let p13 = p12 + layout::f32_image(self.roll_z);
        let p14 = p13 + layout::f32_image(self.pitch_x);
        let p15 = p14 + layout::f32_image(self.pitch_y);
        let p16 = p15 + layout::f32_image(self.pitch_z);
        let p17 = p16 + layout::f32_image(self.susp_rl);
        let p18 = p17 + layout::f32_image(self.susp_rr);
        let p19 = p18 + layout::f32_image(self.susp_fl);
        let p20 = p19 + layout::f32_image(self.susp_fr);
        let p21 = p20 + layout::f32_image(self.susp_vel_rl);
        let p22 = p21 + layout::f32_image(self.susp_vel_rr);
        let p23 = p22 + layout::f32_image(self.susp_vel_fl);
        let p24 = p23 + layout::f32_image(self.susp_vel_fr);
        let p25 = p24 + layout::f32_image(self.wsp_rl);
        let p26 = p25 + layout::f32_image(self.wsp_rr);
        let p27 = p26 + layout::f32_image(self.wsp_fl);
        let p28 = p27 + layout::f32_image(self.wsp_fr);
        let p29 = p28 + layout::f32_image(self.throttle);
        let p30 = p29 + layout::f32_image(self.steering);
        let p31 = p30 + layout::f32_image(self.brake);
        let p32 = p31 + layout::f32_image(self.clutch);
        let p33 = p32 + layout::f32_image(self.gear);
        let p34 = p33 + layout::f32_image(self.g_force_lat);
        let p35 = p34 + layout::f32_image(self.g_force_lon);
        let p36 = p35 + layout::f32_image(self.current_lap);
        let p37 = p36 + layout::f32_image(self.rpm_div_10);
        let p38 = p37 + layout::f32_image(self.sli_pro_support);
        let p39 = p38 + layout::f32_image(self.car_pos);
        let p40 = p39 + layout::f32_image(self.kers_level);
        let p41 = p40 + layout::f32_image(self.kers_max_level);
        let p42 = p41 + layout::f32_image(self.drs);
        let p43 = p42 + layout::f32_image(self.traction_control);
        let p44 = p43 + layout::f32_image(self.anti_lock_brakes);
        let p45 = p44 + layout::f32_image(self.fuel_in_tank);
        let p46 = p45 + layout::f32_image(self.fuel_capacity);
        let p47 = p46 + layout::f32_image(self.in_pit);
        let p48 = p47 + layout::f32_image(self.sector);
        let p49 = p48 + layout::f32_image(self.sector_1_time);
        let p50 = p49 + layout::f32_image(self.sector_2_time);
        let p51 = p50 + layout::f32_image(self.brakes_temp_rl);
        let p52 = p51 + layout::f32_image(self.brakes_temp_rr);
        let p53 = p52 + layout::f32_image(self.brakes_temp_fl);
        let p54 = p53 + layout::f32_image(self.brakes_temp_fr);
        let p55 = p54 + layout::f32_image(self.tyre_pressure_rl);
        let p56 = p55 + layout::f32_image(self.tyre_pressure_rr);
        let p57 = p56 + layout::f32_image(self.tyre_pressure_fl);
        let p58 = p57 + layout::f32_image(self.tyre_pressure_fr);
        let p59 = p58 + layout::f32_image(self.laps_completed);
        let p60 = p59 + layout::f32_image(self.total_laps);
        let p61 = p60 + layout::f32_image(self.track_length);
        let p62 = p61 + layout::f32_image(self.last_lap_time);
        let p63 = p62 + layout::f32_image(self.max_rpm_div_10);
        let p64 = p63 + layout::f32_image(self.idle_rpm_div_10);
        let p65 = p64 + layout::f32_image(self.max_gears);
        layout::lemma_f32_size(self.run_time);
        assert(p0.len() == 4);
        layout::lemma_f32_size(self.lap_time);
        assert(p1.len() == 8);
        layout::lemma_f32_size(self.distance);
        assert(p2.len() == 12);
        layout::lemma_f32_size(self.progress);
        assert(p3.len() == 16);
        layout::lemma_f32_size(self.pos_x);
        assert(p4.len() == 20);
        layout::lemma_f32_size(self.pos_y);
        assert(p5.len() == 24);
        layout::lemma_f32_size(self.pos_z);
        assert(p6.len() == 28);
        layout::lemma_f32_size(self.speed_ms);
        assert(p7.len() == 32);
        layout::lemma_f32_size(self.vel_x);
        assert(p8.len() == 36);
        layout::lemma_f32_size(self.vel_y);
        assert(p9.len() == 40);
        layout::lemma_f32_size(self.vel_z);
        assert(p10.len() == 44);
        layout::lemma_f32_size(self.roll_x);
        assert(p11.len() == 48);
        layout::lemma_f32_size(self.roll_y);
        assert(p12.len() == 52);
        layout::lemma_f32_size(self.roll_z);
        assert(p13.len() == 56);
        layout::lemma_f32_size(self.pitch_x);
        assert(p14.len() == 60);
        layout::lemma_f32_size(self.pitch_y);
        assert(p15.len() == 64);
        layout::lemma_f32_size(self.pitch_z);
        assert(p16.len() == 68);
        layout::lemma_f32_size(self.susp_rl);
        assert(p17.len() == 72);
        layout::lemma_f32_size(self.susp_rr);
        assert(p18.len() == 76);
        layout::lemma_f32_size(self.susp_fl);
        assert(p19.len() == 80);
        layout::lemma_f32_size(self.susp_fr);
        assert(p20.len() == 84);
        layout::lemma_f32_size(self.susp_vel_rl);
        assert(p21.len() == 88);
        layout::lemma_f32_size(self.susp_vel_rr);
        assert(p22.len() == 92);
        layout::lemma_f32_size(self.susp_vel_fl);
        assert(p23.len() == 96);
        layout::lemma_f32_size(self.susp_vel_fr);
        assert(p24.len() == 100);
        layout::lemma_f32_size(self.wsp_rl);
        assert(p25.len() == 104);
        layout::lemma_f32_size(self.wsp_rr);
        assert(p26.len() == 108);
        layout::lemma_f32_size(self.wsp_fl);
        assert(p27.len() == 112);
        layout::lemma_f32_size(self.wsp_fr);
        assert(p28.len() == 116);
        layout::lemma_f32_size(self.throttle);
        assert(p29.len() == 120);
        layout::lemma_f32_size(self.steering);
        assert(p30.len() == 124);
        layout::lemma_f32_size(self.brake);
        assert(p31.len() == 128);
        layout::lemma_f32_size(self.clutch);
        assert(p32.len() == 132);
        layout::lemma_f32_size(self.gear);
        assert(p33.len() == 136);
        layout::lemma_f32_size(self.g_force_lat);
        assert(p34.len() == 140);
        layout::lemma_f32_size(self.g_force_lon);
        assert(p35.len() == 144);
        layout::lemma_f32_size(self.current_lap);
        assert(p36.len() == 148);
        layout::lemma_f32_size(self.rpm_div_10);
        assert(p37.len() == 152);
        layout::lemma_f32_size(self.sli_pro_support);
        assert(p38.len() == 156);
        layout::lemma_f32_size(self.car_pos);
        assert(p39.len() == 160);
        layout::lemma_f32_size(self.kers_level);
        assert(p40.len() == 164);
        layout::lemma_f32_size(self.kers_max_level);
        assert(p41.len() == 168);
        layout::lemma_f32_size(self.drs);
        assert(p42.len() == 172);
        layout::lemma_f32_size(self.traction_control);
        assert(p43.len() == 176);
        layout::lemma_f32_size(self.anti_lock_brakes);
        assert(p44.len() == 180);
        layout::lemma_f32_size(self.fuel_in_tank);
        assert(p45.len() == 184);
        layout::lemma_f32_size(self.fuel_capacity);
        assert(p46.len() == 188);
        layout::lemma_f32_size(self.in_pit);
        assert(p47.len() == 192);
        layout::lemma_f32_size(self.sector);
        assert(p48.len() == 196);
        layout::lemma_f32_size(self.sector_1_time);
        assert(p49.len() == 200);
        layout::lemma_f32_size(self.sector_2_time);
        assert(p50.len() == 204);
        layout::lemma_f32_size(self.brakes_temp_rl);
        assert(p51.len() == 208);
        layout::lemma_f32_size(self.brakes_temp_rr);
        assert(p52.len() == 212);
        layout::lemma_f32_size(self.brakes_temp_fl);
        assert(p53.len() == 216);
        layout::lemma_f32_size(self.brakes_temp_fr);
        assert(p54.len() == 220);
        layout::lemma_f32_size(self.tyre_pressure_rl);
        assert(p55.len() == 224);
        layout::lemma_f32_size(self.tyre_pressure_rr);
        assert(p56.len() == 228);
        layout::lemma_f32_size(self.tyre_pressure_fl);
        assert(p57.len() == 232);
        layout::lemma_f32_size(self.tyre_pressure_fr);
        assert(p58.len() == 236);
        layout::lemma_f32_size(self.laps_completed);
        assert(p59.len() == 240);
        layout::lemma_f32_size(self.total_laps);
        assert(p60.len() == 244);
        layout::lemma_f32_size(self.track_length);
        assert(p61.len() == 248);
        layout::lemma_f32_size(self.last_lap_time);
        assert(p62.len() == 252);
        layout::lemma_f32_size(self.max_rpm_div_10);
        assert(p63.len() == 256);
        layout::lemma_f32_size(self.idle_rpm_div_10);
        assert(p64.len() == 260);
        layout::lemma_f32_size(self.max_gears);
        assert(p65.len() == 264);
        layout::lemma_split(b, at, p64, layout::f32_image(self.max_gears));
        layout::lemma_f32_stands(b, at + 260, self.max_gears);
        layout::lemma_split(b, at, p63, layout::f32_image(self.idle_rpm_div_10));
        layout::lemma_f32_stands(b, at + 256, self.idle_rpm_div_10);
        layout::lemma_split(b, at, p62, layout::f32_image(self.max_rpm_div_10));
        layout::lemma_f32_stands(b, at + 252, self.max_rpm_div_10);
        layout::lemma_split(b, at, p61, layout::f32_image(self.last_lap_time));
        layout::lemma_f32_stands(b, at + 248, self.last_lap_time);
        layout::lemma_split(b, at, p60, layout::f32_image(self.track_length));
        layout::lemma_f32_stands(b, at + 244, self.track_length);
        layout::lemma_split(b, at, p59, layout::f32_image(self.total_laps));
        layout::lemma_f32_stands(b, at + 240, self.total_laps);
        layout::lemma_split(b, at, p58, layout::f32_image(self.laps_completed));
        layout::lemma_f32_stands(b, at + 236, self.laps_completed);
        layout::lemma_split(b, at, p57, layout::f32_image(self.tyre_pressure_fr));
        layout::lemma_f32_stands(b, at + 232, self.tyre_pressure_fr);
        layout::lemma_split(b, at, p56, layout::f32_image(self.tyre_pressure_fl));
        layout::lemma_f32_stands(b, at + 228, self.tyre_pressure_fl);
        layout::lemma_split(b, at, p55, layout::f32_image(self.tyre_pressure_rr));
        layout::lemma_f32_stands(b, at + 224, self.tyre_pressure_rr);
        layout::lemma_split(b, at, p54, layout::f32_image(self.tyre_pressure_rl));
        layout::lemma_f32_stands(b, at + 220, self.tyre_pressure_rl);
        layout::lemma_split(b, at, p53, layout::f32_image(self.brakes_temp_fr));
        layout::lemma_f32_stands(b, at + 216, self.brakes_temp_fr);
        layout::lemma_split(b, at, p52, layout::f32_image(self.brakes_temp_fl));
        layout::lemma_f32_stands(b, at + 212, self.brakes_temp_fl);
        layout::lemma_split(b, at, p51, layout::f32_image(self.brakes_temp_rr));
        layout::lemma_f32_stands(b, at + 208, self.brakes_temp_rr);
        layout::lemma_split(b, at, p50, layout::f32_image(self.brakes_temp_rl));
        layout::lemma_f32_stands(b, at + 204, self.brakes_temp_rl);
        layout::lemma_split(b, at, p49, layout::f32_image(self.sector_2_time));
        layout::lemma_f32_stands(b, at + 200, self.sector_2_time);
        layout::lemma_split(b, at, p48, layout::f32_image(self.sector_1_time));
        layout::lemma_f32_stands(b, at + 196, self.sector_1_time);
        layout::lemma_split(b, at, p47, layout::f32_image(self.sector));
        layout::lemma_f32_stands(b, at + 192, self.sector);
        layout::lemma_split(b, at, p46, layout::f32_image(self.in_pit));
        layout::lemma_f32_stands(b, at + 188, self.in_pit);
        layout::lemma_split(b, at, p45, layout::f32_image(self.fuel_capacity));
        layout::lemma_f32_stands(b, at + 184, self.fuel_capacity);
        layout::lemma_split(b, at, p44, layout::f32_image(self.fuel_in_tank));
        layout::lemma_f32_stands(b, at + 180, self.fuel_in_tank);
        layout::lemma_split(b, at, p43, layout::f32_image(self.anti_lock_brakes));
        layout::lemma_f32_stands(b, at + 176, self.anti_lock_brakes);
        layout::lemma_split(b, at, p42, layout::f32_image(self.traction_control));
        layout::lemma_f32_stands(b, at + 172, self.traction_control);
        layout::lemma_split(b, at, p41, layout::f32_image(self.drs));
        layout::lemma_f32_stands(b, at + 168, self.drs);
        layout::lemma_split(b, at, p40, layout::f32_image(self.kers_max_level));
        layout::lemma_f32_stands(b, at + 164, self.kers_max_level);
        layout::lemma_split(b, at, p39, layout::f32_image(self.kers_level));
        layout::lemma_f32_stands(b, at + 160, self.kers_level);
        layout::lemma_split(b, at, p38, layout::f32_image(self.car_pos));
        layout::lemma_f32_stands(b, at + 156, self.car_pos);
        layout::lemma_split(b, at, p37, layout::f32_image(self.sli_pro_support));
        layout::lemma_f32_stands(b, at + 152, self.sli_pro_support);
        layout::lemma_split(b, at, p36, layout::f32_image(self.rpm_div_10));
        layout::lemma_f32_stands(b, at + 148, self.rpm_div_10);
        layout::lemma_split(b, at, p35, layout::f32_image(self.current_lap));
        layout::lemma_f32_stands(b, at + 144, self.current_lap);
        layout::lemma_split(b, at, p34, layout::f32_image(self.g_force_lon));
        layout::lemma_f32_stands(b, at + 140, self.g_force_lon);
        layout::lemma_split(b, at, p33, layout::f32_image(self.g_force_lat));
        layout::lemma_f32_stands(b, at + 136, self.g_force_lat);
        layout::lemma_split(b, at, p32, layout::f32_image(self.gear));
        layout::lemma_f32_stands(b, at + 132, self.gear);
        layout::lemma_split(b, at, p31, layout::f32_image(self.clutch));
        layout::lemma_f32_stands(b, at + 128, self.clutch);
        layout::lemma_split(b, at, p30, layout::f32_image(self.brake));
        layout::lemma_f32_stands(b, at + 124, self.brake);
        layout::lemma_split(b, at, p29, layout::f32_image(self.steering));
        layout::lemma_f32_stands(b, at + 120, self.steering);
        layout::lemma_split(b, at, p28, layout::f32_image(self.throttle));
        layout::lemma_f32_stands(b, at + 116, self.throttle);
        layout::lemma_split(b, at, p27, layout::f32_image(self.wsp_fr));
        layout::lemma_f32_stands(b, at + 112, self.wsp_fr);
        layout::lemma_split(b, at, p26, layout::f32_image(self.wsp_fl));
        layout::lemma_f32_stands(b, at + 108, self.wsp_fl);
        layout::lemma_split(b, at, p25, layout::f32_image(self.wsp_rr));
        layout::lemma_f32_stands(b, at + 104, self.wsp_rr);
        layout::lemma_split(b, at, p24, layout::f32_image(self.wsp_rl));
        layout::lemma_f32_stands(b, at + 100, self.wsp_rl);
        layout::lemma_split(b, at, p23, layout::f32_image(self.susp_vel_fr));
        layout::lemma_f32_stands(b, at + 96, self.susp_vel_fr);
        layout::lemma_split(b, at, p22, layout::f32_image(self.susp_vel_fl));
        layout::lemma_f32_stands(b, at + 92, self.susp_vel_fl);
        layout::lemma_split(b, at, p21, layout::f32_image(self.susp_vel_rr));
        layout::lemma_f32_stands(b, at + 88, self.susp_vel_rr);
        layout::lemma_split(b, at, p20, layout::f32_image(self.susp_vel_rl));
        layout::lemma_f32_stands(b, at + 84, self.susp_vel_rl);
        layout::lemma_split(b, at, p19, layout::f32_image(self.susp_fr));
        layout::lemma_f32_stands(b, at + 80, self.susp_fr);
        layout::lemma_split(b, at, p18, layout::f32_image(self.susp_fl));
        layout::lemma_f32_stands(b, at + 76, self.susp_fl);
        layout::lemma_split(b, at, p17, layout::f32_image(self.susp_rr));
        layout::lemma_f32_stands(b, at + 72, self.susp_rr);
        layout::lemma_split(b, at, p16, layout::f32_image(self.susp_rl));
        layout::lemma_f32_stands(b, at + 68, self.susp_rl);
        layout::lemma_split(b, at, p15, layout::f32_image(self.pitch_z));
        layout::lemma_f32_stands(b, at + 64, self.pitch_z);
        layout::lemma_split(b, at, p14, layout::f32_image(self.pitch_y));
        layout::lemma_f32_stands(b, at + 60, self.pitch_y);
        layout::lemma_split(b, at, p13, layout::f32_image(self.pitch_x));
        layout::lemma_f32_stands(b, at + 56, self.pitch_x);
        layout::lemma_split(b, at, p12, layout::f32_image(self.roll_z));
        layout::lemma_f32_stands(b, at + 52, self.roll_z);
        layout::lemma_split(b, at, p11, layout::f32_image(self.roll_y));
        layout::lemma_f32_stands(b, at + 48, self.roll_y);
        layout::lemma_split(b, at, p10, layout::f32_image(self.roll_x));
        layout::lemma_f32_stands(b, at + 44, self.roll_x);
        layout::lemma_split(b, at, p9, layout::f32_image(self.vel_z));
        layout::lemma_f32_stands(b, at + 40, self.vel_z);
        layout::lemma_split(b, at, p8, layout::f32_image(self.vel_y));
        layout::lemma_f32_stands(b, at + 36, self.vel_y);
        layout::lemma_split(b, at, p7, layout::f32_image(self.vel_x));
        layout::lemma_f32_stands(b, at + 32, self.vel_x);
        layout::lemma_split(b, at, p6, layout::f32_image(self.speed_ms));
        layout::lemma_f32_stands(b, at + 28, self.speed_ms);
        layout::lemma_split(b, at, p5, layout::f32_image(self.pos_z));
        layout::lemma_f32_stands(b, at + 24, self.pos_z);
        layout::lemma_split(b, at, p4, layout::f32_image(self.pos_y));
        layout::lemma_f32_stands(b, at + 20, self.pos_y);
        layout::lemma_split(b, at, p3, layout::f32_image(self.pos_x));
        layout::lemma_f32_stands(b, at + 16, self.pos_x);
        layout::lemma_split(b, at, p2, layout::f32_image(self.progress));
        layout::lemma_f32_stands(b, at + 12, self.progress);
        layout::lemma_split(b, at, p1, layout::f32_image(self.distance));
        layout::lemma_f32_stands(b, at + 8, self.distance);
        layout::lemma_split(b, at, p0, layout::f32_image(self.lap_time));
        layout::lemma_f32_stands(b, at + 4, self.lap_time);
        layout::lemma_f32_stands(b, at, self.run_time);
    }

    proof fn lemma_image_size(self) {
        let p0 = layout::f32_image(self.run_time);
        let p1 = p0 + layout::f32_image(self.lap_time);
        let p2 = p1 + layout::f32_image(self.distance);
        let p3 = p2 + layout::f32_image(self.progress);
        let p4 = p3 + layout::f32_image(self.pos_x);
        let p5 = p4 + layout::f32_image(self.pos_y);
        let p6 = p5 + layout::f32_image(self.pos_z);
        let p7 = p6 + layout::f32_image(self.speed_ms);
        let p8 = p7 + layout::f32_image(self.vel_x);
        let p9 = p8 + layout::f32_image(self.vel_y);
        let p10 = p9 + layout::f32_image(self.vel_z);
        let p11 = p10 + layout::f32_image(self.roll_x);
        let p12 = p11 + layout::f32_image(self.roll_y);
        let p13 = p12 + layout::f32_image(self.roll_z);
        let p14 = p13 + layout::f32_image(self.pitch_x);
        let p15 = p14 + layout::f32_image(self.pitch_y);
        let p16 = p15 + layout::f32_image(self.pitch_z);
        let p17 = p16 + layout::f32_image(self.susp_rl);
        let p18 = p17 + layout::f32_image(self.susp_rr);
        let p19 = p18 + layout::f32_image(self.susp_fl);
        let p20 = p19 + layout::f32_image(self.susp_fr);
        let p21 = p20 + layout::f32_image(self.susp_vel_rl);
        let p22 = p21 + layout::f32_image(self.susp_vel_rr);
        let p23 = p22 + layout::f32_image(self.susp_vel_fl);
        let p24 = p23 + layout::f32_image(self.susp_vel_fr);
        let p25 = p24 + layout::f32_image(self.wsp_rl);
        let p26 = p25 + layout::f32_image(self.wsp_rr);
        let p27 = p26 + layout::f32_image(self.wsp_fl);
        let p28 = p27 + layout::f32_image(self.wsp_fr);
        let p29 = p28 + layout::f32_image(self.throttle);
        let p30 = p29 + layout::f32_image(self.steering);
        let p31 = p30 + layout::f32_image(self.brake);
        let p32 = p31 + layout::f32_image(self.clutch);
        let p33 = p32 + layout::f32_image(self.gear);
        let p34 = p33 + layout::f32_image(self.g_force_lat);
        let p35 = p34 + layout::f32_image(self.g_force_lon);
        let p36 = p35 + layout::f32_image(self.current_lap);
        let p37 = p36 + layout::f32_image(self.rpm_div_10);
        let p38 = p37 + layout::f32_image(self.sli_pro_support);
        let p39 = p38 + layout::f32_image(self.car_pos);
        let p40 = p39 + layout::f32_image(self.kers_level);
        let p41 = p40 + layout::f32_image(self.kers_max_level);
        let p42 = p41 + layout::f32_image(self.drs);
        let p43 = p42 + layout::f32_image(self.traction_control);
        let p44 = p43 + layout::f32_image(self.anti_lock_brakes);
        let p45 = p44 + layout::f32_image(self.fuel_in_tank);
        let p46 = p45 + layout::f32_image(self.fuel_capacity);
        let p47 = p46 + layout::f32_image(self.in_pit);
        let p48 = p47 + layout::f32_image(self.sector);
        let p49 = p48 + layout::f32_image(self.sector_1_time);
        let p50 = p49 + layout::f32_image(self.sector_2_time);
        let p51 = p50 + layout::f32_image(self.brakes_temp_rl);
        let p52 = p51 + layout::f32_image(self.brakes_temp_rr);
        let p53 = p52 + layout::f32_image(self.brakes_temp_fl);
        let p54 = p53 + layout::f32_image(self.brakes_temp_fr);
        let p55 = p54 + layout::f32_image(self.tyre_pressure_rl);
        let p56 = p55 + layout::f32_image(self.tyre_pressure_rr);
        let p57 = p56 + layout::f32_image(self.tyre_pressure_fl);
        let p58 = p57 + layout::f32_image(self.tyre_pressure_fr);
        let p59 = p58 + layout::f32_image(self.laps_completed);
        let p60 = p59 + layout::f32_image(self.total_laps);
        let p61 = p60 + layout::f32_image(self.track_length);
        let p62 = p61 + layout::f32_image(self.last_lap_time);
        let p63 = p62 + layout::f32_image(self.max_rpm_div_10);
        let p64 = p63 + layout::f32_image(self.idle_rpm_div_10);
        let p65 = p64 + layout::f32_image(self.max_gears);
        layout::lemma_f32_size(self.run_time);
        assert(p0.len() == 4);
        layout::lemma_f32_size(self.lap_time);
        assert(p1.len() == 8);
        layout::lemma_f32_size(self.distance);
        assert(p2.len() == 12);
        layout::lemma_f32_size(self.progress);
        assert(p3.len() == 16);
        layout::lemma_f32_size(self.pos_x);
        assert(p4.len() == 20);
        layout::lemma_f32_size(self.pos_y);
        assert(p5.len() == 24);
        layout::lemma_f32_size(self.pos_z);
        assert(p6.len() == 28);
        layout::lemma_f32_size(self.speed_ms);
        assert(p7.len() == 32);
        layout::lemma_f32_size(self.vel_x);
        assert(p8.len() == 36);
        layout::lemma_f32_size(self.vel_y);
        assert(p9.len() == 40);
        layout::lemma_f32_size(self.vel_z);
        assert(p10.len() == 44);
        layout::lemma_f32_size(self.roll_x);
        assert(p11.len() == 48);
        layout::lemma_f32_size(self.roll_y);
        assert(p12.len() == 52);
        layout::lemma_f32_size(self.roll_z);
        assert(p13.len() == 56);
        layout::lemma_f32_size(self.pitch_x);
        assert(p14.len() == 60);
        layout::lemma_f32_size(self.pitch_y);
        assert(p15.len() == 64);
        layout::lemma_f32_size(self.pitch_z);
        assert(p16.len() == 68);
        layout::lemma_f32_size(self.susp_rl);
        assert(p17.len() == 72);
        layout::lemma_f32_size(self.susp_rr);
        assert(p18.len() == 76);
        layout::lemma_f32_size(self.susp_fl);
        assert(p19.len() == 80);
        layout::lemma_f32_size(self.susp_fr);
        assert(p20.len() == 84);
        layout::lemma_f32_size(self.susp_vel_rl);
        assert(p21.len() == 88);
        layout::lemma_f32_size(self.susp_vel_rr);
        assert(p22.len() == 92);
        layout::lemma_f32_size(self.susp_vel_fl);
        assert(p23.len() == 96);
        layout::lemma_f32_size(self.susp_vel_fr);
        assert(p24.len() == 100);
        layout::lemma_f32_size(self.wsp_rl);
        assert(p25.len() == 104);
        layout::lemma_f32_size(self.wsp_rr);
        assert(p26.len() == 108);
        layout::lemma_f32_size(self.wsp_fl);
        assert(p27.len() == 112);
        layout::lemma_f32_size(self.wsp_fr);
        assert(p28.len() == 116);
        layout::lemma_f32_size(self.throttle);
        assert(p29.len() == 120);
        layout::lemma_f32_size(self.steering);
        assert(p30.len() == 124);
        layout::lemma_f32_size(self.brake);
        assert(p31.len() == 128);
        layout::lemma_f32_size(self.clutch);
        assert(p32.len() == 132);
        layout::lemma_f32_size(self.gear);
        assert(p33.len() == 136);
        layout::lemma_f32_size(self.g_force_lat);
        assert(p34.len() == 140);
        layout::lemma_f32_size(self.g_force_lon);
        assert(p35.len() == 144);
        layout::lemma_f32_size(self.current_lap);
        assert(p36.len() == 148);
        layout::lemma_f32_size(self.rpm_div_10);
        assert(p37.len() == 152);
        layout::lemma_f32_size(self.sli_pro_support);
        assert(p38.len() == 156);
        layout::lemma_f32_size(self.car_pos);
        assert(p39.len() == 160);
        layout::lemma_f32_size(self.kers_level);
        assert(p40.len() == 164);
        layout::lemma_f32_size(self.kers_max_level);
        assert(p41.len() == 168);
        layout::lemma_f32_size(self.drs);
        assert(p42.len() == 172);
        layout::lemma_f32_size(self.traction_control);
        assert(p43.len() == 176);
        layout::lemma_f32_size(self.anti_lock_brakes);
        assert(p44.len() == 180);
        layout::lemma_f32_size(self.fuel_in_tank);
        assert(p45.len() == 184);
        layout::lemma_f32_size(self.fuel_capacity);
        assert(p46.len() == 188);
        layout::lemma_f32_size(self.in_pit);
        assert(p47.len() == 192);
        layout::lemma_f32_size(self.sector);
        assert(p48.len() == 196);
        layout::lemma_f32_size(self.sector_1_time);
        assert(p49.len() == 200);
        layout::lemma_f32_size(self.sector_2_time);
        assert(p50.len() == 204);
        layout::lemma_f32_size(self.brakes_temp_rl);
        assert(p51.len() == 208);
        layout::lemma_f32_size(self.brakes_temp_rr);
        assert(p52.len() == 212);
        layout::lemma_f32_size(self.brakes_temp_fl);
        assert(p53.len() == 216);
        layout::lemma_f32_size(self.brakes_temp_fr);
        assert(p54.len() == 220);
        layout::lemma_f32_size(self.tyre_pressure_rl);
        assert(p55.len() == 224);
        layout::lemma_f32_size(self.tyre_pressure_rr);
        assert(p56.len() == 228);
        layout::lemma_f32_size(self.tyre_pressure_fl);
        assert(p57.len() == 232);
        layout::lemma_f32_size(self.tyre_pressure_fr);
        assert(p58.len() == 236);
        layout::lemma_f32_size(self.laps_completed);
        assert(p59.len() == 240);
        layout::lemma_f32_size(self.total_laps);
        assert(p60.len() == 244);
        layout::lemma_f32_size(self.track_length);
        assert(p61.len() == 248);
        layout::lemma_f32_size(self.last_lap_time);
        assert(p62.len() == 252);
        layout::lemma_f32_size(self.max_rpm_div_10);
        assert(p63.len() == 256);
        layout::lemma_f32_size(self.idle_rpm_div_10);
        assert(p64.len() == 260);
        layout::lemma_f32_size(self.max_gears);
        assert(p65.len() == 264);
    }

    proof fn lemma_one_reading(self, other: Self, b: Seq<u8>, at: int) {
    }
}

} // verus!
