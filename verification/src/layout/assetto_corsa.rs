//! Assetto Corsa packets.

use vstd::prelude::*;

use crate::assetto_corsa::HandshakeResponse;
use crate::assetto_corsa::RtCarInfo;
use crate::layout;
use crate::layout::Packed;
use crate::wire;
use crate::wire::Record;

verus! {

impl Packed for HandshakeResponse {
    open spec fn image(self) -> Seq<u8> {
        layout::u16s_image(self.car_name@)
            + layout::u16s_image(self.driver_name@)
            + wire::i32_image(self.identifier)
            + wire::i32_image(self.version)
            + layout::u16s_image(self.track_name@)
            + layout::u16s_image(self.track_config@)
    }

    proof fn lemma_read_back(self, b: Seq<u8>, at: int) {
        self.lemma_image_size();
        let p0 = layout::u16s_image(self.car_name@);
        let p1 = p0 + layout::u16s_image(self.driver_name@);
        let p2 = p1 + wire::i32_image(self.identifier);
        let p3 = p2 + wire::i32_image(self.version);
        let p4 = p3 + layout::u16s_image(self.track_name@);
        let p5 = p4 + layout::u16s_image(self.track_config@);
        layout::lemma_u16s_size(self.car_name@);
        assert(p0.len() == 100);
        layout::lemma_u16s_size(self.driver_name@);
        assert(p1.len() == 200);
        assert(p2.len() == 204);
        assert(p3.len() == 208);
        layout::lemma_u16s_size(self.track_name@);
        assert(p4.len() == 308);
        layout::lemma_u16s_size(self.track_config@);
        assert(p5.len() == 408);
        layout::lemma_split(b, at, p4, layout::u16s_image(self.track_config@));
        layout::lemma_u16s_stand(b, at + 308, self.track_config@);
        layout::lemma_split(b, at, p3, layout::u16s_image(self.track_name@));
        layout::lemma_u16s_stand(b, at + 208, self.track_name@);
        layout::lemma_split(b, at, p2, wire::i32_image(self.version));
        layout::lemma_i32_stands(b, at + 204, self.version);
        layout::lemma_split(b, at, p1, wire::i32_image(self.identifier));
        layout::lemma_i32_stands(b, at + 200, self.identifier);
        layout::lemma_split(b, at, p0, layout::u16s_image(self.driver_name@));
        layout::lemma_u16s_stand(b, at + 100, self.driver_name@);
        layout::lemma_u16s_stand(b, at, self.car_name@);
    }

    proof fn lemma_image_size(self) {
        let p0 = layout::u16s_image(self.car_name@);
        let p1 = p0 + layout::u16s_image(self.driver_name@);
        let p2 = p1 + wire::i32_image(self.identifier);
        let p3 = p2 + wire::i32_image(self.version);
        let p4 = p3 + layout::u16s_image(self.track_name@);
        let p5 = p4 + layout::u16s_image(self.track_config@);
        layout::lemma_u16s_size(self.car_name@);
        assert(p0.len() == 100);
        layout::lemma_u16s_size(self.driver_name@);
        assert(p1.len() == 200);
        assert(p2.len() == 204);
        assert(p3.len() == 208);
        layout::lemma_u16s_size(self.track_name@);
        assert(p4.len() == 308);
        layout::lemma_u16s_size(self.track_config@);
        assert(p5.len() == 408);
    }

    proof fn lemma_one_reading(self, other: Self, b: Seq<u8>, at: int) {
        assert(self.car_name@ == other.car_name@);
        assert(self.car_name =~= other.car_name);
        assert(self.driver_name@ == other.driver_name@);
        assert(self.driver_name =~= other.driver_name);
        assert(self.track_name@ == other.track_name@);
        assert(self.track_name =~= other.track_name);
        assert(self.track_config@ == other.track_config@);
        assert(self.track_config =~= other.track_config);
    }
}

/// The bytes of the car state. The fields are aligned, so three bytes behind the
/// identifier and two bytes behind the flags mean nothing.
pub open spec fn car_info_image(v: RtCarInfo, gap: Seq<u8>, second_gap: Seq<u8>) -> Seq<u8> {
    seq![v.identifier]
        + gap
        + wire::i32_image(v.size)
        + layout::f32_image(v.speed_kmh)
        + layout::f32_image(v.speed_mph)
        + layout::f32_image(v.speed_ms)
        + seq![v.is_abs_enabled]
        + seq![v.is_abs_in_action]
        + seq![v.is_tc_in_action]
        + seq![v.is_tc_enabled]
        + seq![v.is_in_pit]
        + seq![v.is_engine_limiter_on]
        + second_gap
        + layout::f32_image(v.acc_g_vertical)
        + layout::f32_image(v.acc_g_horizontal)
        + layout::f32_image(v.acc_g_frontal)
        + wire::i32_image(v.lap_time)
        + wire::i32_image(v.last_lap)
        + wire::i32_image(v.best_lap)
        + wire::i32_image(v.lap_count)
        + layout::f32_image(v.gas)
        + layout::f32_image(v.brake)
        + layout::f32_image(v.clutch)
        + layout::f32_image(v.engine_rpm)
        + layout::f32_image(v.steer)
        + wire::i32_image(v.gear)
        + layout::f32_image(v.cg_height)
        + layout::f32s_image(v.wheel_angular_speed@)
        + layout::f32s_image(v.slip_angle@)
        + layout::f32s_image(v.slip_angle_contact_patch@)
        + layout::f32s_image(v.slip_ratio@)
        + layout::f32s_image(v.tyre_slip@)
        + layout::f32s_image(v.nd_slip@)
        + layout::f32s_image(v.load@)
        + layout::f32s_image(v.dy@)
        + layout::f32s_image(v.mz@)
        + layout::f32s_image(v.tyre_dirty_level@)
        + layout::f32s_image(v.camber_rad@)
        + layout::f32s_image(v.tyre_radius@)
        + layout::f32s_image(v.tyre_loaded_radius@)
        + layout::f32s_image(v.suspension_height@)
        + layout::f32_image(v.car_position_normalized)
        + layout::f32_image(v.car_slope)
        + layout::f32s_image(v.car_coordinates@)
}

proof fn lemma_car_info_size(v: RtCarInfo, gap: Seq<u8>, second_gap: Seq<u8>)
    requires
        gap.len() == 3,
        second_gap.len() == 2,
    ensures
        car_info_image(v, gap, second_gap).len() == 328,
{
    let p0 = seq![v.identifier];
    let p1 = p0 + gap;
    let p2 = p1 + wire::i32_image(v.size);
    let p3 = p2 + layout::f32_image(v.speed_kmh);
    let p4 = p3 + layout::f32_image(v.speed_mph);
    let p5 = p4 + layout::f32_image(v.speed_ms);
    let p6 = p5 + seq![v.is_abs_enabled];
    let p7 = p6 + seq![v.is_abs_in_action];
    let p8 = p7 + seq![v.is_tc_in_action];
    let p9 = p8 + seq![v.is_tc_enabled];
    let p10 = p9 + seq![v.is_in_pit];
    let p11 = p10 + seq![v.is_engine_limiter_on];
    let p12 = p11 + second_gap;
    let p13 = p12 + layout::f32_image(v.acc_g_vertical);
    let p14 = p13 + layout::f32_image(v.acc_g_horizontal);
    let p15 = p14 + layout::f32_image(v.acc_g_frontal);
    let p16 = p15 + wire::i32_image(v.lap_time);
    let p17 = p16 + wire::i32_image(v.last_lap);
    let p18 = p17 + wire::i32_image(v.best_lap);
    let p19 = p18 + wire::i32_image(v.lap_count);
    let p20 = p19 + layout::f32_image(v.gas);
    let p21 = p20 + layout::f32_image(v.brake);
    let p22 = p21 + layout::f32_image(v.clutch);
    let p23 = p22 + layout::f32_image(v.engine_rpm);
    let p24 = p23 + layout::f32_image(v.steer);
    let p25 = p24 + wire::i32_image(v.gear);
    let p26 = p25 + layout::f32_image(v.cg_height);
    let p27 = p26 + layout::f32s_image(v.wheel_angular_speed@);
    let p28 = p27 + layout::f32s_image(v.slip_angle@);
    let p29 = p28 + layout::f32s_image(v.slip_angle_contact_patch@);
    let p30 = p29 + layout::f32s_image(v.slip_ratio@);
    let p31 = p30 + layout::f32s_image(v.tyre_slip@);
    let p32 = p31 + layout::f32s_image(v.nd_slip@);
    let p33 = p32 + layout::f32s_image(v.load@);
    let p34 = p33 + layout::f32s_image(v.dy@);
    let p35 = p34 + layout::f32s_image(v.mz@);
    let p36 = p35 + layout::f32s_image(v.tyre_dirty_level@);
    let p37 = p36 + layout::f32s_image(v.camber_rad@);
    let p38 = p37 + layout::f32s_image(v.tyre_radius@);
    let p39 = p38 + layout::f32s_image(v.tyre_loaded_radius@);
    let p40 = p39 + layout::f32s_image(v.suspension_height@);
    let p41 = p40 + layout::f32_image(v.car_position_normalized);
    let p42 = p41 + layout::f32_image(v.car_slope);
    let p43 = p42 + layout::f32s_image(v.car_coordinates@);
    assert(p0.len() == 1);
    assert(p1.len() == 4);
    assert(p2.len() == 8);
    layout::lemma_f32_size(v.speed_kmh);
    assert(p3.len() == 12);
    layout::lemma_f32_size(v.speed_mph);
    assert(p4.len() == 16);
    layout::lemma_f32_size(v.speed_ms);
    assert(p5.len() == 20);
    assert(p6.len() == 21);
    assert(p7.len() == 22);
    assert(p8.len() == 23);
    assert(p9.len() == 24);
    assert(p10.len() == 25);
    assert(p11.len() == 26);
    assert(p12.len() == 28);
    layout::lemma_f32_size(v.acc_g_vertical);
    assert(p13.len() == 32);
    layout::lemma_f32_size(v.acc_g_horizontal);
    assert(p14.len() == 36);
    layout::lemma_f32_size(v.acc_g_frontal);
    assert(p15.len() == 40);
    assert(p16.len() == 44);
    assert(p17.len() == 48);
    assert(p18.len() == 52);
    assert(p19.len() == 56);
    layout::lemma_f32_size(v.gas);
    assert(p20.len() == 60);
    layout::lemma_f32_size(v.brake);
    assert(p21.len() == 64);
    layout::lemma_f32_size(v.clutch);
    assert(p22.len() == 68);
    layout::lemma_f32_size(v.engine_rpm);
    assert(p23.len() == 72);
    layout::lemma_f32_size(v.steer);
    assert(p24.len() == 76);
    assert(p25.len() == 80);
    layout::lemma_f32_size(v.cg_height);
    assert(p26.len() == 84);
    layout::lemma_f32s_size(v.wheel_angular_speed@);
    assert(p27.len() == 100);
    layout::lemma_f32s_size(v.slip_angle@);
    assert(p28.len() == 116);
    layout::lemma_f32s_size(v.slip_angle_contact_patch@);
    assert(p29.len() == 132);
    layout::lemma_f32s_size(v.slip_ratio@);
    assert(p30.len() == 148);
    layout::lemma_f32s_size(v.tyre_slip@);
    assert(p31.len() == 164);
    layout::lemma_f32s_size(v.nd_slip@);
    assert(p32.len() == 180);
    layout::lemma_f32s_size(v.load@);
    assert(p33.len() == 196);
    layout::lemma_f32s_size(v.dy@);
    assert(p34.len() == 212);
    layout::lemma_f32s_size(v.mz@);
    assert(p35.len() == 228);
    layout::lemma_f32s_size(v.tyre_dirty_level@);
    assert(p36.len() == 244);
    layout::lemma_f32s_size(v.camber_rad@);
    assert(p37.len() == 260);
    layout::lemma_f32s_size(v.tyre_radius@);
    assert(p38.len() == 276);
    layout::lemma_f32s_size(v.tyre_loaded_radius@);
    assert(p39.len() == 292);
    layout::lemma_f32s_size(v.suspension_height@);
    assert(p40.len() == 308);
    layout::lemma_f32_size(v.car_position_normalized);
    assert(p41.len() == 312);
    layout::lemma_f32_size(v.car_slope);
    assert(p42.len() == 316);
    layout::lemma_f32s_size(v.car_coordinates@);
    assert(p43.len() == 328);
}

proof fn lemma_car_info_stands(
    v: RtCarInfo,
    gap: Seq<u8>,
    second_gap: Seq<u8>,
    b: Seq<u8>,
    at: int,
)
    requires
        gap.len() == 3,
        second_gap.len() == 2,
        layout::stands(b, at, car_info_image(v, gap, second_gap)),
    ensures
        v.decodes(b, at),
{
    let p0 = seq![v.identifier];
    let p1 = p0 + gap;
    let p2 = p1 + wire::i32_image(v.size);
    let p3 = p2 + layout::f32_image(v.speed_kmh);
    let p4 = p3 + layout::f32_image(v.speed_mph);
    let p5 = p4 + layout::f32_image(v.speed_ms);
    let p6 = p5 + seq![v.is_abs_enabled];
    let p7 = p6 + seq![v.is_abs_in_action];
    let p8 = p7 + seq![v.is_tc_in_action];
    let p9 = p8 + seq![v.is_tc_enabled];
    let p10 = p9 + seq![v.is_in_pit];
    let p11 = p10 + seq![v.is_engine_limiter_on];
    let p12 = p11 + second_gap;
    let p13 = p12 + layout::f32_image(v.acc_g_vertical);
    let p14 = p13 + layout::f32_image(v.acc_g_horizontal);
    let p15 = p14 + layout::f32_image(v.acc_g_frontal);
    let p16 = p15 + wire::i32_image(v.lap_time);
    let p17 = p16 + wire::i32_image(v.last_lap);
    let p18 = p17 + wire::i32_image(v.best_lap);
    let p19 = p18 + wire::i32_image(v.lap_count);
    let p20 = p19 + layout::f32_image(v.gas);
    let p21 = p20 + layout::f32_image(v.brake);
    let p22 = p21 + layout::f32_image(v.clutch);
    let p23 = p22 + layout::f32_image(v.engine_rpm);
    let p24 = p23 + layout::f32_image(v.steer);
    let p25 = p24 + wire::i32_image(v.gear);
    let p26 = p25 + layout::f32_image(v.cg_height);
    let p27 = p26 + layout::f32s_image(v.wheel_angular_speed@);
    let p28 = p27 + layout::f32s_image(v.slip_angle@);
    let p29 = p28 + layout::f32s_image(v.slip_angle_contact_patch@);
    let p30 = p29 + layout::f32s_image(v.slip_ratio@);
    let p31 = p30 + layout::f32s_image(v.tyre_slip@);
    let p32 = p31 + layout::f32s_image(v.nd_slip@);
    let p33 = p32 + layout::f32s_image(v.load@);
    let p34 = p33 + layout::f32s_image(v.dy@);
    let p35 = p34 + layout::f32s_image(v.mz@);
    let p36 = p35 + layout::f32s_image(v.tyre_dirty_level@);
    let p37 = p36 + layout::f32s_image(v.camber_rad@);
    let p38 = p37 + layout::f32s_image(v.tyre_radius@);
    let p39 = p38 + layout::f32s_image(v.tyre_loaded_radius@);
    let p40 = p39 + layout::f32s_image(v.suspension_height@);
    let p41 = p40 + layout::f32_image(v.car_position_normalized);
    let p42 = p41 + layout::f32_image(v.car_slope);
    let p43 = p42 + layout::f32s_image(v.car_coordinates@);
    assert(p0.len() == 1);
    assert(p1.len() == 4);
    assert(p2.len() == 8);
    layout::lemma_f32_size(v.speed_kmh);
    assert(p3.len() == 12);
    layout::lemma_f32_size(v.speed_mph);
    assert(p4.len() == 16);
    layout::lemma_f32_size(v.speed_ms);
    assert(p5.len() == 20);
    assert(p6.len() == 21);
    assert(p7.len() == 22);
    assert(p8.len() == 23);
    assert(p9.len() == 24);
    assert(p10.len() == 25);
    assert(p11.len() == 26);
    assert(p12.len() == 28);
    layout::lemma_f32_size(v.acc_g_vertical);
    assert(p13.len() == 32);
    layout::lemma_f32_size(v.acc_g_horizontal);
    assert(p14.len() == 36);
    layout::lemma_f32_size(v.acc_g_frontal);
    assert(p15.len() == 40);
    assert(p16.len() == 44);
    assert(p17.len() == 48);
    assert(p18.len() == 52);
    assert(p19.len() == 56);
    layout::lemma_f32_size(v.gas);
    assert(p20.len() == 60);
    layout::lemma_f32_size(v.brake);
    assert(p21.len() == 64);
    layout::lemma_f32_size(v.clutch);
    assert(p22.len() == 68);
    layout::lemma_f32_size(v.engine_rpm);
    assert(p23.len() == 72);
    layout::lemma_f32_size(v.steer);
    assert(p24.len() == 76);
    assert(p25.len() == 80);
    layout::lemma_f32_size(v.cg_height);
    assert(p26.len() == 84);
    layout::lemma_f32s_size(v.wheel_angular_speed@);
    assert(p27.len() == 100);
    layout::lemma_f32s_size(v.slip_angle@);
    assert(p28.len() == 116);
    layout::lemma_f32s_size(v.slip_angle_contact_patch@);
    assert(p29.len() == 132);
    layout::lemma_f32s_size(v.slip_ratio@);
    assert(p30.len() == 148);
    layout::lemma_f32s_size(v.tyre_slip@);
    assert(p31.len() == 164);
    layout::lemma_f32s_size(v.nd_slip@);
    assert(p32.len() == 180);
    layout::lemma_f32s_size(v.load@);
    assert(p33.len() == 196);
    layout::lemma_f32s_size(v.dy@);
    assert(p34.len() == 212);
    layout::lemma_f32s_size(v.mz@);
    assert(p35.len() == 228);
    layout::lemma_f32s_size(v.tyre_dirty_level@);
    assert(p36.len() == 244);
    layout::lemma_f32s_size(v.camber_rad@);
    assert(p37.len() == 260);
    layout::lemma_f32s_size(v.tyre_radius@);
    assert(p38.len() == 276);
    layout::lemma_f32s_size(v.tyre_loaded_radius@);
    assert(p39.len() == 292);
    layout::lemma_f32s_size(v.suspension_height@);
    assert(p40.len() == 308);
    layout::lemma_f32_size(v.car_position_normalized);
    assert(p41.len() == 312);
    layout::lemma_f32_size(v.car_slope);
    assert(p42.len() == 316);
    layout::lemma_f32s_size(v.car_coordinates@);
    assert(p43.len() == 328);
    layout::lemma_split(b, at, p42, layout::f32s_image(v.car_coordinates@));
    layout::lemma_f32s_stand(b, at + 316, v.car_coordinates@);
    layout::lemma_split(b, at, p41, layout::f32_image(v.car_slope));
    layout::lemma_f32_stands(b, at + 312, v.car_slope);
    layout::lemma_split(b, at, p40, layout::f32_image(v.car_position_normalized));
    layout::lemma_f32_stands(b, at + 308, v.car_position_normalized);
    layout::lemma_split(b, at, p39, layout::f32s_image(v.suspension_height@));
    layout::lemma_f32s_stand(b, at + 292, v.suspension_height@);
    layout::lemma_split(b, at, p38, layout::f32s_image(v.tyre_loaded_radius@));
    layout::lemma_f32s_stand(b, at + 276, v.tyre_loaded_radius@);
    layout::lemma_split(b, at, p37, layout::f32s_image(v.tyre_radius@));
    layout::lemma_f32s_stand(b, at + 260, v.tyre_radius@);
    layout::lemma_split(b, at, p36, layout::f32s_image(v.camber_rad@));
    layout::lemma_f32s_stand(b, at + 244, v.camber_rad@);
    layout::lemma_split(b, at, p35, layout::f32s_image(v.tyre_dirty_level@));
    layout::lemma_f32s_stand(b, at + 228, v.tyre_dirty_level@);
    layout::lemma_split(b, at, p34, layout::f32s_image(v.mz@));
    layout::lemma_f32s_stand(b, at + 212, v.mz@);
    layout::lemma_split(b, at, p33, layout::f32s_image(v.dy@));
    layout::lemma_f32s_stand(b, at + 196, v.dy@);
    layout::lemma_split(b, at, p32, layout::f32s_image(v.load@));
    layout::lemma_f32s_stand(b, at + 180, v.load@);
    layout::lemma_split(b, at, p31, layout::f32s_image(v.nd_slip@));
    layout::lemma_f32s_stand(b, at + 164, v.nd_slip@);
    layout::lemma_split(b, at, p30, layout::f32s_image(v.tyre_slip@));
    layout::lemma_f32s_stand(b, at + 148, v.tyre_slip@);
    layout::lemma_split(b, at, p29, layout::f32s_image(v.slip_ratio@));
    layout::lemma_f32s_stand(b, at + 132, v.slip_ratio@);
    layout::lemma_split(b, at, p28, layout::f32s_image(v.slip_angle_contact_patch@));
    layout::lemma_f32s_stand(b, at + 116, v.slip_angle_contact_patch@);
    layout::lemma_split(b, at, p27, layout::f32s_image(v.slip_angle@));
    layout::lemma_f32s_stand(b, at + 100, v.slip_angle@);
    layout::lemma_split(b, at, p26, layout::f32s_image(v.wheel_angular_speed@));
    layout::lemma_f32s_stand(b, at + 84, v.wheel_angular_speed@);
    layout::lemma_split(b, at, p25, layout::f32_image(v.cg_height));
    layout::lemma_f32_stands(b, at + 80, v.cg_height);
    layout::lemma_split(b, at, p24, wire::i32_image(v.gear));
    layout::lemma_i32_stands(b, at + 76, v.gear);
    layout::lemma_split(b, at, p23, layout::f32_image(v.steer));
    layout::lemma_f32_stands(b, at + 72, v.steer);
    layout::lemma_split(b, at, p22, layout::f32_image(v.engine_rpm));
    layout::lemma_f32_stands(b, at + 68, v.engine_rpm);
    layout::lemma_split(b, at, p21, layout::f32_image(v.clutch));
    layout::lemma_f32_stands(b, at + 64, v.clutch);
    layout::lemma_split(b, at, p20, layout::f32_image(v.brake));
    layout::lemma_f32_stands(b, at + 60, v.brake);
    layout::lemma_split(b, at, p19, layout::f32_image(v.gas));
    layout::lemma_f32_stands(b, at + 56, v.gas);
    layout::lemma_split(b, at, p18, wire::i32_image(v.lap_count));
    layout::lemma_i32_stands(b, at + 52, v.lap_count);
    layout::lemma_split(b, at, p17, wire::i32_image(v.best_lap));
    layout::lemma_i32_stands(b, at + 48, v.best_lap);
    layout::lemma_split(b, at, p16, wire::i32_image(v.last_lap));
    layout::lemma_i32_stands(b, at + 44, v.last_lap);
    layout::lemma_split(b, at, p15, wire::i32_image(v.lap_time));
    layout::lemma_i32_stands(b, at + 40, v.lap_time);
    layout::lemma_split(b, at, p14, layout::f32_image(v.acc_g_frontal));
    layout::lemma_f32_stands(b, at + 36, v.acc_g_frontal);
    layout::lemma_split(b, at, p13, layout::f32_image(v.acc_g_horizontal));
    layout::lemma_f32_stands(b, at + 32, v.acc_g_horizontal);
    layout::lemma_split(b, at, p12, layout::f32_image(v.acc_g_vertical));
    layout::lemma_f32_stands(b, at + 28, v.acc_g_vertical);
    layout::lemma_split(b, at, p11, second_gap);
    layout::lemma_split(b, at, p10, seq![v.is_engine_limiter_on]);
    layout::lemma_u8_stands(b, at + 25, v.is_engine_limiter_on);
    layout::lemma_split(b, at, p9, seq![v.is_in_pit]);
    layout::lemma_u8_stands(b, at + 24, v.is_in_pit);
    layout::lemma_split(b, at, p8, seq![v.is_tc_enabled]);
    layout::lemma_u8_stands(b, at + 23, v.is_tc_enabled);
    layout::lemma_split(b, at, p7, seq![v.is_tc_in_action]);
    layout::lemma_u8_stands(b, at + 22, v.is_tc_in_action);
    layout::lemma_split(b, at, p6, seq![v.is_abs_in_action]);
    layout::lemma_u8_stands(b, at + 21, v.is_abs_in_action);
    layout::lemma_split(b, at, p5, seq![v.is_abs_enabled]);
    layout::lemma_u8_stands(b, at + 20, v.is_abs_enabled);
    layout::lemma_split(b, at, p4, layout::f32_image(v.speed_ms));
    layout::lemma_f32_stands(b, at + 16, v.speed_ms);
    layout::lemma_split(b, at, p3, layout::f32_image(v.speed_mph));
    layout::lemma_f32_stands(b, at + 12, v.speed_mph);
    layout::lemma_split(b, at, p2, layout::f32_image(v.speed_kmh));
    layout::lemma_f32_stands(b, at + 8, v.speed_kmh);
    layout::lemma_split(b, at, p1, wire::i32_image(v.size));
    layout::lemma_i32_stands(b, at + 4, v.size);
    layout::lemma_split(b, at, p0, gap);
    layout::lemma_u8_stands(b, at, v.identifier);
}

/// Whatever is read where the bytes of a car state stand is that car state, field
/// by field, whatever stands in the gaps.
pub proof fn lemma_car_info_read_back(
    sent: RtCarInfo,
    received: RtCarInfo,
    gap: Seq<u8>,
    second_gap: Seq<u8>,
    b: Seq<u8>,
    at: int,
)
    requires
        gap.len() == 3,
        second_gap.len() == 2,
        0 <= at,
        at + 328 <= b.len(),
        b.subrange(at, at + 328) == car_info_image(sent, gap, second_gap),
        received.decodes(b, at),
    ensures
        received == sent,
{
    lemma_car_info_size(sent, gap, second_gap);
    layout::lemma_stands(b, at, car_info_image(sent, gap, second_gap));
    lemma_car_info_stands(sent, gap, second_gap, b, at);
    assert(received.wheel_angular_speed@ == sent.wheel_angular_speed@);
    assert(received.wheel_angular_speed =~= sent.wheel_angular_speed);
    assert(received.slip_angle@ == sent.slip_angle@);
    assert(received.slip_angle =~= sent.slip_angle);
    assert(received.slip_angle_contact_patch@ == sent.slip_angle_contact_patch@);
    assert(received.slip_angle_contact_patch =~= sent.slip_angle_contact_patch);
    assert(received.slip_ratio@ == sent.slip_ratio@);
    assert(received.slip_ratio =~= sent.slip_ratio);
    assert(received.tyre_slip@ == sent.tyre_slip@);
    assert(received.tyre_slip =~= sent.tyre_slip);
    assert(received.nd_slip@ == sent.nd_slip@);
    assert(received.nd_slip =~= sent.nd_slip);
    assert(received.load@ == sent.load@);
    assert(received.load =~= sent.load);
    assert(received.dy@ == sent.dy@);
    assert(received.dy =~= sent.dy);
    assert(received.mz@ == sent.mz@);
    assert(received.mz =~= sent.mz);
    assert(received.tyre_dirty_level@ == sent.tyre_dirty_level@);
    assert(received.tyre_dirty_level =~= sent.tyre_dirty_level);
    assert(received.camber_rad@ == sent.camber_rad@);
    assert(received.camber_rad =~= sent.camber_rad);
    assert(received.tyre_radius@ == sent.tyre_radius@);
    assert(received.tyre_radius =~= sent.tyre_radius);
    assert(received.tyre_loaded_radius@ == sent.tyre_loaded_radius@);
    assert(received.tyre_loaded_radius =~= sent.tyre_loaded_radius);
    assert(received.suspension_height@ == sent.suspension_height@);
    assert(received.suspension_height =~= sent.suspension_height);
    assert(received.car_coordinates@ == sent.car_coordinates@);
    assert(received.car_coordinates =~= sent.car_coordinates);
}

} // verus!
