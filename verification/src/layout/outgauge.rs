//! OutGauge packets.

use vstd::prelude::*;

use crate::outgauge::Packet;
use crate::layout;
use crate::layout::Packed;
use crate::wire;

verus! {

impl Packed for Packet {
    open spec fn image(self) -> Seq<u8> {
        wire::u32_image(self.time)
            + self.car@
            + wire::u16_image(self.flags)
            + layout::i8_image(self.gear)
            + layout::i8_image(self.plid)
            + layout::f32_image(self.speed)
            + layout::f32_image(self.rpm)
            + layout::f32_image(self.turbo)
            + layout::f32_image(self.eng_temp)
            + layout::f32_image(self.fuel)
            + layout::f32_image(self.oil_pressure)
            + layout::f32_image(self.oil_temp)
            + wire::u32_image(self.dash_lights)
            + wire::u32_image(self.show_lights)
            + layout::f32_image(self.throttle)
            + layout::f32_image(self.brake)
            + layout::f32_image(self.clutch)
            + self.display1@
            + self.display2@
            + wire::i32_image(self.id)
    }

    proof fn lemma_read_back(self, b: Seq<u8>, at: int) {
        self.lemma_image_size();
        let p0 = wire::u32_image(self.time);
        let p1 = p0 + self.car@;
        let p2 = p1 + wire::u16_image(self.flags);
        let p3 = p2 + layout::i8_image(self.gear);
        let p4 = p3 + layout::i8_image(self.plid);
        let p5 = p4 + layout::f32_image(self.speed);
        let p6 = p5 + layout::f32_image(self.rpm);
        let p7 = p6 + layout::f32_image(self.turbo);
        let p8 = p7 + layout::f32_image(self.eng_temp);
        let p9 = p8 + layout::f32_image(self.fuel);
        let p10 = p9 + layout::f32_image(self.oil_pressure);
        let p11 = p10 + layout::f32_image(self.oil_temp);
        let p12 = p11 + wire::u32_image(self.dash_lights);
        let p13 = p12 + wire::u32_image(self.show_lights);
        let p14 = p13 + layout::f32_image(self.throttle);
        let p15 = p14 + layout::f32_image(self.brake);
        let p16 = p15 + layout::f32_image(self.clutch);
        let p17 = p16 + self.display1@;
        let p18 = p17 + self.display2@;
        let p19 = p18 + wire::i32_image(self.id);
        assert(p0.len() == 4);
        assert(p1.len() == 8);
        assert(p2.len() == 10);
        assert(p3.len() == 11);
        assert(p4.len() == 12);
        layout::lemma_f32_size(self.speed);
        assert(p5.len() == 16);
        layout::lemma_f32_size(self.rpm);
        assert(p6.len() == 20);
        layout::lemma_f32_size(self.turbo);
        assert(p7.len() == 24);
        layout::lemma_f32_size(self.eng_temp);
        assert(p8.len() == 28);
        layout::lemma_f32_size(self.fuel);
        assert(p9.len() == 32);
        layout::lemma_f32_size(self.oil_pressure);
        assert(p10.len() == 36);
        layout::lemma_f32_size(self.oil_temp);
        assert(p11.len() == 40);
        assert(p12.len() == 44);
        assert(p13.len() == 48);
        layout::lemma_f32_size(self.throttle);
        assert(p14.len() == 52);
        layout::lemma_f32_size(self.brake);
        assert(p15.len() == 56);
        layout::lemma_f32_size(self.clutch);
        assert(p16.len() == 60);
        assert(p17.len() == 76);
        assert(p18.len() == 92);
        assert(p19.len() == 96);
        layout::lemma_split(b, at, p18, wire::i32_image(self.id));
        layout::lemma_i32_stands(b, at + 92, self.id);
        layout::lemma_split(b, at, p17, self.display2@);
        layout::lemma_bytes_stand(b, at + 76, self.display2@);
        layout::lemma_split(b, at, p16, self.display1@);
        layout::lemma_bytes_stand(b, at + 60, self.display1@);
        layout::lemma_split(b, at, p15, layout::f32_image(self.clutch));
        layout::lemma_f32_stands(b, at + 56, self.clutch);
        layout::lemma_split(b, at, p14, layout::f32_image(self.brake));
        layout::lemma_f32_stands(b, at + 52, self.brake);
        layout::lemma_split(b, at, p13, layout::f32_image(self.throttle));
        layout::lemma_f32_stands(b, at + 48, self.throttle);
        layout::lemma_split(b, at, p12, wire::u32_image(self.show_lights));
        layout::lemma_u32_stands(b, at + 44, self.show_lights);
        layout::lemma_split(b, at, p11, wire::u32_image(self.dash_lights));
        layout::lemma_u32_stands(b, at + 40, self.dash_lights);
        layout::lemma_split(b, at, p10, layout::f32_image(self.oil_temp));
        layout::lemma_f32_stands(b, at + 36, self.oil_temp);
        layout::lemma_split(b, at, p9, layout::f32_image(self.oil_pressure));
        layout::lemma_f32_stands(b, at + 32, self.oil_pressure);
        layout::lemma_split(b, at, p8, layout::f32_image(self.fuel));
        layout::lemma_f32_stands(b, at + 28, self.fuel);
        layout::lemma_split(b, at, p7, layout::f32_image(self.eng_temp));
        layout::lemma_f32_stands(b, at + 24, self.eng_temp);
        layout::lemma_split(b, at, p6, layout::f32_image(self.turbo));
        layout::lemma_f32_stands(b, at + 20, self.turbo);
        layout::lemma_split(b, at, p5, layout::f32_image(self.rpm));
        layout::lemma_f32_stands(b, at + 16, self.rpm);
        layout::lemma_split(b, at, p4, layout::f32_image(self.speed));
        layout::lemma_f32_stands(b, at + 12, self.speed);
        layout::lemma_split(b, at, p3, layout::i8_image(self.plid));
        layout::lemma_i8_stands(b, at + 11, self.plid);
        layout::lemma_split(b, at, p2, layout::i8_image(self.gear));
        layout::lemma_i8_stands(b, at + 10, self.gear);
        layout::lemma_split(b, at, p1, wire::u16_image(self.flags));
        layout::lemma_u16_stands(b, at + 8, self.flags);
        layout::lemma_split(b, at, p0, self.car@);
        layout::lemma_bytes_stand(b, at + 4, self.car@);
        layout::lemma_u32_stands(b, at, self.time);
    }

    proof fn lemma_image_size(self) {
        let p0 = wire::u32_image(self.time);
        let p1 = p0 + self.car@;
        let p2 = p1 + wire::u16_image(self.flags);
        let p3 = p2 + layout::i8_image(self.gear);
        let p4 = p3 + layout::i8_image(self.plid);
        let p5 = p4 + layout::f32_image(self.speed);
        let p6 = p5 + layout::f32_image(self.rpm);
        let p7 = p6 + layout::f32_image(self.turbo);
        let p8 = p7 + layout::f32_image(self.eng_temp);
        let p9 = p8 + layout::f32_image(self.fuel);
        let p10 = p9 + layout::f32_image(self.oil_pressure);
        let p11 = p10 + layout::f32_image(self.oil_temp);
        let p12 = p11 + wire::u32_image(self.dash_lights);
        let p13 = p12 + wire::u32_image(self.show_lights);
        let p14 = p13 + layout::f32_image(self.throttle);
        let p15 = p14 + layout::f32_image(self.brake);
        let p16 = p15 + layout::f32_image(self.clutch);
        let p17 = p16 + self.display1@;
        let p18 = p17 + self.display2@;
        let p19 = p18 + wire::i32_image(self.id);
        assert(p0.len() == 4);
        assert(p1.len() == 8);
        assert(p2.len() == 10);
        assert(p3.len() == 11);
        assert(p4.len() == 12);
        layout::lemma_f32_size(self.speed);
        assert(p5.len() == 16);
        layout::lemma_f32_size(self.rpm);
        assert(p6.len() == 20);
        layout::lemma_f32_size(self.turbo);
        assert(p7.len() == 24);
        layout::lemma_f32_size(self.eng_temp);
        assert(p8.len() == 28);
        layout::lemma_f32_size(self.fuel);
        assert(p9.len() == 32);
        layout::lemma_f32_size(self.oil_pressure);
        assert(p10.len() == 36);
        layout::lemma_f32_size(self.oil_temp);
        assert(p11.len() == 40);
        assert(p12.len() == 44);
        assert(p13.len() == 48);
        layout::lemma_f32_size(self.throttle);
        assert(p14.len() == 52);
        layout::lemma_f32_size(self.brake);
        assert(p15.len() == 56);
        layout::lemma_f32_size(self.clutch);
        assert(p16.len() == 60);
        assert(p17.len() == 76);
        assert(p18.len() == 92);
        assert(p19.len() == 96);
    }

    proof fn lemma_one_reading(self, other: Self, b: Seq<u8>, at: int) {
        assert(self.car@ == other.car@);
        assert(self.car =~= other.car);
        assert(self.display1@ == other.display1@);
        assert(self.display1 =~= other.display1);
        assert(self.display2@ == other.display2@);
        assert(self.display2 =~= other.display2);
    }
}

} // verus!
