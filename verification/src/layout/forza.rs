//! The header of Forza packets.

use vstd::prelude::*;

use crate::forza::Header;
use crate::layout;
use crate::layout::Packed;
use crate::wire;

verus! {

impl Packed for Header {
    open spec fn image(self) -> Seq<u8> {
        wire::u32_image(self.is_race_on)
            + wire::u32_image(self.timestamp_ms)
            + layout::f32_image(self.engine_max_rpm)
            + layout::f32_image(self.engine_idle_rpm)
            + layout::f32_image(self.current_engine_rpm)
    }

    proof fn lemma_read_back(self, b: Seq<u8>, at: int) {
        self.lemma_image_size();
        let p0 = wire::u32_image(self.is_race_on);
        let p1 = p0 + wire::u32_image(self.timestamp_ms);
        let p2 = p1 + layout::f32_image(self.engine_max_rpm);
        let p3 = p2 + layout::f32_image(self.engine_idle_rpm);
        let p4 = p3 + layout::f32_image(self.current_engine_rpm);
        assert(p0.len() == 4);
        assert(p1.len() == 8);
        layout::lemma_f32_size(self.engine_max_rpm);
        assert(p2.len() == 12);
        layout::lemma_f32_size(self.engine_idle_rpm);
        assert(p3.len() == 16);
        layout::lemma_f32_size(self.current_engine_rpm);
        assert(p4.len() == 20);
        layout::lemma_split(b, at, p3, layout::f32_image(self.current_engine_rpm));
        layout::lemma_f32_stands(b, at + 16, self.current_engine_rpm);
        layout::lemma_split(b, at, p2, layout::f32_image(self.engine_idle_rpm));
        layout::lemma_f32_stands(b, at + 12, self.engine_idle_rpm);
        layout::lemma_split(b, at, p1, layout::f32_image(self.engine_max_rpm));
        layout::lemma_f32_stands(b, at + 8, self.engine_max_rpm);
        layout::lemma_split(b, at, p0, wire::u32_image(self.timestamp_ms));
        layout::lemma_u32_stands(b, at + 4, self.timestamp_ms);
        layout::lemma_u32_stands(b, at, self.is_race_on);
    }

    proof fn lemma_image_size(self) {
        let p0 = wire::u32_image(self.is_race_on);
        let p1 = p0 + wire::u32_image(self.timestamp_ms);
        let p2 = p1 + layout::f32_image(self.engine_max_rpm);
        let p3 = p2 + layout::f32_image(self.engine_idle_rpm);
        let p4 = p3 + layout::f32_image(self.current_engine_rpm);
        assert(p0.len() == 4);
        assert(p1.len() == 8);
        layout::lemma_f32_size(self.engine_max_rpm);
        assert(p2.len() == 12);
        layout::lemma_f32_size(self.engine_idle_rpm);
        assert(p3.len() == 16);
        layout::lemma_f32_size(self.current_engine_rpm);
        assert(p4.len() == 20);
    }

    proof fn lemma_one_reading(self, other: Self, b: Seq<u8>, at: int) {
    }
}

} // verus!
