//! Messages of Assetto Corsa Competizione, as the game sends them.

use vstd::prelude::*;

use crate::assetto_corsa_competizione;
use crate::assetto_corsa_competizione::{Car, Lap, Registration, Said, Session};
use crate::binary32;
use crate::binary32::Binary32;
use crate::layout;
use crate::wire;

verus! {

/// The 32-bit numbers of a list, one after the other.
pub open spec fn i32s_image(s: Seq<i32>) -> Seq<u8> {
    layout::run(s, |n: i32| wire::i32_image(n))
}

/// A text behind its length.
#[verifier::opaque]
pub open spec fn text_image(s: Seq<char>) -> Seq<u8> {
    wire::u16_image(vstd::utf8::encode_utf8(s).len() as u16) + vstd::utf8::encode_utf8(s)
}

/// Whether a text fits behind a 16-bit length.
pub open spec fn fits(s: Seq<char>) -> bool {
    vstd::utf8::encode_utf8(s).len() <= 0xFFFF
}

/// Whether a flag byte stands for a truth value: any byte but zero says yes.
pub open spec fn says(flag: u8, yes: bool) -> bool {
    (flag != 0) == yes
}

/// Whether a lap can be sent with these flag bytes: the first says whether the lap
/// is invalid, the second whether it counts as a best lap, the third whether it is
/// an out lap and the fourth whether it is an in lap.
pub open spec fn lap_flags(lap: Lap, flags: Seq<u8>) -> bool {
    &&& flags.len() == 4
    &&& says(flags[0], lap.is_invalid)
    &&& says(flags[1], lap.is_valid_for_best)
    &&& says(flags[2], lap.is_outlap)
    &&& says(flags[3], lap.is_inlap)
    &&& lap.splits_ms.len() <= 255
}

/// A lap: its time, the car, the driver, the splits behind their number, and the
/// flags.
#[verifier::opaque]
pub open spec fn lap_image(lap: Lap, flags: Seq<u8>) -> Seq<u8> {
    wire::i32_image(lap.lap_time_ms)
        + wire::u16_image(lap.car_index)
        + wire::u16_image(lap.driver_index)
        + seq![lap.splits_ms.len() as u8]
        + i32s_image(lap.splits_ms)
        + flags
}

proof fn lemma_i32s_size(s: Seq<i32>)
    ensures
        i32s_image(s).len() == 4 * s.len(),
{
    layout::lemma_run_size(s, |n: i32| wire::i32_image(n), 4);
}

proof fn lemma_i32s_stand(b: Seq<u8>, at: int, s: Seq<i32>)
    requires
        layout::stands(b, at, i32s_image(s)),
    ensures
        forall|k: int| 0 <= k < s.len() ==> #[trigger] s[k] == wire::i32_at(b, at + 4 * k),
{
    let f = |n: i32| wire::i32_image(n);
    layout::lemma_run_stands(b, at, s, f, 4);
    assert forall|k: int| 0 <= k < s.len() implies #[trigger] s[k] == wire::i32_at(b, at + 4 * k) by {
        assert(layout::stands(b, at + 4 * k, f(s[k])));
        layout::lemma_i32_stands(b, at + 4 * k, s[k]);
    }
}

pub proof fn lemma_lap_size(lap: Lap, flags: Seq<u8>)
    requires
        flags.len() == 4,
    ensures
        lap_image(lap, flags).len() == 13 + 4 * lap.splits_ms.len(),
{
    reveal(lap_image);
    lemma_i32s_size(lap.splits_ms);
}

/// A lap is read back, every field as it was.
pub proof fn lemma_lap_read_back(lap: Lap, flags: Seq<u8>, b: Seq<u8>, p: int)
    requires
        lap_flags(lap, flags),
        layout::stands(b, p, lap_image(lap, flags)),
    ensures
        assetto_corsa_competizione::lap_at(b, p) == Some(
            (lap, p + lap_image(lap, flags).len()),
        ),
{
    reveal(lap_image);
    lemma_lap_size(lap, flags);
    lemma_i32s_size(lap.splits_ms);
    let n = lap.splits_ms.len();
    let p0 = wire::i32_image(lap.lap_time_ms);
    let p1 = p0 + wire::u16_image(lap.car_index);
    let p2 = p1 + wire::u16_image(lap.driver_index);
    let p3 = p2 + seq![n as u8];
    let p4 = p3 + i32s_image(lap.splits_ms);
    assert(p0.len() == 4 && p1.len() == 6 && p2.len() == 8 && p3.len() == 9);
    assert(p4.len() == 9 + 4 * n);
    layout::lemma_stands(b, p, lap_image(lap, flags));
    layout::lemma_split(b, p, p4, flags);
    layout::lemma_split(b, p, p3, i32s_image(lap.splits_ms));
    layout::lemma_split(b, p, p2, seq![n as u8]);
    layout::lemma_split(b, p, p1, wire::u16_image(lap.driver_index));
    layout::lemma_split(b, p, p0, wire::u16_image(lap.car_index));
    layout::lemma_i32_stands(b, p, lap.lap_time_ms);
    layout::lemma_u16_stands(b, p + 4, lap.car_index);
    layout::lemma_u16_stands(b, p + 6, lap.driver_index);
    layout::lemma_u8_stands(b, p + 8, n as u8);
    lemma_i32s_stand(b, p + 9, lap.splits_ms);
    let q = p + 9 + 4 * n;
    layout::lemma_bytes_stand(b, q, flags);
    assert(b.subrange(q, q + 4)[0] == b[q]);
    assert(b.subrange(q, q + 4)[1] == b[q + 1]);
    assert(b.subrange(q, q + 4)[2] == b[q + 2]);
    assert(b.subrange(q, q + 4)[3] == b[q + 3]);
    assert(Seq::new(n, |i: int| wire::i32_at(b, p + 9 + 4 * i)) =~= lap.splits_ms);
}

/// A text is read back.
pub proof fn lemma_text_read_back(s: Seq<char>, b: Seq<u8>, p: int)
    requires
        fits(s),
        layout::stands(b, p, text_image(s)),
    ensures
        assetto_corsa_competizione::string_at(b, p) == Some((s, p + text_image(s).len())),
        text_image(s).len() == 2 + vstd::utf8::encode_utf8(s).len(),
{
    reveal(text_image);
    let bytes = vstd::utf8::encode_utf8(s);
    assert(bytes.take(bytes.len() as int) == bytes);
    assert(text_image(s) == assetto_corsa_competizione::string_image(s));
    layout::lemma_stands(b, p, text_image(s));
    assetto_corsa_competizione::lemma_string_read_back(s, b, p);
}

/// Whether the answer to a registration can be sent with these bytes: the first
/// says whether it was accepted, and the second is zero where the client may only
/// watch.
pub open spec fn registration_flags(r: Registration, accepted: u8, may_command: u8) -> bool {
    &&& says(accepted, r.success)
    &&& says(may_command, !r.readonly)
    &&& fits(r.error_message)
}

/// The answer to a registration.
pub open spec fn registration_image(r: Registration, accepted: u8, may_command: u8) -> Seq<u8> {
    wire::i32_image(r.connection_id)
        + seq![accepted]
        + seq![may_command]
        + text_image(r.error_message)
}

/// The answer to a registration is read back, every field as it was.
pub proof fn lemma_registration_read_back(
    r: Registration,
    accepted: u8,
    may_command: u8,
    b: Seq<u8>,
    p: int,
)
    requires
        registration_flags(r, accepted, may_command),
        layout::stands(b, p, registration_image(r, accepted, may_command)),
    ensures
        assetto_corsa_competizione::registration_at(b, p) == Some(
            (r, p + registration_image(r, accepted, may_command).len()),
        ),
{
    let p0 = wire::i32_image(r.connection_id);
    let p1 = p0 + seq![accepted];
    let p2 = p1 + seq![may_command];
    assert(p0.len() == 4 && p1.len() == 5 && p2.len() == 6);
    layout::lemma_stands(b, p, registration_image(r, accepted, may_command));
    layout::lemma_split(b, p, p2, text_image(r.error_message));
    layout::lemma_split(b, p, p1, seq![may_command]);
    layout::lemma_split(b, p, p0, seq![accepted]);
    layout::lemma_i32_stands(b, p, r.connection_id);
    layout::lemma_u8_stands(b, p + 4, accepted);
    layout::lemma_u8_stands(b, p + 5, may_command);
    lemma_text_read_back(r.error_message, b, p + 6);
}

/// Whether a session can be sent with these bytes: one that says whether a replay
/// is playing, three that count tenths of clouds, rain and wetness, and the flags
/// of the best lap.
pub open spec fn session_flags(
    s: Session,
    replay: u8,
    clouds: u8,
    rain: u8,
    wetness: u8,
    flags: Seq<u8>,
) -> bool {
    &&& says(replay, s.is_replay_playing)
    &&& s.is_replay_playing == (s.replay_session_time_ms is Some)
    &&& s.is_replay_playing == (s.replay_remaining_time_ms is Some)
    &&& s.clouds == assetto_corsa_competizione::tenths(clouds)
    &&& s.rain_level == assetto_corsa_competizione::tenths(rain)
    &&& s.wetness == assetto_corsa_competizione::tenths(wetness)
    &&& lap_flags(s.best_session_lap, flags)
    &&& fits(s.active_camera_set)
    &&& fits(s.active_camera)
    &&& fits(s.current_hud_page)
}

/// What stands before the texts of a session.
#[verifier::opaque]
pub open spec fn session_head(s: Session) -> Seq<u8> {
    wire::u16_image(s.event_index)
        + wire::u16_image(s.session_index)
        + seq![s.session_type]
        + seq![s.phase]
        + layout::f32_image(s.session_time_ms)
        + layout::f32_image(s.session_end_time_ms)
        + wire::i32_image(s.focused_car_index)
}

/// Whether a replay is playing, and its times where it is.
#[verifier::opaque]
pub open spec fn replay_image(s: Session, replay: u8) -> Seq<u8> {
    if s.is_replay_playing {
        seq![replay] + wire::i32_image(s.replay_session_time_ms->0) + wire::i32_image(
            s.replay_remaining_time_ms->0,
        )
    } else {
        seq![replay]
    }
}

/// The time of day and the weather.
#[verifier::opaque]
pub open spec fn weather_image(s: Session, clouds: u8, rain: u8, wetness: u8) -> Seq<u8> {
    layout::f32_image(s.time_of_day_seconds)
        + layout::i8_image(s.ambient_temp_c)
        + layout::i8_image(s.track_temp_c)
        + seq![clouds]
        + seq![rain]
        + seq![wetness]
}

/// A session.
pub open spec fn session_image(
    s: Session,
    replay: u8,
    clouds: u8,
    rain: u8,
    wetness: u8,
    flags: Seq<u8>,
) -> Seq<u8> {
    session_head(s)
        + text_image(s.active_camera_set)
        + text_image(s.active_camera)
        + text_image(s.current_hud_page)
        + replay_image(s, replay)
        + weather_image(s, clouds, rain, wetness)
        + lap_image(s.best_session_lap, flags)
}

proof fn lemma_session_head(s: Session, b: Seq<u8>, p: int)
    requires
        layout::stands(b, p, session_head(s)),
    ensures
        session_head(s).len() == 18,
        s.event_index == wire::u16_at(b, p),
        s.session_index == wire::u16_at(b, p + 2),
        s.session_type == b[p + 4],
        s.phase == b[p + 5],
        s.session_time_ms == wire::f32_at(b, p + 6),
        s.session_end_time_ms == wire::f32_at(b, p + 10),
        s.focused_car_index == wire::i32_at(b, p + 14),
{
    reveal(session_head);
    let p0 = wire::u16_image(s.event_index);
    let p1 = p0 + wire::u16_image(s.session_index);
    let p2 = p1 + seq![s.session_type];
    let p3 = p2 + seq![s.phase];
    let p4 = p3 + layout::f32_image(s.session_time_ms);
    let p5 = p4 + layout::f32_image(s.session_end_time_ms);
    layout::lemma_f32_size(s.session_time_ms);
    layout::lemma_f32_size(s.session_end_time_ms);
    assert(p0.len() == 2 && p1.len() == 4 && p2.len() == 5 && p3.len() == 6);
    assert(p4.len() == 10 && p5.len() == 14);
    layout::lemma_split(b, p, p5, wire::i32_image(s.focused_car_index));
    layout::lemma_split(b, p, p4, layout::f32_image(s.session_end_time_ms));
    layout::lemma_split(b, p, p3, layout::f32_image(s.session_time_ms));
    layout::lemma_split(b, p, p2, seq![s.phase]);
    layout::lemma_split(b, p, p1, seq![s.session_type]);
    layout::lemma_split(b, p, p0, wire::u16_image(s.session_index));
    layout::lemma_u16_stands(b, p, s.event_index);
    layout::lemma_u16_stands(b, p + 2, s.session_index);
    layout::lemma_u8_stands(b, p + 4, s.session_type);
    layout::lemma_u8_stands(b, p + 5, s.phase);
    layout::lemma_f32_stands(b, p + 6, s.session_time_ms);
    layout::lemma_f32_stands(b, p + 10, s.session_end_time_ms);
    layout::lemma_i32_stands(b, p + 14, s.focused_car_index);
}

proof fn lemma_head_size(s: Session)
    ensures
        session_head(s).len() == 18,
{
    reveal(session_head);
    layout::lemma_f32_size(s.session_time_ms);
    layout::lemma_f32_size(s.session_end_time_ms);
}

proof fn lemma_replay_size(s: Session, replay: u8)
    ensures
        replay_image(s, replay).len() == if s.is_replay_playing {
            9int
        } else {
            1
        },
{
    reveal(replay_image);
}

proof fn lemma_weather_size(s: Session, clouds: u8, rain: u8, wetness: u8)
    ensures
        weather_image(s, clouds, rain, wetness).len() == 9,
{
    reveal(weather_image);
    layout::lemma_f32_size(s.time_of_day_seconds);
}

proof fn lemma_replay(s: Session, replay: u8, b: Seq<u8>, p: int)
    requires
        layout::stands(b, p, replay_image(s, replay)),
    ensures
        b[p] == replay,
        s.is_replay_playing ==> s.replay_session_time_ms->0 == wire::i32_at(b, p + 1)
            && s.replay_remaining_time_ms->0 == wire::i32_at(b, p + 5),
{
    reveal(replay_image);
    if s.is_replay_playing {
        let p0 = seq![replay];
        let p1 = p0 + wire::i32_image(s.replay_session_time_ms->0);
        assert(p0.len() == 1 && p1.len() == 5);
        layout::lemma_split(b, p, p1, wire::i32_image(s.replay_remaining_time_ms->0));
        layout::lemma_split(b, p, p0, wire::i32_image(s.replay_session_time_ms->0));
        layout::lemma_i32_stands(b, p + 1, s.replay_session_time_ms->0);
        layout::lemma_i32_stands(b, p + 5, s.replay_remaining_time_ms->0);
    }
    layout::lemma_u8_stands(b, p, replay);
}

proof fn lemma_weather(s: Session, clouds: u8, rain: u8, wetness: u8, b: Seq<u8>, p: int)
    requires
        layout::stands(b, p, weather_image(s, clouds, rain, wetness)),
    ensures
        s.time_of_day_seconds == wire::f32_at(b, p),
        s.ambient_temp_c == wire::i8_at(b, p + 4),
        s.track_temp_c == wire::i8_at(b, p + 5),
        b[p + 6] == clouds,
        b[p + 7] == rain,
        b[p + 8] == wetness,
{
    reveal(weather_image);
    layout::lemma_f32_size(s.time_of_day_seconds);
    let p0 = layout::f32_image(s.time_of_day_seconds);
    let p1 = p0 + layout::i8_image(s.ambient_temp_c);
    let p2 = p1 + layout::i8_image(s.track_temp_c);
    let p3 = p2 + seq![clouds];
    let p4 = p3 + seq![rain];
    assert(p1.len() == 5 && p2.len() == 6 && p3.len() == 7 && p4.len() == 8);
    layout::lemma_split(b, p, p4, seq![wetness]);
    layout::lemma_split(b, p, p3, seq![rain]);
    layout::lemma_split(b, p, p2, seq![clouds]);
    layout::lemma_split(b, p, p1, layout::i8_image(s.track_temp_c));
    layout::lemma_split(b, p, p0, layout::i8_image(s.ambient_temp_c));
    layout::lemma_f32_stands(b, p, s.time_of_day_seconds);
    layout::lemma_i8_stands(b, p + 4, s.ambient_temp_c);
    layout::lemma_i8_stands(b, p + 5, s.track_temp_c);
    layout::lemma_u8_stands(b, p + 6, clouds);
    layout::lemma_u8_stands(b, p + 7, rain);
    layout::lemma_u8_stands(b, p + 8, wetness);
}

/// A session is read back, every field as it was.
pub proof fn lemma_session_read_back(
    s: Session,
    replay: u8,
    clouds: u8,
    rain: u8,
    wetness: u8,
    flags: Seq<u8>,
    b: Seq<u8>,
    p: int,
)
    requires
        session_flags(s, replay, clouds, rain, wetness, flags),
        layout::stands(b, p, session_image(s, replay, clouds, rain, wetness, flags)),
    ensures
        assetto_corsa_competizione::session_at(b, p) == Some(
            (s, p + session_image(s, replay, clouds, rain, wetness, flags).len()),
        ),
{
    let p0 = session_head(s);
    let p1 = p0 + text_image(s.active_camera_set);
    let p2 = p1 + text_image(s.active_camera);
    let p3 = p2 + text_image(s.current_hud_page);
    let p4 = p3 + replay_image(s, replay);
    let p5 = p4 + weather_image(s, clouds, rain, wetness);
    let lap = s.best_session_lap;
    layout::lemma_stands(b, p, session_image(s, replay, clouds, rain, wetness, flags));
    layout::lemma_split(b, p, p5, lap_image(lap, flags));
    layout::lemma_split(b, p, p4, weather_image(s, clouds, rain, wetness));
    layout::lemma_split(b, p, p3, replay_image(s, replay));
    layout::lemma_split(b, p, p2, text_image(s.current_hud_page));
    layout::lemma_split(b, p, p1, text_image(s.active_camera));
    layout::lemma_split(b, p, p0, text_image(s.active_camera_set));
    lemma_head_size(s);
    lemma_replay_size(s, replay);
    lemma_weather_size(s, clouds, rain, wetness);
    lemma_session_head(s, b, p);
    lemma_text_read_back(s.active_camera_set, b, p + 18);
    lemma_text_read_back(s.active_camera, b, p + p1.len());
    lemma_text_read_back(s.current_hud_page, b, p + p2.len());
    lemma_replay(s, replay, b, p + p3.len());
    lemma_weather(s, clouds, rain, wetness, b, p + p4.len());
    lemma_lap_size(lap, flags);
    lemma_lap_read_back(lap, flags, b, p + p5.len());
    let got = assetto_corsa_competizione::session_at(b, p);
    assert(got is Some);
    assert((got->0).0 =~= s);
}

/// Whether a car can be sent with these flags of its best, last and current laps.
pub open spec fn car_flags(c: Car, best: Seq<u8>, last: Seq<u8>, current: Seq<u8>) -> bool {
    &&& lap_flags(c.best_session_lap, best)
    &&& lap_flags(c.last_lap, last)
    &&& lap_flags(c.current_lap, current)
}

/// What stands before the laps of a car. The gear is sent two higher, so that a
/// byte holds it.
#[verifier::opaque]
pub open spec fn car_head(c: Car) -> Seq<u8> {
    wire::u16_image(c.car_index)
        + wire::u16_image(c.driver_index)
        + seq![c.driver_count]
        + seq![((c.gear + 258) % 256) as u8]
        + layout::f32_image(c.world_pos_x)
        + layout::f32_image(c.world_pos_y)
        + layout::f32_image(c.yaw)
        + seq![c.car_location]
        + wire::u16_image(c.kmh)
        + wire::u16_image(c.position)
        + wire::u16_image(c.cup_position)
        + wire::u16_image(c.track_position)
        + layout::f32_image(c.spline_position)
        + wire::u16_image(c.laps)
        + wire::i32_image(c.delta_ms)
}

/// A car.
pub open spec fn car_image(c: Car, best: Seq<u8>, last: Seq<u8>, current: Seq<u8>) -> Seq<u8> {
    car_head(c)
        + lap_image(c.best_session_lap, best)
        + lap_image(c.last_lap, last)
        + lap_image(c.current_lap, current)
}

proof fn lemma_car_head_size(c: Car)
    ensures
        car_head(c).len() == 37,
{
    reveal(car_head);
    layout::lemma_f32_size(c.world_pos_x);
    layout::lemma_f32_size(c.world_pos_y);
    layout::lemma_f32_size(c.yaw);
    layout::lemma_f32_size(c.spline_position);
    let p3 = wire::u16_image(c.car_index) + wire::u16_image(c.driver_index) + seq![
        c.driver_count,
    ] + seq![((c.gear + 258) % 256) as u8];
    assert(p3.len() == 6);
    let p7 = p3 + layout::f32_image(c.world_pos_x) + layout::f32_image(c.world_pos_y)
        + layout::f32_image(c.yaw) + seq![c.car_location];
    assert(p7.len() == 19);
    let p11 = p7 + wire::u16_image(c.kmh) + wire::u16_image(c.position) + wire::u16_image(
        c.cup_position,
    ) + wire::u16_image(c.track_position);
    assert(p11.len() == 27);
}

proof fn lemma_car_head(c: Car, b: Seq<u8>, p: int)
    requires
        layout::stands(b, p, car_head(c)),
    ensures
        c.car_index == wire::u16_at(b, p),
        c.driver_index == wire::u16_at(b, p + 2),
        c.driver_count == b[p + 4],
        c.gear == wire::signed_8(((b[p + 5] + 254) % 256) as u8),
        c.world_pos_x == wire::f32_at(b, p + 6),
        c.world_pos_y == wire::f32_at(b, p + 10),
        c.yaw == wire::f32_at(b, p + 14),
        c.car_location == b[p + 18],
        c.kmh == wire::u16_at(b, p + 19),
        c.position == wire::u16_at(b, p + 21),
        c.cup_position == wire::u16_at(b, p + 23),
        c.track_position == wire::u16_at(b, p + 25),
        c.spline_position == wire::f32_at(b, p + 27),
        c.laps == wire::u16_at(b, p + 31),
        c.delta_ms == wire::i32_at(b, p + 33),
{
    reveal(car_head);
    let gear = ((c.gear + 258) % 256) as u8;
    let p0 = wire::u16_image(c.car_index);
    let p1 = p0 + wire::u16_image(c.driver_index);
    let p2 = p1 + seq![c.driver_count];
    let p3 = p2 + seq![gear];
    let p4 = p3 + layout::f32_image(c.world_pos_x);
    let p5 = p4 + layout::f32_image(c.world_pos_y);
    let p6 = p5 + layout::f32_image(c.yaw);
    let p7 = p6 + seq![c.car_location];
    let p8 = p7 + wire::u16_image(c.kmh);
    let p9 = p8 + wire::u16_image(c.position);
    let p10 = p9 + wire::u16_image(c.cup_position);
    let p11 = p10 + wire::u16_image(c.track_position);
    let p12 = p11 + layout::f32_image(c.spline_position);
    let p13 = p12 + wire::u16_image(c.laps);
    layout::lemma_f32_size(c.world_pos_x);
    layout::lemma_f32_size(c.world_pos_y);
    layout::lemma_f32_size(c.yaw);
    layout::lemma_f32_size(c.spline_position);
    assert(p0.len() == 2 && p1.len() == 4 && p2.len() == 5 && p3.len() == 6);
    assert(p4.len() == 10 && p5.len() == 14 && p6.len() == 18 && p7.len() == 19);
    assert(p8.len() == 21 && p9.len() == 23 && p10.len() == 25 && p11.len() == 27);
    assert(p12.len() == 31 && p13.len() == 33);
    layout::lemma_split(b, p, p13, wire::i32_image(c.delta_ms));
    layout::lemma_split(b, p, p12, wire::u16_image(c.laps));
    layout::lemma_split(b, p, p11, layout::f32_image(c.spline_position));
    layout::lemma_split(b, p, p10, wire::u16_image(c.track_position));
    layout::lemma_split(b, p, p9, wire::u16_image(c.cup_position));
    layout::lemma_split(b, p, p8, wire::u16_image(c.position));
    layout::lemma_split(b, p, p7, wire::u16_image(c.kmh));
    layout::lemma_split(b, p, p6, seq![c.car_location]);
    layout::lemma_split(b, p, p5, layout::f32_image(c.yaw));
    layout::lemma_split(b, p, p4, layout::f32_image(c.world_pos_y));
    layout::lemma_split(b, p, p3, layout::f32_image(c.world_pos_x));
    layout::lemma_split(b, p, p2, seq![gear]);
    layout::lemma_split(b, p, p1, seq![c.driver_count]);
    layout::lemma_split(b, p, p0, wire::u16_image(c.driver_index));
    layout::lemma_u16_stands(b, p, c.car_index);
    layout::lemma_u16_stands(b, p + 2, c.driver_index);
    layout::lemma_u8_stands(b, p + 4, c.driver_count);
    layout::lemma_u8_stands(b, p + 5, gear);
    lemma_gear(c.gear);
    layout::lemma_f32_stands(b, p + 6, c.world_pos_x);
    layout::lemma_f32_stands(b, p + 10, c.world_pos_y);
    layout::lemma_f32_stands(b, p + 14, c.yaw);
    layout::lemma_u8_stands(b, p + 18, c.car_location);
    layout::lemma_u16_stands(b, p + 19, c.kmh);
    layout::lemma_u16_stands(b, p + 21, c.position);
    layout::lemma_u16_stands(b, p + 23, c.cup_position);
    layout::lemma_u16_stands(b, p + 25, c.track_position);
    layout::lemma_f32_stands(b, p + 27, c.spline_position);
    layout::lemma_u16_stands(b, p + 31, c.laps);
    layout::lemma_i32_stands(b, p + 33, c.delta_ms);
}

proof fn lemma_gear(gear: i8)
    ensures
        wire::signed_8((((((gear + 258) % 256) as u8) + 254) % 256) as u8) == gear,
{
}

/// A car is read back, every field as it was.
pub proof fn lemma_car_read_back(
    c: Car,
    best: Seq<u8>,
    last: Seq<u8>,
    current: Seq<u8>,
    b: Seq<u8>,
    p: int,
)
    requires
        car_flags(c, best, last, current),
        layout::stands(b, p, car_image(c, best, last, current)),
    ensures
        assetto_corsa_competizione::car_at(b, p) == Some(
            (c, p + car_image(c, best, last, current).len()),
        ),
{
    let p0 = car_head(c);
    let p1 = p0 + lap_image(c.best_session_lap, best);
    let p2 = p1 + lap_image(c.last_lap, last);
    layout::lemma_stands(b, p, car_image(c, best, last, current));
    layout::lemma_split(b, p, p2, lap_image(c.current_lap, current));
    layout::lemma_split(b, p, p1, lap_image(c.last_lap, last));
    layout::lemma_split(b, p, p0, lap_image(c.best_session_lap, best));
    lemma_car_head_size(c);
    lemma_car_head(c, b, p);
    lemma_lap_read_back(c.best_session_lap, best, b, p + 37);
    lemma_lap_read_back(c.last_lap, last, b, p + p1.len());
    lemma_lap_read_back(c.current_lap, current, b, p + p2.len());
    let got = assetto_corsa_competizione::car_at(b, p);
    assert(got is Some);
    assert((got->0).0 =~= c);
}

/// A datagram that starts with the number one and the answer to a registration says
/// that answer.
pub proof fn lemma_registration_message(
    r: Registration,
    accepted: u8,
    may_command: u8,
    rest: Seq<u8>,
)
    requires
        registration_flags(r, accepted, may_command),
    ensures
        assetto_corsa_competizione::message_in(
            seq![1u8] + registration_image(r, accepted, may_command) + rest,
        ) == Some(Said::Registration(r)),
{
    let body = registration_image(r, accepted, may_command);
    let b = seq![1u8] + body + rest;
    lemma_behind_type(1, body, rest);
    lemma_registration_read_back(r, accepted, may_command, b, 1);
}

/// A datagram that starts with the number two and a session says that session.
pub proof fn lemma_session_message(
    s: Session,
    replay: u8,
    clouds: u8,
    rain: u8,
    wetness: u8,
    flags: Seq<u8>,
    rest: Seq<u8>,
)
    requires
        session_flags(s, replay, clouds, rain, wetness, flags),
    ensures
        assetto_corsa_competizione::message_in(
            seq![2u8] + session_image(s, replay, clouds, rain, wetness, flags) + rest,
        ) == Some(Said::Session(s)),
{
    let body = session_image(s, replay, clouds, rain, wetness, flags);
    let b = seq![2u8] + body + rest;
    lemma_behind_type(2, body, rest);
    lemma_session_read_back(s, replay, clouds, rain, wetness, flags, b, 1);
}

/// A datagram that starts with the number three and a car says that car.
pub proof fn lemma_car_message(
    c: Car,
    best: Seq<u8>,
    last: Seq<u8>,
    current: Seq<u8>,
    rest: Seq<u8>,
)
    requires
        car_flags(c, best, last, current),
    ensures
        assetto_corsa_competizione::message_in(
            seq![3u8] + car_image(c, best, last, current) + rest,
        ) == Some(Said::Car(c)),
{
    let body = car_image(c, best, last, current);
    let b = seq![3u8] + body + rest;
    lemma_behind_type(3, body, rest);
    lemma_car_read_back(c, best, last, current, b, 1);
}

/// A datagram of any other type is not decoded: it says its type and how many bytes
/// follow. An empty datagram says nothing.
pub proof fn lemma_other_message(msg_type: u8, body: Seq<u8>)
    requires
        !(1 <= msg_type <= 3),
    ensures
        assetto_corsa_competizione::message_in(seq![msg_type] + body) == Some(
            (Said::Other { msg_type, body_len: body.len() }),
        ),
        assetto_corsa_competizione::message_in(Seq::empty()) is None,
{
}

proof fn lemma_behind_type(msg_type: u8, body: Seq<u8>, rest: Seq<u8>)
    ensures
        ({
            let b = seq![msg_type] + body + rest;
            b.len() > 0 && b[0] == msg_type && layout::stands(b, 1, body)
        }),
{
    let b = seq![msg_type] + body + rest;
    assert(b.subrange(1, 1 + body.len() as int) =~= body);
    layout::lemma_stands(b, 1, body);
}

/// A byte that counts tenths is read as a tenth of its number, but for one part in
/// 2^24.
pub proof fn lemma_tenths(n: u8)
    ensures
        ({
            let r = assetto_corsa_competizione::tenths(n);
            let whole = n * binary32::exp2(149);
            &&& !r.nan() && !r.infinite() && !r.negative()
            &&& 0xFF_FFFF * whole <= 0x100_0000 * (10 * r.value()) <= 0x100_0001 * whole
        }),
{
    let u = binary32::exp2(149);
    let ten = Binary32 { bits: 0x4120_0000 };
    binary32::lemma_units_of_64_bits();
    binary32::lemma_value_of_10();
    binary32::lemma_small_whole_exact(n as nat);
    let a = n * u;
    let x = Binary32::nearest(n as int);
    assert(x.magnitude() == binary32::round_units(n as nat * u, 1));
    assert(!x.negative() && !x.nan() && !x.infinite());
    assert(binary32::units(x.magnitude()) == a);
    assert(!ten.negative() && !ten.nan() && !ten.infinite() && !ten.zero());
    assert(binary32::units(ten.magnitude()) == 10 * u);
    let m = binary32::round_units((a * u) as nat, 10 * u);
    lemma_quotient_by_ten(n as nat);
    assert(x.over(ten) == binary32::signed(false, m));
}

proof fn lemma_quotient_by_ten(n: nat)
    requires
        n <= 255,
    ensures
        ({
            let u = binary32::exp2(149);
            let m = binary32::round_units(n * u * u, 10 * u);
            &&& m < binary32::infinity()
            &&& 0xFF_FFFF * (n * u) <= 0x100_0000 * (10 * binary32::units(m)) <= 0x100_0001 * (n
                * u)
        }),
{
    let u = binary32::exp2(149);
    binary32::lemma_units_of_64_bits();
    assert(n * u * u == u * (n * u) && 10 * u == u * 10) by (nonlinear_arith);
    binary32::lemma_round_units_scales(u, n * u, 10);
    if n == 0 {
        assert(0 * u == 0) by (nonlinear_arith);
        binary32::lemma_round_units_zero(10);
        assert(binary32::units(0) == 0 * binary32::exp2(0));
    } else {
        assert(u <= n * u <= 255 * u) by (nonlinear_arith)
            requires
                1 <= n <= 255,
                u > 0,
        ;
        // A tenth of 255 is below 2^64.
        assert(n * u <= 10 * (0x1_0000_0000_0000_0000 * u));
        binary32::lemma_round_units_monotone(n * u, 10 * (0x1_0000_0000_0000_0000 * u), 10);
        binary32::lemma_round_units_scales(10, 0x1_0000_0000_0000_0000 * u, 1);
        binary32::lemma_round_units_exact(0x5F80_0000);
        binary32::lemma_relative_error(n * u, 10);
    }
}

} // verus!
