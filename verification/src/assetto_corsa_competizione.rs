//! The broadcasting protocol of Assetto Corsa Competizione.
//!
//! A datagram is a message type and a body. Numbers have their low byte first;
//! a string is UTF-8 behind its 16-bit length. A client registers with a
//! password and then gets updates of the session and of the cars. The speed of
//! the engine is not among them.

use vstd::prelude::*;

use crate::binary32::Binary32;
use crate::text;
use crate::wire;

pub mod inbound;
pub mod outbound;

verus! {

pub const DEFAULT_PORT: u16 = 9000;

/// The version of the protocol. The game turns down clients with an older one.
pub const PROTOCOL_VERSION: u8 = 4;

/// The connection password to propose. It only keeps tools apart.
pub const DEFAULT_PASSWORD: &'static str = "moza";

/// A string as it is sent: no more than 65535 of its bytes behind their number.
pub open spec fn string_image(s: Seq<char>) -> Seq<u8> {
    let bytes = vstd::utf8::encode_utf8(s);
    let n = if bytes.len() < 0xFFFF {
        bytes.len() as int
    } else {
        0xFFFF
    };
    wire::u16_image(n as u16) + bytes.take(n)
}

/// A registration as it is sent.
pub open spec fn register_image(
    display_name: Seq<char>,
    connection_password: Seq<char>,
    update_interval_ms: i32,
    command_password: Seq<char>,
) -> Seq<u8> {
    seq![outbound::REGISTER_COMMAND_APPLICATION, PROTOCOL_VERSION] + string_image(display_name)
        + string_image(connection_password) + wire::i32_image(update_interval_ms) + string_image(
        command_password,
    )
}

/// Appends a string as it is sent.
pub fn write_string(out: &mut Vec<u8>, s: &str)
    ensures
        final(out)@ == old(out)@ + string_image(s@),
{
    let bytes: &[u8] = s.as_bytes();
    let len: u16 = if bytes.len() < 0xFFFF {
        bytes.len() as u16
    } else {
        0xFFFF
    };
    let head: [u8; 2] = wire::u16_bytes(len);
    wire::append(out, &head);
    wire::append(out, &bytes[0..len as usize]);
    proof {
        assert(bytes@.subrange(0, len as int) == bytes@.take(len as int));
        assert(out@ == old(out)@ + string_image(s@));
    }
}

/// The message that registers a client. The game answers with the result and
/// then sends updates at the given interval. With an empty command password the
/// client may only watch.
pub fn build_register(
    display_name: &str,
    connection_password: &str,
    update_interval_ms: i32,
    command_password: &str,
) -> (r: Vec<u8>)
    ensures
        r@ == register_image(
            display_name@,
            connection_password@,
            update_interval_ms,
            command_password@,
        ),
{
    let mut out: Vec<u8> = Vec::new();
    out.push(outbound::REGISTER_COMMAND_APPLICATION);
    out.push(PROTOCOL_VERSION);
    write_string(&mut out, display_name);
    write_string(&mut out, connection_password);
    let interval: [u8; 4] = wire::i32_bytes(update_interval_ms);
    wire::append(&mut out, &interval);
    write_string(&mut out, command_password);
    assert(seq![outbound::REGISTER_COMMAND_APPLICATION, PROTOCOL_VERSION] == Seq::<u8>::empty().push(
        outbound::REGISTER_COMMAND_APPLICATION,
    ).push(PROTOCOL_VERSION));
    out
}

/// The message with which a client takes its leave.
pub fn build_unregister(connection_id: i32) -> (r: Vec<u8>)
    ensures
        r@ == seq![outbound::UNREGISTER_COMMAND_APPLICATION] + wire::i32_image(connection_id),
        r@.len() == 5 && r@[0] == 9 && wire::i32_at(r@, 1) == connection_id,
{
    proof {
        let b = seq![outbound::UNREGISTER_COMMAND_APPLICATION] + wire::i32_image(connection_id);
        assert(b.subrange(1, 5) =~= wire::i32_image(connection_id));
        wire::lemma_i32_read_back(connection_id, b, 1);
    }
    let mut out: Vec<u8> = Vec::new();
    out.push(outbound::UNREGISTER_COMMAND_APPLICATION);
    let id: [u8; 4] = wire::i32_bytes(connection_id);
    wire::append(&mut out, &id);
    assert(seq![outbound::UNREGISTER_COMMAND_APPLICATION] == Seq::<u8>::empty().push(
        outbound::UNREGISTER_COMMAND_APPLICATION,
    ));
    out
}

/// A lap.
#[derive(Debug)]
pub struct LapInfo {
    pub lap_time_ms: i32,
    pub car_index: u16,
    pub driver_index: u16,
    pub splits_ms: Vec<i32>,
    pub is_invalid: bool,
    pub is_valid_for_best: bool,
    pub is_outlap: bool,
    pub is_inlap: bool,
}

/// What a [`LapInfo`] says.
#[verifier::ext_equal]
pub struct Lap {
    pub lap_time_ms: i32,
    pub car_index: u16,
    pub driver_index: u16,
    pub splits_ms: Seq<i32>,
    pub is_invalid: bool,
    pub is_valid_for_best: bool,
    pub is_outlap: bool,
    pub is_inlap: bool,
}

impl View for LapInfo {
    type V = Lap;

    open spec fn view(&self) -> Lap {
        Lap {
            lap_time_ms: self.lap_time_ms,
            car_index: self.car_index,
            driver_index: self.driver_index,
            splits_ms: self.splits_ms@,
            is_invalid: self.is_invalid,
            is_valid_for_best: self.is_valid_for_best,
            is_outlap: self.is_outlap,
            is_inlap: self.is_inlap,
        }
    }
}

impl Clone for LapInfo {
    fn clone(&self) -> (r: Self)
        ensures
            r@ == self@,
    {
        let r = LapInfo {
            lap_time_ms: self.lap_time_ms,
            car_index: self.car_index,
            driver_index: self.driver_index,
            splits_ms: self.splits_ms.clone(),
            is_invalid: self.is_invalid,
            is_valid_for_best: self.is_valid_for_best,
            is_outlap: self.is_outlap,
            is_inlap: self.is_inlap,
        };
        assert(r@ =~= self@);
        r
    }
}

/// The answer to a registration.
#[derive(Debug)]
pub struct RegistrationResult {
    pub connection_id: i32,
    pub success: bool,
    /// Whether the client may only watch.
    pub readonly: bool,
    pub error_message: String,
}

/// What a [`RegistrationResult`] says.
#[verifier::ext_equal]
pub struct Registration {
    pub connection_id: i32,
    pub success: bool,
    pub readonly: bool,
    pub error_message: Seq<char>,
}

impl View for RegistrationResult {
    type V = Registration;

    open spec fn view(&self) -> Registration {
        Registration {
            connection_id: self.connection_id,
            success: self.success,
            readonly: self.readonly,
            error_message: self.error_message@,
        }
    }
}

impl Clone for RegistrationResult {
    fn clone(&self) -> (r: Self)
        ensures
            r@ == self@,
    {
        let r = RegistrationResult {
            connection_id: self.connection_id,
            success: self.success,
            readonly: self.readonly,
            error_message: self.error_message.clone(),
        };
        assert(r@ =~= self@);
        r
    }
}

/// The state of the session.
#[derive(Debug)]
pub struct RealtimeUpdate {
    pub event_index: u16,
    pub session_index: u16,
    pub session_type: u8,
    pub phase: u8,
    /// Milliseconds since the session began.
    pub session_time_ms: Binary32,
    /// Milliseconds that are left of a timed session.
    pub session_end_time_ms: Binary32,
    pub focused_car_index: i32,
    pub active_camera_set: String,
    pub active_camera: String,
    pub current_hud_page: String,
    pub is_replay_playing: bool,
    /// Where the replay stands, in milliseconds, while there is one.
    pub replay_session_time_ms: Option<i32>,
    /// What is left of the replay, in milliseconds, while there is one.
    pub replay_remaining_time_ms: Option<i32>,
    /// Seconds since midnight.
    pub time_of_day_seconds: Binary32,
    pub ambient_temp_c: i8,
    pub track_temp_c: i8,
    /// Between zero and one.
    pub clouds: Binary32,
    pub rain_level: Binary32,
    pub wetness: Binary32,
    pub best_session_lap: LapInfo,
}

/// What a [`RealtimeUpdate`] says.
#[verifier::ext_equal]
pub struct Session {
    pub event_index: u16,
    pub session_index: u16,
    pub session_type: u8,
    pub phase: u8,
    pub session_time_ms: Binary32,
    pub session_end_time_ms: Binary32,
    pub focused_car_index: i32,
    pub active_camera_set: Seq<char>,
    pub active_camera: Seq<char>,
    pub current_hud_page: Seq<char>,
    pub is_replay_playing: bool,
    pub replay_session_time_ms: Option<i32>,
    pub replay_remaining_time_ms: Option<i32>,
    pub time_of_day_seconds: Binary32,
    pub ambient_temp_c: i8,
    pub track_temp_c: i8,
    pub clouds: Binary32,
    pub rain_level: Binary32,
    pub wetness: Binary32,
    pub best_session_lap: Lap,
}

impl View for RealtimeUpdate {
    type V = Session;

    open spec fn view(&self) -> Session {
        Session {
            event_index: self.event_index,
            session_index: self.session_index,
            session_type: self.session_type,
            phase: self.phase,
            session_time_ms: self.session_time_ms,
            session_end_time_ms: self.session_end_time_ms,
            focused_car_index: self.focused_car_index,
            active_camera_set: self.active_camera_set@,
            active_camera: self.active_camera@,
            current_hud_page: self.current_hud_page@,
            is_replay_playing: self.is_replay_playing,
            replay_session_time_ms: self.replay_session_time_ms,
            replay_remaining_time_ms: self.replay_remaining_time_ms,
            time_of_day_seconds: self.time_of_day_seconds,
            ambient_temp_c: self.ambient_temp_c,
            track_temp_c: self.track_temp_c,
            clouds: self.clouds,
            rain_level: self.rain_level,
            wetness: self.wetness,
            best_session_lap: self.best_session_lap@,
        }
    }
}

impl Clone for RealtimeUpdate {
    fn clone(&self) -> (r: Self)
        ensures
            r@ == self@,
    {
        let r = RealtimeUpdate {
            event_index: self.event_index,
            session_index: self.session_index,
            session_type: self.session_type,
            phase: self.phase,
            session_time_ms: self.session_time_ms,
            session_end_time_ms: self.session_end_time_ms,
            focused_car_index: self.focused_car_index,
            active_camera_set: self.active_camera_set.clone(),
            active_camera: self.active_camera.clone(),
            current_hud_page: self.current_hud_page.clone(),
            is_replay_playing: self.is_replay_playing,
            replay_session_time_ms: self.replay_session_time_ms,
            replay_remaining_time_ms: self.replay_remaining_time_ms,
            time_of_day_seconds: self.time_of_day_seconds,
            ambient_temp_c: self.ambient_temp_c,
            track_temp_c: self.track_temp_c,
            clouds: self.clouds,
            rain_level: self.rain_level,
            wetness: self.wetness,
            best_session_lap: self.best_session_lap.clone(),
        };
        assert(r@ =~= self@);
        r
    }
}

/// The state of one car.
#[derive(Debug)]
pub struct RealtimeCarUpdate {
    pub car_index: u16,
    pub driver_index: u16,
    pub driver_count: u8,
    /// -2 without a gear, -1 for reverse, 0 for neutral.
    pub gear: i8,
    pub world_pos_x: Binary32,
    pub world_pos_y: Binary32,
    pub yaw: Binary32,
    pub car_location: u8,
    pub kmh: u16,
    pub position: u16,
    pub cup_position: u16,
    pub track_position: u16,
    /// How far round the lap the car is, between zero and one.
    pub spline_position: Binary32,
    pub laps: u16,
    /// Milliseconds behind the best lap of the session.
    pub delta_ms: i32,
    pub best_session_lap: LapInfo,
    pub last_lap: LapInfo,
    pub current_lap: LapInfo,
}

/// What a [`RealtimeCarUpdate`] says.
#[verifier::ext_equal]
pub struct Car {
    pub car_index: u16,
    pub driver_index: u16,
    pub driver_count: u8,
    pub gear: i8,
    pub world_pos_x: Binary32,
    pub world_pos_y: Binary32,
    pub yaw: Binary32,
    pub car_location: u8,
    pub kmh: u16,
    pub position: u16,
    pub cup_position: u16,
    pub track_position: u16,
    pub spline_position: Binary32,
    pub laps: u16,
    pub delta_ms: i32,
    pub best_session_lap: Lap,
    pub last_lap: Lap,
    pub current_lap: Lap,
}

impl View for RealtimeCarUpdate {
    type V = Car;

    open spec fn view(&self) -> Car {
        Car {
            car_index: self.car_index,
            driver_index: self.driver_index,
            driver_count: self.driver_count,
            gear: self.gear,
            world_pos_x: self.world_pos_x,
            world_pos_y: self.world_pos_y,
            yaw: self.yaw,
            car_location: self.car_location,
            kmh: self.kmh,
            position: self.position,
            cup_position: self.cup_position,
            track_position: self.track_position,
            spline_position: self.spline_position,
            laps: self.laps,
            delta_ms: self.delta_ms,
            best_session_lap: self.best_session_lap@,
            last_lap: self.last_lap@,
            current_lap: self.current_lap@,
        }
    }
}

impl Clone for RealtimeCarUpdate {
    fn clone(&self) -> (r: Self)
        ensures
            r@ == self@,
    {
        let r = RealtimeCarUpdate {
            car_index: self.car_index,
            driver_index: self.driver_index,
            driver_count: self.driver_count,
            gear: self.gear,
            world_pos_x: self.world_pos_x,
            world_pos_y: self.world_pos_y,
            yaw: self.yaw,
            car_location: self.car_location,
            kmh: self.kmh,
            position: self.position,
            cup_position: self.cup_position,
            track_position: self.track_position,
            spline_position: self.spline_position,
            laps: self.laps,
            delta_ms: self.delta_ms,
            best_session_lap: self.best_session_lap.clone(),
            last_lap: self.last_lap.clone(),
            current_lap: self.current_lap.clone(),
        };
        assert(r@ =~= self@);
        r
    }
}

/// A message from the game. Those that are not decoded are `Other`.
#[derive(Debug)]
pub enum Message {
    RegistrationResult(RegistrationResult),
    RealtimeUpdate(RealtimeUpdate),
    RealtimeCarUpdate(RealtimeCarUpdate),
    Other { msg_type: u8, body_len: usize },
}

/// What a [`Message`] says.
pub enum Said {
    Registration(Registration),
    Session(Session),
    Car(Car),
    Other { msg_type: u8, body_len: nat },
}

impl View for Message {
    type V = Said;

    open spec fn view(&self) -> Said {
        match self {
            Message::RegistrationResult(r) => Said::Registration(r@),
            Message::RealtimeUpdate(u) => Said::Session(u@),
            Message::RealtimeCarUpdate(c) => Said::Car(c@),
            Message::Other { msg_type, body_len } => Said::Other {
                msg_type: *msg_type,
                body_len: *body_len as nat,
            },
        }
    }
}

impl Clone for Message {
    fn clone(&self) -> (r: Self)
        ensures
            r@ == self@,
    {
        match self {
            Message::RegistrationResult(m) => Message::RegistrationResult(m.clone()),
            Message::RealtimeUpdate(m) => Message::RealtimeUpdate(m.clone()),
            Message::RealtimeCarUpdate(m) => Message::RealtimeCarUpdate(m.clone()),
            Message::Other { msg_type, body_len } => Message::Other {
                msg_type: *msg_type,
                body_len: *body_len,
            },
        }
    }
}

/// The text that some bytes encode, replacement characters standing for what is
/// not UTF-8.
pub open spec fn text_of(bytes: Seq<u8>) -> Seq<char> {
    if vstd::utf8::valid_utf8(bytes) {
        vstd::utf8::decode_utf8(bytes)
    } else {
        text::utf8_lossy(bytes)
    }
}

/// The string at offset `p` and the offset behind it, where it is complete.
pub open spec fn string_at(b: Seq<u8>, p: int) -> Option<(Seq<char>, int)> {
    let end = p + 2 + wire::u16_at(b, p);
    if p + 2 > b.len() || end > b.len() {
        None
    } else {
        Some((text_of(b.subrange(p + 2, end)), end))
    }
}

/// The lap at offset `p` and the offset behind it, where it is complete.
pub open spec fn lap_at(b: Seq<u8>, p: int) -> Option<(Lap, int)> {
    let count = b[p + 8];
    let q = p + 9 + 4 * count;
    if p + 9 > b.len() || q + 4 > b.len() {
        None
    } else {
        Some(
            (
                Lap {
                    lap_time_ms: wire::i32_at(b, p),
                    car_index: wire::u16_at(b, p + 4),
                    driver_index: wire::u16_at(b, p + 6),
                    splits_ms: Seq::new(count as nat, |i: int| wire::i32_at(b, p + 9 + 4 * i)),
                    is_invalid: b[q] > 0,
                    is_valid_for_best: b[q + 1] > 0,
                    is_outlap: b[q + 2] > 0,
                    is_inlap: b[q + 3] > 0,
                },
                q + 4,
            ),
        )
    }
}

/// The answer to a registration at offset `p` and the offset behind it, where it
/// is complete.
pub open spec fn registration_at(b: Seq<u8>, p: int) -> Option<(Registration, int)> {
    if p + 6 > b.len() {
        None
    } else {
        match string_at(b, p + 6) {
            None => None,
            Some((message, end)) => Some(
                (
                    Registration {
                        connection_id: wire::i32_at(b, p),
                        success: b[p + 4] > 0,
                        readonly: b[p + 5] == 0,
                        error_message: message,
                    },
                    end,
                ),
            ),
        }
    }
}

/// A byte that counts tenths.
pub open spec fn tenths(n: u8) -> Binary32 {
    Binary32::nearest(n as int).over(Binary32 { bits: 0x4120_0000 })
}

/// The session at offset `p` and the offset behind it, where it is complete.
pub open spec fn session_at(b: Seq<u8>, p: int) -> Option<(Session, int)> {
    if p + 18 > b.len() {
        None
    } else {
        match string_at(b, p + 18) {
            None => None,
            Some((camera_set, p1)) => match string_at(b, p1) {
                None => None,
                Some((camera, p2)) => match string_at(b, p2) {
                    None => None,
                    Some((page, q)) => {
                        let replay = b[q] > 0;
                        let t = if replay {
                            q + 9
                        } else {
                            q + 1
                        };
                        if q + 1 > b.len() || t + 9 > b.len() {
                            None
                        } else {
                            match lap_at(b, t + 9) {
                                None => None,
                                Some((lap, end)) => Some(
                                    (
                                        Session {
                                            event_index: wire::u16_at(b, p),
                                            session_index: wire::u16_at(b, p + 2),
                                            session_type: b[p + 4],
                                            phase: b[p + 5],
                                            session_time_ms: wire::f32_at(b, p + 6),
                                            session_end_time_ms: wire::f32_at(b, p + 10),
                                            focused_car_index: wire::i32_at(b, p + 14),
                                            active_camera_set: camera_set,
                                            active_camera: camera,
                                            current_hud_page: page,
                                            is_replay_playing: replay,
                                            replay_session_time_ms: if replay {
                                                Some(wire::i32_at(b, q + 1))
                                            } else {
                                                None
                                            },
                                            replay_remaining_time_ms: if replay {
                                                Some(wire::i32_at(b, q + 5))
                                            } else {
                                                None
                                            },
                                            time_of_day_seconds: wire::f32_at(b, t),
                                            ambient_temp_c: wire::i8_at(b, t + 4),
                                            track_temp_c: wire::i8_at(b, t + 5),
                                            clouds: tenths(b[t + 6]),
                                            rain_level: tenths(b[t + 7]),
                                            wetness: tenths(b[t + 8]),
                                            best_session_lap: lap,
                                        },
                                        end,
                                    ),
                                ),
                            }
                        }
                    },
                },
            },
        }
    }
}

/// The car at offset `p` and the offset behind it, where it is complete.
pub open spec fn car_at(b: Seq<u8>, p: int) -> Option<(Car, int)> {
    if p + 37 > b.len() {
        None
    } else {
        match lap_at(b, p + 37) {
            None => None,
            Some((best, p1)) => match lap_at(b, p1) {
                None => None,
                Some((last, p2)) => match lap_at(b, p2) {
                    None => None,
                    Some((current, end)) => Some(
                        (
                            Car {
                                car_index: wire::u16_at(b, p),
                                driver_index: wire::u16_at(b, p + 2),
                                driver_count: b[p + 4],
                                gear: wire::signed_8(((b[p + 5] + 254) % 256) as u8),
                                world_pos_x: wire::f32_at(b, p + 6),
                                world_pos_y: wire::f32_at(b, p + 10),
                                yaw: wire::f32_at(b, p + 14),
                                car_location: b[p + 18],
                                kmh: wire::u16_at(b, p + 19),
                                position: wire::u16_at(b, p + 21),
                                cup_position: wire::u16_at(b, p + 23),
                                track_position: wire::u16_at(b, p + 25),
                                spline_position: wire::f32_at(b, p + 27),
                                laps: wire::u16_at(b, p + 31),
                                delta_ms: wire::i32_at(b, p + 33),
                                best_session_lap: best,
                                last_lap: last,
                                current_lap: current,
                            },
                            end,
                        ),
                    ),
                },
            },
        }
    }
}

/// Where reading a string stops that is not complete.
pub open spec fn string_stop(b: Seq<u8>, p: int) -> int {
    if p + 2 > b.len() {
        p
    } else {
        p + 2
    }
}

/// Where reading a lap stops that is not complete: before the field that is cut
/// off.
pub open spec fn lap_stop(b: Seq<u8>, p: int) -> int {
    let n = b.len() as int;
    if p + 4 > n {
        p
    } else if p + 6 > n {
        p + 4
    } else if p + 8 > n {
        p + 6
    } else if p + 9 > n {
        p + 8
    } else if p + 9 + 4 * b[p + 8] > n {
        n - (n - p - 9) % 4
    } else {
        n
    }
}

/// Where reading the answer to a registration stops that is not complete.
pub open spec fn registration_stop(b: Seq<u8>, p: int) -> int {
    let n = b.len() as int;
    if p + 4 > n {
        p
    } else if p + 6 > n {
        n
    } else {
        string_stop(b, p + 6)
    }
}

/// Where reading a session stops that is not complete.
pub open spec fn session_stop(b: Seq<u8>, p: int) -> int {
    let n = b.len() as int;
    if p + 2 > n {
        p
    } else if p + 4 > n {
        p + 2
    } else if p + 6 > n {
        n
    } else if p + 10 > n {
        p + 6
    } else if p + 14 > n {
        p + 10
    } else if p + 18 > n {
        p + 14
    } else {
        match string_at(b, p + 18) {
            None => string_stop(b, p + 18),
            Some((_, p1)) => match string_at(b, p1) {
                None => string_stop(b, p1),
                Some((_, p2)) => match string_at(b, p2) {
                    None => string_stop(b, p2),
                    Some((_, q)) => {
                        let replay = b[q] > 0;
                        let t = if replay {
                            q + 9
                        } else {
                            q + 1
                        };
                        if q + 1 > n {
                            q
                        } else if replay && q + 5 > n {
                            q + 1
                        } else if replay && q + 9 > n {
                            q + 5
                        } else if t + 4 > n {
                            t
                        } else if t + 9 > n {
                            n
                        } else {
                            lap_stop(b, t + 9)
                        }
                    },
                },
            },
        }
    }
}

/// Where reading a car stops that is not complete.
pub open spec fn car_stop(b: Seq<u8>, p: int) -> int {
    let n = b.len() as int;
    if p + 2 > n {
        p
    } else if p + 4 > n {
        p + 2
    } else if p + 6 > n {
        n
    } else if p + 10 > n {
        p + 6
    } else if p + 14 > n {
        p + 10
    } else if p + 18 > n {
        p + 14
    } else if p + 19 > n {
        p + 18
    } else if p + 21 > n {
        p + 19
    } else if p + 23 > n {
        p + 21
    } else if p + 25 > n {
        p + 23
    } else if p + 27 > n {
        p + 25
    } else if p + 31 > n {
        p + 27
    } else if p + 33 > n {
        p + 31
    } else if p + 37 > n {
        p + 33
    } else {
        match lap_at(b, p + 37) {
            None => lap_stop(b, p + 37),
            Some((_, p1)) => match lap_at(b, p1) {
                None => lap_stop(b, p1),
                Some((_, p2)) => lap_stop(b, p2),
            },
        }
    }
}

/// The message in a datagram, where it is complete.
pub open spec fn message_in(b: Seq<u8>) -> Option<Said> {
    if b.len() == 0 {
        None
    } else if b[0] == inbound::REGISTRATION_RESULT {
        match registration_at(b, 1) {
            Some((r, _)) => Some(Said::Registration(r)),
            None => None,
        }
    } else if b[0] == inbound::REALTIME_UPDATE {
        match session_at(b, 1) {
            Some((u, _)) => Some(Said::Session(u)),
            None => None,
        }
    } else if b[0] == inbound::REALTIME_CAR_UPDATE {
        match car_at(b, 1) {
            Some((c, _)) => Some(Said::Car(c)),
            None => None,
        }
    } else {
        Some(Said::Other { msg_type: b[0], body_len: (b.len() - 1) as nat })
    }
}

/// A position in a datagram.
#[derive(Debug)]
pub struct Reader<'a> {
    pub buf: &'a [u8],
    pub pos: usize,
}

impl<'a> Reader<'a> {
    /// The position lies within the datagram.
    pub open spec fn inside(self) -> bool {
        self.pos <= self.buf.len()
    }

    /// Whether `r` is where a read of `n` bytes leads: behind them where they
    /// are there, and nowhere else.
    pub open spec fn moved(self, n: int, r: Self) -> bool {
        &&& r.buf == self.buf
        &&& r.pos == if self.pos + n <= self.buf.len() {
            self.pos + n
        } else {
            self.pos as int
        }
    }

    /// A reader at the start of a datagram.
    pub fn new(buf: &'a [u8]) -> (r: Self)
        ensures
            r.buf == buf,
            r.pos == 0,
            r.inside(),
    {
        Reader { buf, pos: 0 }
    }

    /// The next `n` bytes.
    pub fn take(&mut self, n: usize) -> (r: Option<&'a [u8]>)
        ensures
            old(self).inside() ==> final(self).inside(),
            old(self).moved(n as int, *final(self)),
            r is Some <==> old(self).pos + n <= old(self).buf.len(),
            r matches Some(v) ==> v@ == old(self).buf@.subrange(
                old(self).pos as int,
                old(self).pos + n,
            ),
    {
        if self.pos > self.buf.len() || n > self.buf.len() - self.pos {
            return None;
        }
        let buf: &'a [u8] = self.buf;
        let end: usize = self.pos + n;
        let v: &'a [u8] = &buf[self.pos..end];
        self.pos = end;
        Some(v)
    }

    pub fn read_u8(&mut self) -> (r: Option<u8>)
        ensures
            old(self).inside() ==> final(self).inside(),
            old(self).moved(1, *final(self)),
            r is Some <==> old(self).pos + 1 <= old(self).buf.len(),
            r matches Some(v) ==> v == old(self).buf@[old(self).pos as int],
    {
        let v: &[u8] = self.take(1)?;
        Some(v[0])
    }

    pub fn read_i8(&mut self) -> (r: Option<i8>)
        ensures
            old(self).inside() ==> final(self).inside(),
            old(self).moved(1, *final(self)),
            r is Some <==> old(self).pos + 1 <= old(self).buf.len(),
            r matches Some(v) ==> v == wire::i8_at(old(self).buf@, old(self).pos as int),
    {
        let v: &[u8] = self.take(1)?;
        Some(wire::read_i8(v, 0))
    }

    pub fn read_u16_le(&mut self) -> (r: Option<u16>)
        ensures
            old(self).inside() ==> final(self).inside(),
            old(self).moved(2, *final(self)),
            r is Some <==> old(self).pos + 2 <= old(self).buf.len(),
            r matches Some(v) ==> v == wire::u16_at(old(self).buf@, old(self).pos as int),
    {
        let v: &[u8] = self.take(2)?;
        Some(wire::read_u16(v, 0))
    }

    pub fn read_i32_le(&mut self) -> (r: Option<i32>)
        ensures
            old(self).inside() ==> final(self).inside(),
            old(self).moved(4, *final(self)),
            r is Some <==> old(self).pos + 4 <= old(self).buf.len(),
            r matches Some(v) ==> v == wire::i32_at(old(self).buf@, old(self).pos as int),
    {
        let v: &[u8] = self.take(4)?;
        Some(wire::read_i32(v, 0))
    }

    pub fn read_f32_le(&mut self) -> (r: Option<Binary32>)
        ensures
            old(self).inside() ==> final(self).inside(),
            old(self).moved(4, *final(self)),
            r is Some <==> old(self).pos + 4 <= old(self).buf.len(),
            r matches Some(v) ==> v == wire::f32_at(old(self).buf@, old(self).pos as int),
    {
        let v: &[u8] = self.take(4)?;
        Some(wire::read_f32(v, 0))
    }

    /// The next string. The position is then behind it, or where reading stopped.
    pub fn read_string(&mut self) -> (r: Option<String>)
        ensures
            old(self).inside() ==> final(self).inside(),
            final(self).buf == old(self).buf,
            match string_at(old(self).buf@, old(self).pos as int) {
                Some((s, end)) => r is Some && r->0@ == s && final(self).pos == end,
                None => r is None && final(self).pos == string_stop(
                    old(self).buf@,
                    old(self).pos as int,
                ),
            },
    {
        let len: u16 = self.read_u16_le()?;
        let v: &[u8] = self.take(len as usize)?;
        Some(text::utf8_string_lossy(v))
    }

    /// The next lap. The position is then behind it, or where reading stopped.
    pub fn parse_lap(&mut self) -> (r: Option<LapInfo>)
        ensures
            old(self).inside() ==> final(self).inside(),
            final(self).buf == old(self).buf,
            match lap_at(old(self).buf@, old(self).pos as int) {
                Some((v, end)) => r is Some && r->0@ == v && final(self).pos == end,
                None => r is None && final(self).pos == lap_stop(
                    old(self).buf@,
                    old(self).pos as int,
                ),
            },
    {
        let ghost b = self.buf@;
        let ghost p = self.pos as int;
        let lap_time_ms: i32 = self.read_i32_le()?;
        let car_index: u16 = self.read_u16_le()?;
        let driver_index: u16 = self.read_u16_le()?;
        let split_count: u8 = self.read_u8()?;
        let mut splits_ms: Vec<i32> = Vec::new();
        let mut i: u8 = 0;
        while i < split_count
            invariant
                i <= split_count,
                old(self).inside(),
                self.inside(),
                p + 9 <= b.len(),
                self.buf == old(self).buf,
                b == self.buf@,
                split_count == b[p + 8],
                self.pos == p + 9 + 4 * i,
                splits_ms@ == Seq::new(i as nat, |k: int| wire::i32_at(b, p + 9 + 4 * k)),
                p == old(self).pos,
            decreases split_count - i,
        {
            splits_ms.push(self.read_i32_le()?);
            i = i + 1;
            proof {
                assert(splits_ms@ == Seq::new(i as nat, |k: int| wire::i32_at(b, p + 9 + 4 * k)));
            }
        }
        let is_invalid: bool = self.read_u8()? > 0;
        let is_valid_for_best: bool = self.read_u8()? > 0;
        let is_outlap: bool = self.read_u8()? > 0;
        let is_inlap: bool = self.read_u8()? > 0;
        let lap = LapInfo {
            lap_time_ms,
            car_index,
            driver_index,
            splits_ms,
            is_invalid,
            is_valid_for_best,
            is_outlap,
            is_inlap,
        };
        proof {
            assert(lap@ =~= (lap_at(b, p)->0).0);
        }
        Some(lap)
    }

    /// The answer to a registration. The position is then behind it, or where
    /// reading stopped.
    pub fn parse_registration(&mut self) -> (r: Option<RegistrationResult>)
        ensures
            old(self).inside() ==> final(self).inside(),
            final(self).buf == old(self).buf,
            match registration_at(old(self).buf@, old(self).pos as int) {
                Some((v, end)) => r is Some && r->0@ == v && final(self).pos == end,
                None => r is None && final(self).pos == registration_stop(
                    old(self).buf@,
                    old(self).pos as int,
                ),
            },
    {
        let connection_id: i32 = self.read_i32_le()?;
        let success: bool = self.read_u8()? > 0;
        let readonly: bool = self.read_u8()? == 0;
        let error_message: String = self.read_string()?;
        Some(RegistrationResult { connection_id, success, readonly, error_message })
    }

    fn read_tenths(&mut self) -> (r: Option<Binary32>)
        ensures
            old(self).inside() ==> final(self).inside(),
            old(self).moved(1, *final(self)),
            r is Some <==> old(self).pos + 1 <= old(self).buf.len(),
            r matches Some(v) ==> v == tenths(old(self).buf@[old(self).pos as int]),
    {
        match self.read_u8() {
            Some(n) => Some(Binary32::from_u64(n as u64).divide(Binary32 { bits: 0x4120_0000 })),
            None => None,
        }
    }

    /// The next session. The position is then behind it, or where reading stopped.
    #[verifier::spinoff_prover]
    #[verifier::rlimit(60)]
    pub fn parse_realtime_update(&mut self) -> (r: Option<RealtimeUpdate>)
        ensures
            old(self).inside() ==> final(self).inside(),
            final(self).buf == old(self).buf,
            match session_at(old(self).buf@, old(self).pos as int) {
                Some((v, end)) => r is Some && r->0@ == v && final(self).pos == end,
                None => r is None && final(self).pos == session_stop(
                    old(self).buf@,
                    old(self).pos as int,
                ),
            },
    {
        let event_index: u16 = self.read_u16_le()?;
        let session_index: u16 = self.read_u16_le()?;
        let session_type: u8 = self.read_u8()?;
        let phase: u8 = self.read_u8()?;
        let session_time_ms: Binary32 = self.read_f32_le()?;
        let session_end_time_ms: Binary32 = self.read_f32_le()?;
        let focused_car_index: i32 = self.read_i32_le()?;
        let active_camera_set: String = self.read_string()?;
        let active_camera: String = self.read_string()?;
        let current_hud_page: String = self.read_string()?;
        let is_replay_playing: bool = self.read_u8()? > 0;
        let mut replay_session_time_ms: Option<i32> = None;
        let mut replay_remaining_time_ms: Option<i32> = None;
        if is_replay_playing {
            replay_session_time_ms = Some(self.read_i32_le()?);
            replay_remaining_time_ms = Some(self.read_i32_le()?);
        }
        let time_of_day_seconds: Binary32 = self.read_f32_le()?;
        let ambient_temp_c: i8 = self.read_i8()?;
        let track_temp_c: i8 = self.read_i8()?;
        let clouds: Binary32 = self.read_tenths()?;
        let rain_level: Binary32 = self.read_tenths()?;
        let wetness: Binary32 = self.read_tenths()?;
        let best_session_lap: LapInfo = self.parse_lap()?;
        Some(
            RealtimeUpdate {
                event_index,
                session_index,
                session_type,
                phase,
                session_time_ms,
                session_end_time_ms,
                focused_car_index,
                active_camera_set,
                active_camera,
                current_hud_page,
                is_replay_playing,
                replay_session_time_ms,
                replay_remaining_time_ms,
                time_of_day_seconds,
                ambient_temp_c,
                track_temp_c,
                clouds,
                rain_level,
                wetness,
                best_session_lap,
            },
        )
    }

    /// The next car. The position is then behind it, or where reading stopped.
    #[verifier::spinoff_prover]
    #[verifier::rlimit(60)]
    pub fn parse_realtime_car_update(&mut self) -> (r: Option<RealtimeCarUpdate>)
        ensures
            old(self).inside() ==> final(self).inside(),
            final(self).buf == old(self).buf,
            match car_at(old(self).buf@, old(self).pos as int) {
                Some((v, end)) => r is Some && r->0@ == v && final(self).pos == end,
                None => r is None && final(self).pos == car_stop(
                    old(self).buf@,
                    old(self).pos as int,
                ),
            },
    {
        let car_index: u16 = self.read_u16_le()?;
        let driver_index: u16 = self.read_u16_le()?;
        let driver_count: u8 = self.read_u8()?;
        let gear_byte: u8 = self.read_u8()?;
        let gear: i8 = wire::to_signed_8(((gear_byte as u16 + 254) % 256) as u8);
        let world_pos_x: Binary32 = self.read_f32_le()?;
        let world_pos_y: Binary32 = self.read_f32_le()?;
        let yaw: Binary32 = self.read_f32_le()?;
        let car_location: u8 = self.read_u8()?;
        let kmh: u16 = self.read_u16_le()?;
        let position: u16 = self.read_u16_le()?;
        let cup_position: u16 = self.read_u16_le()?;
        let track_position: u16 = self.read_u16_le()?;
        let spline_position: Binary32 = self.read_f32_le()?;
        let laps: u16 = self.read_u16_le()?;
        let delta_ms: i32 = self.read_i32_le()?;
        let best_session_lap: LapInfo = self.parse_lap()?;
        let last_lap: LapInfo = self.parse_lap()?;
        let current_lap: LapInfo = self.parse_lap()?;
        Some(
            RealtimeCarUpdate {
                car_index,
                driver_index,
                driver_count,
                gear,
                world_pos_x,
                world_pos_y,
                yaw,
                car_location,
                kmh,
                position,
                cup_position,
                track_position,
                spline_position,
                laps,
                delta_ms,
                best_session_lap,
                last_lap,
                current_lap,
            },
        )
    }
}

/// Parses a datagram. There is no message where it ends too early.
pub fn parse_message(buf: &[u8]) -> (r: Option<Message>)
    ensures
        match message_in(buf@) {
            Some(said) => r is Some && r->0@ == said,
            None => r is None,
        },
{
    let mut reader: Reader = Reader::new(buf);
    let msg_type: u8 = reader.read_u8()?;
    if msg_type == inbound::REGISTRATION_RESULT {
        Some(Message::RegistrationResult(reader.parse_registration()?))
    } else if msg_type == inbound::REALTIME_UPDATE {
        Some(Message::RealtimeUpdate(reader.parse_realtime_update()?))
    } else if msg_type == inbound::REALTIME_CAR_UPDATE {
        Some(Message::RealtimeCarUpdate(reader.parse_realtime_car_update()?))
    } else {
        Some(Message::Other { msg_type, body_len: buf.len() - 1 })
    }
}

impl RealtimeUpdate {
    /// The time of day: hours and minutes.
    pub fn time_of_day(&self) -> (r: (u8, u8))
        ensures
            ({
                let seconds = self.time_of_day_seconds.clamped(0, u32::MAX as int);
                r.0 == (seconds / 3600) % 24 && r.1 == (seconds / 60) % 60
            }),
    {
        let seconds: u32 = self.time_of_day_seconds.to_u32();
        (((seconds / 3600) % 24) as u8, ((seconds / 60) % 60) as u8)
    }
}

impl RealtimeCarUpdate {
    /// The gear as text: "?", "R", "N", "1", "2" and so on.
    pub fn gear_label(&self) -> (r: String)
        ensures
            r@ == if self.gear == -2 {
                "?"@
            } else if self.gear == -1 {
                "R"@
            } else if self.gear == 0 {
                "N"@
            } else {
                text::signed_decimal(self.gear as int)
            },
            self.gear >= 1 ==> text::all_digits(r@) && text::number_in(r@) == self.gear,
    {
        proof {
            text::lemma_signed_decimal_read_back(self.gear as int);
        }
        if self.gear == -2 {
            "?".to_owned()
        } else if self.gear == -1 {
            "R".to_owned()
        } else if self.gear == 0 {
            "N".to_owned()
        } else {
            text::number(self.gear as i64)
        }
    }
}

impl Lap {
    /// Whether there is a lap time: the largest number means that there is none.
    pub open spec fn recorded(self) -> bool {
        0 < self.lap_time_ms < i32::MAX
    }

    /// The lap time as text.
    pub open spec fn time_text(self) -> Seq<char> {
        if self.recorded() {
            let t = self.lap_time_ms as nat;
            text::padded(text::decimal(t / 60000), 2, '0') + ":"@ + text::padded(
                text::decimal((t / 1000) % 60),
                2,
                '0',
            ) + "."@ + text::padded(text::decimal(t % 1000), 3, '0')
        } else {
            "--:--.---"@
        }
    }
}

impl LapInfo {
    pub fn is_recorded(&self) -> (r: bool)
        ensures
            r == self@.recorded(),
    {
        self.lap_time_ms != i32::MAX && self.lap_time_ms > 0
    }

    /// The lap time as `mm:ss.mmm`, or `--:--.---` where there is none.
    pub fn format(&self) -> (r: String)
        ensures
            r@ == self@.time_text(),
    {
        if !self.is_recorded() {
            return "--:--.---".to_owned();
        }
        let total: i64 = self.lap_time_ms as i64;
        let mut r: String = String::new();
        text::push_padded(&mut r, text::number(total / 60000).as_str(), 2, '0');
        r.append(":");
        text::push_padded(&mut r, text::number((total / 1000) % 60).as_str(), 2, '0');
        r.append(".");
        text::push_padded(&mut r, text::number(total % 1000).as_str(), 3, '0');
        assert(r@ == self@.time_text());
        r
    }
}

/// The name of a session type.
pub open spec fn session_type_text(t: u8) -> Seq<char> {
    match t {
        0 => "Practice"@,
        4 => "Qualifying"@,
        9 => "Superpole"@,
        10 => "Race"@,
        11 => "Hotlap"@,
        12 => "TimeAttack"@,
        13 => "HotStint"@,
        14 => "HotlapSuperpole"@,
        255 => "None"@,
        _ => "Unknown"@,
    }
}

/// The name of a session type.
pub fn session_type_name(t: u8) -> (r: &'static str)
    ensures
        r@ == session_type_text(t),
{
    match t {
        0 => "Practice",
        4 => "Qualifying",
        9 => "Superpole",
        10 => "Race",
        11 => "Hotlap",
        12 => "TimeAttack",
        13 => "HotStint",
        14 => "HotlapSuperpole",
        255 => "None",
        _ => "Unknown",
    }
}

/// The name of a session phase.
pub open spec fn session_phase_text(p: u8) -> Seq<char> {
    match p {
        0 => "None"@,
        1 => "Starting"@,
        2 => "PreFormation"@,
        3 => "FormationLap"@,
        4 => "PreSession"@,
        5 => "Session"@,
        6 => "SessionOver"@,
        7 => "PostSession"@,
        8 => "ResultUI"@,
        _ => "Unknown"@,
    }
}

/// The name of a session phase.
pub fn session_phase_name(p: u8) -> (r: &'static str)
    ensures
        r@ == session_phase_text(p),
{
    match p {
        0 => "None",
        1 => "Starting",
        2 => "PreFormation",
        3 => "FormationLap",
        4 => "PreSession",
        5 => "Session",
        6 => "SessionOver",
        7 => "PostSession",
        8 => "ResultUI",
        _ => "Unknown",
    }
}

/// The name of the place where a car is.
pub open spec fn car_location_text(loc: u8) -> Seq<char> {
    match loc {
        0 => "None"@,
        1 => "Track"@,
        2 => "Pitlane"@,
        3 => "PitEntry"@,
        4 => "PitExit"@,
        _ => "Unknown"@,
    }
}

/// The name of the place where a car is.
pub fn car_location_name(loc: u8) -> (r: &'static str)
    ensures
        r@ == car_location_text(loc),
{
    match loc {
        0 => "None",
        1 => "Track",
        2 => "Pitlane",
        3 => "PitEntry",
        4 => "PitExit",
        _ => "Unknown",
    }
}

/// A string of no more than 65535 bytes is read back from where it was written.
pub proof fn lemma_string_read_back(s: Seq<char>, b: Seq<u8>, p: int)
    requires
        vstd::utf8::encode_utf8(s).len() <= 0xFFFF,
        0 <= p,
        p + string_image(s).len() <= b.len(),
        b.subrange(p, p + string_image(s).len()) == string_image(s),
    ensures
        string_at(b, p) == Some((s, p + string_image(s).len())),
{
    let bytes = vstd::utf8::encode_utf8(s);
    let n = bytes.len();
    let image = string_image(s);
    assert(bytes.take(n as int) == bytes);
    assert(image.len() == n + 2);
    assert(b.subrange(p, p + 2) == wire::u16_image(n as u16)) by {
        assert(b.subrange(p, p + image.len()).take(2) == b.subrange(p, p + 2));
        assert(image.take(2) == wire::u16_image(n as u16));
    }
    wire::lemma_u16_read_back(n as u16, b, p);
    assert(b.subrange(p + 2, p + 2 + n) == bytes) by {
        assert(b.subrange(p, p + image.len()).skip(2) == b.subrange(p + 2, p + 2 + n));
        assert(image.skip(2) == bytes);
    }
    vstd::utf8::encode_utf8_valid_utf8(s);
    vstd::utf8::encode_utf8_decode_utf8(s);
}

/// A string of no more than 65535 bytes that was appended is read back from where
/// the bytes ended before, and ends where they end now.
pub proof fn lemma_appended_string_read_back(before: Seq<u8>, s: Seq<char>)
    requires
        vstd::utf8::encode_utf8(s).len() <= 0xFFFF,
    ensures
        ({
            let out = before + string_image(s);
            &&& string_at(out, before.len() as int) == Some((s, out.len() as int))
            &&& out.len() == before.len() + 2 + vstd::utf8::encode_utf8(s).len()
        }),
{
    let out = before + string_image(s);
    assert(out.subrange(before.len() as int, out.len() as int) =~= string_image(s));
    lemma_string_read_back(s, out, before.len() as int);
}

/// The game finds in a registration what the client has put there, as long as
/// no string is longer than 65535 bytes.
pub proof fn lemma_registration_read_back(
    display_name: Seq<char>,
    connection_password: Seq<char>,
    update_interval_ms: i32,
    command_password: Seq<char>,
)
    requires
        vstd::utf8::encode_utf8(display_name).len() <= 0xFFFF,
        vstd::utf8::encode_utf8(connection_password).len() <= 0xFFFF,
        vstd::utf8::encode_utf8(command_password).len() <= 0xFFFF,
    ensures
        ({
            let b = register_image(
                display_name,
                connection_password,
                update_interval_ms,
                command_password,
            );
            let p = 2 + string_image(display_name).len() as int;
            let q = p + string_image(connection_password).len();
            &&& b[0] == outbound::REGISTER_COMMAND_APPLICATION
            &&& b[1] == PROTOCOL_VERSION
            &&& b[0] == 1 && b[1] == 4
            &&& string_at(b, 2) == Some((display_name, p))
            &&& string_at(b, p) == Some((connection_password, q))
            &&& wire::i32_at(b, q) == update_interval_ms
            &&& string_at(b, q + 4) == Some((command_password, b.len() as int))
        }),
{
    let b = register_image(
        display_name,
        connection_password,
        update_interval_ms,
        command_password,
    );
    let x = string_image(display_name);
    let y = string_image(connection_password);
    let z = string_image(command_password);
    let p = 2 + x.len() as int;
    let q = p + y.len();
    assert(b.subrange(2, p) == x);
    assert(b.subrange(p, q) == y);
    assert(b.subrange(q, q + 4) == wire::i32_image(update_interval_ms));
    assert(b.subrange(q + 4, q + 4 + z.len()) == z);
    lemma_string_read_back(display_name, b, 2);
    lemma_string_read_back(connection_password, b, p);
    wire::lemma_i32_read_back(update_interval_ms, b, q);
    lemma_string_read_back(command_password, b, q + 4);
}

/// What a text of the form minutes, colon, two digits, point and three digits
/// says, in milliseconds.
pub open spec fn time_in(s: Seq<char>) -> nat {
    let n = s.len() as int;
    text::number_in(s.take(n - 7)) * 60000 + text::number_in(s.subrange(n - 6, n - 4)) * 1000
        + text::number_in(s.skip(n - 3))
}

/// Whether a text has the form minutes of at least two digits, colon, two digits
/// below 60, point and three digits.
pub open spec fn is_time(s: Seq<char>) -> bool {
    let n = s.len() as int;
    &&& n >= 9
    &&& s[n - 7] == ':'
    &&& s[n - 4] == '.'
    &&& text::all_digits(s.take(n - 7))
    &&& text::all_digits(s.subrange(n - 6, n - 4))
    &&& text::all_digits(s.skip(n - 3))
    &&& text::number_in(s.subrange(n - 6, n - 4)) < 60
}

/// The text of a lap time gives the time back. Without a time it is
/// `--:--.---`, which is the text of no time.
pub proof fn lemma_lap_time_read_back(lap: Lap)
    ensures
        lap.recorded() ==> is_time(lap.time_text()) && time_in(lap.time_text())
            == lap.lap_time_ms,
        lap.recorded() <==> lap.time_text() != "--:--.---"@,
{
    reveal_strlit("--:--.---");
    reveal_strlit(":");
    reveal_strlit(".");
    if lap.recorded() {
        let t = lap.lap_time_ms as nat;
        let minutes = text::padded(text::decimal(t / 60000), 2, '0');
        let seconds = text::padded(text::decimal((t / 1000) % 60), 2, '0');
        let millis = text::padded(text::decimal(t % 1000), 3, '0');
        text::lemma_padded_read_back(t / 60000, 2);
        text::lemma_padded_read_back((t / 1000) % 60, 2);
        text::lemma_padded_read_back(t % 1000, 3);
        text::lemma_decimal_read_back((t / 1000) % 60);
        text::lemma_decimal_read_back(t % 1000);
        let s = lap.time_text();
        let n = s.len() as int;
        assert(s == minutes + ":"@ + seconds + "."@ + millis);
        assert(s.take(n - 7) =~= minutes);
        assert(s.subrange(n - 6, n - 4) =~= seconds);
        assert(s.skip(n - 3) =~= millis);
        assert(s[0] == minutes[0]);
        assert("--:--.---"@[0] == '-');
    }
}

/// Two laps with a time read alike exactly where their times are equal, and a lap
/// with a time never reads like one without.
pub proof fn lemma_lap_times_read_alike(a: Lap, b: Lap)
    ensures
        a.recorded() && b.recorded() ==> (a.time_text() == b.time_text() <==> a.lap_time_ms
            == b.lap_time_ms),
        a.recorded() != b.recorded() ==> a.time_text() != b.time_text(),
{
    lemma_lap_time_read_back(a);
    lemma_lap_time_read_back(b);
}

/// How many bytes a session takes: 47, 8 more in a replay, those of the three
/// strings and four for each split. It has the times of a replay exactly in a
/// replay.
pub proof fn lemma_session_length(b: Seq<u8>, p: int)
    requires
        session_at(b, p) is Some,
    ensures
        ({
            let (v, end) = session_at(b, p)->0;
            let first = wire::u16_at(b, p + 18);
            let second = wire::u16_at(b, p + 20 + first);
            let third = wire::u16_at(b, p + 22 + first + second);
            &&& end - p == 47 + (if v.is_replay_playing {
                8int
            } else {
                0
            }) + first + second + third + 4 * v.best_session_lap.splits_ms.len()
            &&& end <= b.len()
            &&& v.replay_session_time_ms is Some <==> v.is_replay_playing
            &&& v.replay_remaining_time_ms is Some <==> v.is_replay_playing
        }),
{
}

/// How many bytes a car takes: 76, and four for each split of its three laps.
pub proof fn lemma_car_length(b: Seq<u8>, p: int)
    requires
        car_at(b, p) is Some,
    ensures
        ({
            let (v, end) = car_at(b, p)->0;
            &&& end - p == 76 + 4 * v.best_session_lap.splits_ms.len() + 4
                * v.last_lap.splits_ms.len() + 4 * v.current_lap.splits_ms.len()
            &&& end <= b.len()
        }),
{
}

/// Whether the bytes of `c` below `end`, as far as there are any, are those of
/// `b`.
pub open spec fn begins_alike(b: Seq<u8>, c: Seq<u8>, end: int) -> bool {
    forall|i: int| 0 <= i < end && i < c.len() ==> #[trigger] c[i] == b[i]
}

/// The bytes up to its end alone decide a string: where they are the same, the
/// string is, and where some of them are missing there is none.
pub proof fn lemma_string_prefix(b: Seq<u8>, c: Seq<u8>, p: int)
    requires
        0 <= p,
        string_at(b, p) is Some,
        begins_alike(b, c, (string_at(b, p)->0).1),
    ensures
        ({
            let end = (string_at(b, p)->0).1;
            &&& p + 2 <= end <= b.len()
            &&& c.len() >= end ==> string_at(c, p) == string_at(b, p)
            &&& c.len() < end ==> string_at(c, p) is None
        }),
{
    let end = (string_at(b, p)->0).1;
    if c.len() >= p + 2 {
        assert(c[p] == b[p] && c[p + 1] == b[p + 1]);
        if c.len() >= end {
            assert(c.subrange(p + 2, end) =~= b.subrange(p + 2, end));
        }
    }
}

/// The bytes up to its end alone decide a lap.
pub proof fn lemma_lap_prefix(b: Seq<u8>, c: Seq<u8>, p: int)
    requires
        0 <= p,
        lap_at(b, p) is Some,
        begins_alike(b, c, (lap_at(b, p)->0).1),
    ensures
        ({
            let end = (lap_at(b, p)->0).1;
            &&& p + 13 <= end <= b.len()
            &&& c.len() >= end ==> lap_at(c, p) == lap_at(b, p)
            &&& c.len() < end ==> lap_at(c, p) is None
        }),
{
    let end = (lap_at(b, p)->0).1;
    if c.len() >= p + 9 {
        assert(c[p + 8] == b[p + 8]);
        if c.len() >= end {
            let ours = (lap_at(b, p)->0).0.splits_ms;
            let theirs = (lap_at(c, p)->0).0.splits_ms;
            assert forall|i: int| 0 <= i < ours.len() implies ours[i] == theirs[i] by {
                lemma_i32_alike(b, c, p + 9 + 4 * i, end);
            }
            assert(ours =~= theirs);
            lemma_i32_alike(b, c, p, end);
        }
    }
}

proof fn lemma_i32_alike(b: Seq<u8>, c: Seq<u8>, i: int, end: int)
    requires
        0 <= i,
        i + 4 <= end <= c.len(),
        begins_alike(b, c, end),
    ensures
        wire::u32_at(c, i) == wire::u32_at(b, i),
{
    assert(c[i] == b[i] && c[i + 1] == b[i + 1] && c[i + 2] == b[i + 2] && c[i + 3] == b[i + 3]);
}

/// The bytes up to its end alone decide the answer to a registration.
pub proof fn lemma_registration_prefix(b: Seq<u8>, c: Seq<u8>, p: int)
    requires
        0 <= p,
        registration_at(b, p) is Some,
        begins_alike(b, c, (registration_at(b, p)->0).1),
    ensures
        ({
            let end = (registration_at(b, p)->0).1;
            &&& p + 8 <= end <= b.len()
            &&& c.len() >= end ==> registration_at(c, p) == registration_at(b, p)
            &&& c.len() < end ==> registration_at(c, p) is None
        }),
{
    let end = (registration_at(b, p)->0).1;
    lemma_string_prefix(b, c, p + 6);
    if c.len() >= end {
        lemma_i32_alike(b, c, p, end);
    }
}

/// The bytes up to its end alone decide a session: any bytes that begin with
/// them hold the same session, and any beginning of them that is shorter holds
/// none.
pub proof fn lemma_session_prefix(b: Seq<u8>, c: Seq<u8>, p: int)
    requires
        0 <= p,
        session_at(b, p) is Some,
        begins_alike(b, c, (session_at(b, p)->0).1),
    ensures
        ({
            let end = (session_at(b, p)->0).1;
            &&& p + 47 <= end <= b.len()
            &&& c.len() >= end ==> session_at(c, p) == session_at(b, p)
            &&& c.len() < end ==> session_at(c, p) is None
        }),
{
    let end = (session_at(b, p)->0).1;
    lemma_session_length(b, p);
    let p1 = (string_at(b, p + 18)->0).1;
    let p2 = (string_at(b, p1)->0).1;
    let q = (string_at(b, p2)->0).1;
    let t = if b[q] > 0 {
        q + 9
    } else {
        q + 1
    };
    assert(lap_at(b, t + 9) is Some && (lap_at(b, t + 9)->0).1 == end);
    lemma_lap_prefix(b, c, t + 9);
    assert(p + 20 <= p1 && p1 + 2 <= p2 && p2 + 2 <= q && q < t && t + 9 < end);
    lemma_string_prefix(b, c, p + 18);
    if c.len() >= p1 {
        lemma_string_prefix(b, c, p1);
        if c.len() >= p2 {
            lemma_string_prefix(b, c, p2);
            if c.len() >= q + 1 {
                assert(c[q] == b[q]);
            }
        }
    }
    if c.len() >= end {
        lemma_i32_alike(b, c, p + 6, end);
        lemma_i32_alike(b, c, p + 10, end);
        lemma_i32_alike(b, c, p + 14, end);
        lemma_i32_alike(b, c, q + 1, end);
        lemma_i32_alike(b, c, q + 5, end);
        lemma_i32_alike(b, c, t, end);
    }
}

/// The bytes up to its end alone decide a car.
pub proof fn lemma_car_prefix(b: Seq<u8>, c: Seq<u8>, p: int)
    requires
        0 <= p,
        car_at(b, p) is Some,
        begins_alike(b, c, (car_at(b, p)->0).1),
    ensures
        ({
            let end = (car_at(b, p)->0).1;
            &&& p + 76 <= end <= b.len()
            &&& c.len() >= end ==> car_at(c, p) == car_at(b, p)
            &&& c.len() < end ==> car_at(c, p) is None
        }),
{
    let end = (car_at(b, p)->0).1;
    lemma_car_length(b, p);
    let p1 = (lap_at(b, p + 37)->0).1;
    let p2 = (lap_at(b, p1)->0).1;
    assert((lap_at(b, p2)->0).1 == end);
    lemma_lap_prefix(b, c, p2);
    assert(p + 50 <= p1 && p1 + 13 <= p2);
    lemma_lap_prefix(b, c, p + 37);
    lemma_lap_prefix(b, c, p1);
    if c.len() >= end {
        lemma_i32_alike(b, c, p + 6, end);
        lemma_i32_alike(b, c, p + 10, end);
        lemma_i32_alike(b, c, p + 14, end);
        lemma_i32_alike(b, c, p + 27, end);
        lemma_i32_alike(b, c, p + 33, end);
    }
}

/// Where a message that was understood ends: behind its body.
pub open spec fn message_end(b: Seq<u8>) -> int {
    if b[0] == inbound::REGISTRATION_RESULT {
        (registration_at(b, 1)->0).1
    } else if b[0] == inbound::REALTIME_UPDATE {
        (session_at(b, 1)->0).1
    } else if b[0] == inbound::REALTIME_CAR_UPDATE {
        (car_at(b, 1)->0).1
    } else {
        b.len() as int
    }
}

/// The bytes up to its end alone decide a message that is understood: what
/// follows is passed over, and a datagram that was cut off says nothing.
pub proof fn lemma_message_prefix(b: Seq<u8>, c: Seq<u8>)
    requires
        message_in(b) is Some,
        !(message_in(b)->0 is Other),
        begins_alike(b, c, message_end(b)),
    ensures
        c.len() >= message_end(b) ==> message_in(c) == message_in(b),
        c.len() < message_end(b) ==> message_in(c) is None,
{
    if b[0] == inbound::REGISTRATION_RESULT {
        lemma_registration_prefix(b, c, 1);
    } else if b[0] == inbound::REALTIME_UPDATE {
        lemma_session_prefix(b, c, 1);
    } else {
        lemma_car_prefix(b, c, 1);
    }
    if c.len() > 0 {
        assert(c[0] == b[0]);
    }
}

/// A lap time of one millisecond to 2147483646 is shown as minutes, seconds and
/// thousandths that add up to it. Anything else is no lap time.
pub proof fn lemma_lap_time_shown(lap: Lap)
    ensures
        0 < lap.lap_time_ms < 2147483647 ==> is_time(lap.time_text()) && time_in(lap.time_text())
            == lap.lap_time_ms,
        !(0 < lap.lap_time_ms < 2147483647) ==> lap.time_text() == "--:--.---"@,
{
    lemma_lap_time_read_back(lap);
}

/// Where reading stops is never before its start nor behind the end of the bytes.
/// A lap, which has no field of more than four bytes, stops where fewer than four
/// bytes are left; the others stop there as well, or behind the length of a text
/// that is cut off.
pub proof fn lemma_reading_stops_where_it_is_cut_off(b: Seq<u8>, p: int)
    requires
        0 <= p <= b.len(),
    ensures
        string_at(b, p) is None ==> stops_well(b, p, string_stop(b, p)),
        lap_at(b, p) is None ==> p <= lap_stop(b, p) <= b.len() && b.len() - lap_stop(b, p) < 4,
        registration_at(b, p) is None ==> stops_well(b, p, registration_stop(b, p)),
        session_at(b, p) is None ==> stops_well(b, p, session_stop(b, p)),
        car_at(b, p) is None ==> p <= car_stop(b, p) <= b.len() && b.len() - car_stop(b, p) < 4,
{
    lemma_lap_stops(b, p);
    lemma_session_stops(b, p);
    lemma_car_stops(b, p);
}

/// Whether `stop` lies between `p` and the end, and either fewer than four bytes are
/// left there or it is right behind the length of a text that is cut off.
pub open spec fn stops_well(b: Seq<u8>, p: int, stop: int) -> bool {
    &&& p <= stop <= b.len()
    &&& b.len() - stop < 4 || (stop >= p + 2 && stop + wire::u16_at(b, stop - 2) > b.len())
}

proof fn lemma_lap_stops(b: Seq<u8>, p: int)
    requires
        0 <= p <= b.len(),
    ensures
        lap_at(b, p) is None ==> p <= lap_stop(b, p) <= b.len() && b.len() - lap_stop(b, p) < 4,
        lap_at(b, p) matches Some((_, end)) ==> p <= end <= b.len(),
{
}

proof fn lemma_string_stops(b: Seq<u8>, p: int)
    requires
        0 <= p <= b.len(),
    ensures
        string_at(b, p) is None ==> stops_well(b, p, string_stop(b, p)),
        string_at(b, p) matches Some((_, end)) ==> p <= end <= b.len(),
{
}

proof fn lemma_session_stops(b: Seq<u8>, p: int)
    requires
        0 <= p <= b.len(),
    ensures
        session_at(b, p) is None ==> stops_well(b, p, session_stop(b, p)),
{
    if p + 18 <= b.len() {
        lemma_string_stops(b, p + 18);
        if let Some((_, p1)) = string_at(b, p + 18) {
            lemma_string_stops(b, p1);
            if let Some((_, p2)) = string_at(b, p1) {
                lemma_string_stops(b, p2);
                if let Some((_, q)) = string_at(b, p2) {
                    let t = if b[q] > 0 {
                        q + 9
                    } else {
                        q + 1
                    };
                    if t + 9 <= b.len() {
                        lemma_lap_stops(b, t + 9);
                    }
                }
            }
        }
    }
}

proof fn lemma_car_stops(b: Seq<u8>, p: int)
    requires
        0 <= p <= b.len(),
    ensures
        car_at(b, p) is None ==> p <= car_stop(b, p) <= b.len() && b.len() - car_stop(b, p) < 4,
{
    if p + 37 <= b.len() {
        lemma_lap_stops(b, p + 37);
        if let Some((_, p1)) = lap_at(b, p + 37) {
            lemma_lap_stops(b, p1);
            if let Some((_, p2)) = lap_at(b, p1) {
                lemma_lap_stops(b, p2);
            }
        }
    }
}

/// The phases of a session and the places of a car are numbered from zero in the
/// order of the protocol, and no other number has a name.
pub proof fn lemma_names_in_order(n: u8)
    ensures
        n < 9 ==> session_phase_text(n) == seq![
            "None"@,
            "Starting"@,
            "PreFormation"@,
            "FormationLap"@,
            "PreSession"@,
            "Session"@,
            "SessionOver"@,
            "PostSession"@,
            "ResultUI"@,
        ][n as int],
        n >= 9 ==> session_phase_text(n) == "Unknown"@,
        n < 5 ==> car_location_text(n) == seq![
            "None"@,
            "Track"@,
            "Pitlane"@,
            "PitEntry"@,
            "PitExit"@,
        ][n as int],
        n >= 5 ==> car_location_text(n) == "Unknown"@,
{
}

/// Of the session types, practice is 0, qualifying 4, those from superpole to hotlap
/// superpole follow each other from 9 on, and 255 is none. No other number has a
/// name.
pub proof fn lemma_names_of_session_types(n: u8)
    ensures
        n == 0 ==> session_type_text(n) == "Practice"@,
        n == 4 ==> session_type_text(n) == "Qualifying"@,
        9 <= n < 15 ==> session_type_text(n) == seq![
            "Superpole"@,
            "Race"@,
            "Hotlap"@,
            "TimeAttack"@,
            "HotStint"@,
            "HotlapSuperpole"@,
        ][n - 9],
        n == 255 ==> session_type_text(n) == "None"@,
        0 < n < 4 || 4 < n < 9 || 15 <= n < 255 ==> session_type_text(n) == "Unknown"@,
{
}

} // verus!
