use moza_rev::assetto_corsa_competizione::{
    build_register, build_unregister, car_location_name, inbound, parse_message, session_phase_name,
    session_type_name, write_string, LapInfo, Message, Reader, RealtimeCarUpdate, PROTOCOL_VERSION,
};
use moza_rev::binary32::Binary32;

#[test]
fn register_packet_layout() {
    let pkt = build_register("hello", "secret", 250, "");
    assert_eq!(pkt[0], 1);
    assert_eq!(pkt[1], PROTOCOL_VERSION);
    assert_eq!(&pkt[2..4], &5u16.to_le_bytes());
    assert_eq!(&pkt[4..9], b"hello");
    assert_eq!(&pkt[9..11], &6u16.to_le_bytes());
    assert_eq!(&pkt[11..17], b"secret");
    assert_eq!(&pkt[17..21], &250i32.to_le_bytes());
    assert_eq!(&pkt[21..23], &0u16.to_le_bytes());
    assert_eq!(pkt.len(), 23);
}

#[test]
fn unregister_packet_layout() {
    let pkt = build_unregister(0x01020304);
    assert_eq!(pkt, [9, 0x04, 0x03, 0x02, 0x01]);
}

#[test]
fn registration_result_decodes() {
    let mut buf = vec![inbound::REGISTRATION_RESULT];
    buf.extend_from_slice(&42i32.to_le_bytes());
    buf.push(1);
    buf.push(0);
    buf.extend_from_slice(&0u16.to_le_bytes());
    match parse_message(&buf).unwrap() {
        Message::RegistrationResult(r) => {
            assert_eq!(r.connection_id, 42);
            assert!(r.success);
            assert!(r.readonly);
            assert_eq!(r.error_message, "");
        }
        _ => panic!("wrong variant"),
    }
}

#[test]
fn lap_format_handles_sentinel() {
    let lap = LapInfo {
        lap_time_ms: i32::MAX,
        car_index: 0,
        driver_index: 0,
        splits_ms: vec![],
        is_invalid: false,
        is_valid_for_best: true,
        is_outlap: false,
        is_inlap: false,
    };
    assert_eq!(lap.format(), "--:--.---");
    let lap2 = LapInfo {
        lap_time_ms: 102_345,
        ..lap
    };
    assert_eq!(lap2.format(), "01:42.345");
}

#[test]
fn gear_label_handles_acc_offsets() {
    let mut c = sample_car_update();
    c.gear = -2;
    assert_eq!(c.gear_label(), "?");
    c.gear = -1;
    assert_eq!(c.gear_label(), "R");
    c.gear = 0;
    assert_eq!(c.gear_label(), "N");
    c.gear = 4;
    assert_eq!(c.gear_label(), "4");
}

fn zero() -> Binary32 {
    Binary32::from_bits(0.0f32.to_bits())
}

fn sample_car_update() -> RealtimeCarUpdate {
    RealtimeCarUpdate {
        car_index: 0,
        driver_index: 0,
        driver_count: 1,
        gear: 0,
        world_pos_x: zero(),
        world_pos_y: zero(),
        yaw: zero(),
        car_location: 0,
        kmh: 0,
        position: 0,
        cup_position: 0,
        track_position: 0,
        spline_position: zero(),
        laps: 0,
        delta_ms: 0,
        best_session_lap: empty_lap(),
        last_lap: empty_lap(),
        current_lap: empty_lap(),
    }
}

fn empty_lap() -> LapInfo {
    LapInfo {
        lap_time_ms: i32::MAX,
        car_index: 0,
        driver_index: 0,
        splits_ms: vec![],
        is_invalid: false,
        is_valid_for_best: true,
        is_outlap: false,
        is_inlap: false,
    }
}

fn push_string(buf: &mut Vec<u8>, s: &[u8]) {
    buf.extend_from_slice(&(s.len() as u16).to_le_bytes());
    buf.extend_from_slice(s);
}

fn push_lap(buf: &mut Vec<u8>, time: i32, splits: &[i32]) {
    buf.extend_from_slice(&time.to_le_bytes());
    buf.extend_from_slice(&7u16.to_le_bytes());
    buf.extend_from_slice(&1u16.to_le_bytes());
    buf.push(splits.len() as u8);
    for s in splits {
        buf.extend_from_slice(&s.to_le_bytes());
    }
    buf.extend_from_slice(&[0, 1, 0, 2]);
}

fn session(replay: bool) -> Vec<u8> {
    let mut buf = vec![inbound::REALTIME_UPDATE];
    buf.extend_from_slice(&3u16.to_le_bytes());
    buf.extend_from_slice(&4u16.to_le_bytes());
    buf.extend_from_slice(&[10, 5]);
    buf.extend_from_slice(&1234.5f32.to_le_bytes());
    buf.extend_from_slice(&99.0f32.to_le_bytes());
    buf.extend_from_slice(&(-1i32).to_le_bytes());
    push_string(&mut buf, "Drivable".as_bytes());
    push_string(&mut buf, "Kamera é".as_bytes());
    push_string(&mut buf, b"HUD \xFF");
    buf.push(replay as u8);
    if replay {
        buf.extend_from_slice(&111i32.to_le_bytes());
        buf.extend_from_slice(&222i32.to_le_bytes());
    }
    buf.extend_from_slice(&(13.0f32 * 3600.0 + 45.0 * 60.0 + 59.0).to_le_bytes());
    buf.extend_from_slice(&[0xF6, 31, 7, 0, 10]);
    push_lap(&mut buf, 90_001, &[30_000, -5]);
    buf
}

#[test]
fn session_updates_are_decoded() {
    match parse_message(&session(false)).unwrap() {
        Message::RealtimeUpdate(u) => {
            assert_eq!((u.event_index, u.session_index), (3, 4));
            assert_eq!((u.session_type, u.phase), (10, 5));
            assert_eq!(f32::from_bits(u.session_time_ms.bits), 1234.5);
            assert_eq!(f32::from_bits(u.session_end_time_ms.bits), 99.0);
            assert_eq!(u.focused_car_index, -1);
            assert_eq!(u.active_camera_set, "Drivable");
            assert_eq!(u.active_camera, "Kamera é");
            assert_eq!(u.current_hud_page, "HUD \u{FFFD}");
            assert!(!u.is_replay_playing);
            assert_eq!(u.replay_session_time_ms, None);
            assert_eq!(u.replay_remaining_time_ms, None);
            assert_eq!(u.time_of_day(), (13, 45));
            assert_eq!((u.ambient_temp_c, u.track_temp_c), (-10, 31));
            assert_eq!(f32::from_bits(u.clouds.bits), 7.0 / 10.0);
            assert_eq!(f32::from_bits(u.rain_level.bits), 0.0);
            assert_eq!(f32::from_bits(u.wetness.bits), 1.0);
            assert_eq!(u.best_session_lap.splits_ms, vec![30_000, -5]);
            assert_eq!(u.best_session_lap.format(), "01:30.001");
            assert!(u.best_session_lap.is_valid_for_best && u.best_session_lap.is_inlap);
            assert!(!u.best_session_lap.is_invalid && !u.best_session_lap.is_outlap);
            let copy = u.clone();
            assert_eq!(copy.active_camera, u.active_camera);
            assert_eq!(copy.best_session_lap.splits_ms, u.best_session_lap.splits_ms);
        }
        _ => panic!("wrong variant"),
    }
}

#[test]
fn a_replay_has_two_more_fields() {
    match parse_message(&session(true)).unwrap() {
        Message::RealtimeUpdate(u) => {
            assert!(u.is_replay_playing);
            assert_eq!(u.replay_session_time_ms, Some(111));
            assert_eq!(u.replay_remaining_time_ms, Some(222));
            assert_eq!(u.time_of_day(), (13, 45));
        }
        _ => panic!("wrong variant"),
    }
}

#[test]
fn messages_that_end_early_are_none() {
    for whole in [session(false), session(true), car(0)] {
        for n in 0..whole.len() {
            assert!(parse_message(&whole[..n]).is_none(), "{n}");
        }
        assert!(parse_message(&whole).is_some());
    }
}

fn car(gear: u8) -> Vec<u8> {
    let mut buf = vec![inbound::REALTIME_CAR_UPDATE];
    buf.extend_from_slice(&11u16.to_le_bytes());
    buf.extend_from_slice(&12u16.to_le_bytes());
    buf.push(2);
    buf.push(gear);
    buf.extend_from_slice(&1.0f32.to_le_bytes());
    buf.extend_from_slice(&2.0f32.to_le_bytes());
    buf.extend_from_slice(&3.0f32.to_le_bytes());
    buf.push(1);
    for n in [201u16, 5, 6, 7] {
        buf.extend_from_slice(&n.to_le_bytes());
    }
    buf.extend_from_slice(&0.25f32.to_le_bytes());
    buf.extend_from_slice(&8u16.to_le_bytes());
    buf.extend_from_slice(&(-321i32).to_le_bytes());
    push_lap(&mut buf, 1, &[]);
    push_lap(&mut buf, 2, &[4]);
    push_lap(&mut buf, 3, &[5, 6, 7]);
    buf
}

#[test]
fn car_updates_are_decoded() {
    match parse_message(&car(5)).unwrap() {
        Message::RealtimeCarUpdate(c) => {
            assert_eq!((c.car_index, c.driver_index, c.driver_count), (11, 12, 2));
            assert_eq!(c.gear, 3);
            assert_eq!(f32::from_bits(c.yaw.bits), 3.0);
            assert_eq!(c.car_location, 1);
            assert_eq!((c.kmh, c.position, c.cup_position, c.track_position), (201, 5, 6, 7));
            assert_eq!(f32::from_bits(c.spline_position.bits), 0.25);
            assert_eq!((c.laps, c.delta_ms), (8, -321));
            assert_eq!(c.best_session_lap.lap_time_ms, 1);
            assert_eq!(c.last_lap.splits_ms, vec![4]);
            assert_eq!(c.current_lap.splits_ms, vec![5, 6, 7]);
        }
        _ => panic!("wrong variant"),
    }
}

#[test]
fn gears_wrap_as_bytes_do() {
    for byte in 0..=255u8 {
        match parse_message(&car(byte)).unwrap() {
            Message::RealtimeCarUpdate(c) => assert_eq!(c.gear, (byte as i16 - 2) as i8),
            _ => panic!("wrong variant"),
        }
    }
}

#[test]
fn other_messages_are_counted() {
    match parse_message(&[inbound::TRACK_DATA, 1, 2, 3]).unwrap() {
        Message::Other { msg_type, body_len } => assert_eq!((msg_type, body_len), (5, 3)),
        _ => panic!("wrong variant"),
    }
    assert!(parse_message(&[]).is_none());
}

#[test]
fn a_rejection_carries_its_reason() {
    let mut buf = vec![inbound::REGISTRATION_RESULT];
    buf.extend_from_slice(&(-1i32).to_le_bytes());
    buf.extend_from_slice(&[0, 1]);
    push_string(&mut buf, b"Wrong password");
    match parse_message(&buf).unwrap() {
        Message::RegistrationResult(r) => {
            assert!(!r.success && !r.readonly);
            assert_eq!(r.error_message, "Wrong password");
        }
        _ => panic!("wrong variant"),
    }
}

#[test]
fn long_strings_are_cut_off() {
    let pkt = build_register(&"x".repeat(70_000), "", 0, "");
    assert_eq!(&pkt[2..4], &[0xFF, 0xFF]);
    assert_eq!(pkt.len(), 2 + 2 + 65_535 + 2 + 4 + 2);
}

#[test]
fn laps_are_recorded_between_zero_and_the_sentinel() {
    for (time, recorded, text) in [
        (0, false, "--:--.---"),
        (-5, false, "--:--.---"),
        (1, true, "00:00.001"),
        (i32::MAX - 1, true, "35791:23.646"),
    ] {
        let lap = LapInfo {
            lap_time_ms: time,
            ..empty_lap()
        };
        assert_eq!(lap.is_recorded(), recorded);
        assert_eq!(lap.format(), text);
    }
}

#[test]
fn codes_have_names() {
    assert_eq!(session_type_name(0), "Practice");
    assert_eq!(session_type_name(14), "HotlapSuperpole");
    assert_eq!(session_type_name(255), "None");
    assert_eq!(session_type_name(3), "Unknown");
    assert_eq!(session_phase_name(3), "FormationLap");
    assert_eq!(session_phase_name(9), "Unknown");
    assert_eq!(car_location_name(2), "Pitlane");
    assert_eq!(car_location_name(77), "Unknown");
}

const SESSION: [u8; 55] = [
    1, 0, 2, 0, 10, 5, 0, 0, 0, 0, 0, 0, 0, 0, 7, 0, 0, 0, 0, 0, 0, 0, 0, 0, 1, 16, 39, 0, 0, 32,
    78, 0, 0, 0, 0, 0, 0, 25, 246, 5, 0, 10, 255, 255, 255, 127, 3, 0, 4, 0, 0, 0, 1, 0, 0,
];

#[test]
fn the_reader_stands_behind_a_session() {
    let mut more = SESSION.to_vec();
    more.extend_from_slice(&[1, 2, 3]);
    for buf in [&SESSION[..], &more[..]] {
        let mut r = Reader::new(buf);
        let u = r.parse_realtime_update().unwrap();
        assert_eq!((u.event_index, u.session_index, u.session_type, u.phase), (1, 2, 10, 5));
        assert_eq!(u.focused_car_index, 7);
        assert!(u.is_replay_playing);
        assert_eq!(u.replay_session_time_ms, Some(10000));
        assert_eq!(u.replay_remaining_time_ms, Some(20000));
        assert_eq!(u.time_of_day_seconds, zero());
        assert_eq!((u.ambient_temp_c, u.track_temp_c), (25, -10));
        assert_eq!(f32::from_bits(u.clouds.bits), 0.5);
        assert_eq!(f32::from_bits(u.wetness.bits), 1.0);
        assert_eq!(u.best_session_lap.lap_time_ms, i32::MAX);
        assert_eq!((u.best_session_lap.car_index, u.best_session_lap.driver_index), (3, 4));
        assert_eq!(r.pos, 55);
    }
    for n in 0..55 {
        let mut r = Reader::new(&SESSION[..n]);
        assert!(r.parse_realtime_update().is_none());
        assert!(r.pos <= n);
    }
}

#[test]
fn the_reader_stands_behind_a_car() {
    let lap = |t: [u8; 4]| [&t[..], &[0, 0, 0, 0, 0, 0, 1, 0, 0]].concat();
    let buf = [
        vec![9, 0, 1, 0, 2, 6],
        vec![0; 12],
        vec![1, 180, 0, 3, 0, 2, 0, 4, 0],
        vec![0; 4],
        vec![5, 0, 24, 252, 255, 255],
        lap([255, 255, 255, 127]),
        lap([201, 143, 1, 0]),
        lap([16, 39, 0, 0]),
    ]
    .concat();
    let mut r = Reader::new(&buf);
    let c = r.parse_realtime_car_update().unwrap();
    assert_eq!((c.car_index, c.driver_index, c.driver_count, c.gear), (9, 1, 2, 4));
    assert_eq!((c.car_location, c.kmh, c.position), (1, 180, 3));
    assert_eq!((c.cup_position, c.track_position, c.laps, c.delta_ms), (2, 4, 5, -1000));
    assert_eq!(c.best_session_lap.lap_time_ms, i32::MAX);
    assert_eq!(c.last_lap.lap_time_ms, 102345);
    assert_eq!(c.current_lap.lap_time_ms, 10000);
    assert_eq!(r.pos, 76);
    for n in 0..76 {
        assert!(Reader::new(&buf[..n]).parse_realtime_car_update().is_none());
    }
}

#[test]
fn the_reader_stops_before_what_is_cut_off() {
    let mut r = Reader::new(&[1, 2, 3]);
    assert_eq!(r.take(4), None);
    assert_eq!(r.read_i32_le(), None);
    assert_eq!(r.pos, 0);
    assert_eq!(r.take(2), Some(&[1u8, 2][..]));
    assert_eq!(r.read_u16_le(), None);
    assert_eq!(r.read_i8(), Some(3));
    assert_eq!(r.read_u8(), None);
    assert_eq!(r.pos, 3);
    let mut r = Reader::new(&[5, 0, b'a']);
    assert_eq!(r.read_string(), None);
    assert_eq!(r.pos, 2);
    let mut r = Reader::new(&SESSION[..12]);
    assert!(r.parse_realtime_update().is_none());
    assert_eq!(r.pos, 10);
    let mut r = Reader::new(&[0, 0, 0, 0, 0, 0, 0, 0, 3, 1, 1, 1, 1, 2, 2]);
    assert!(r.parse_lap().is_none());
    assert_eq!(r.pos, 13);
    let mut r = Reader {
        buf: &[1],
        pos: 7,
    };
    assert_eq!(r.read_u8(), None);
    assert_eq!(r.pos, 7);
}

#[test]
fn the_reader_stands_behind_an_answer() {
    let mut r = Reader::new(&[7, 0, 0, 0, 1, 0, 2, 0, b'o', b'k', 9]);
    let a = r.parse_registration().unwrap();
    assert_eq!((a.connection_id, a.success, a.readonly), (7, true, true));
    assert_eq!(a.error_message, "ok");
    assert_eq!(r.pos, 10);
}

#[test]
fn strings_are_read_back() {
    for s in ["", "moza", "Nürburgring 日本", &"x".repeat(65535)] {
        let mut out = vec![1, 2, 3];
        write_string(&mut out, s);
        assert_eq!(&out[..3], &[1, 2, 3]);
        assert_eq!(out.len(), 3 + 2 + s.len());
        let mut r = Reader { buf: &out, pos: 3 };
        assert_eq!(r.read_string().as_deref(), Some(s));
        assert_eq!(r.pos, out.len());
    }
}

#[test]
fn lap_times_are_read_back() {
    for t in [1, 999, 1000, 59_999, 60_000, 102_345, 6_000_000, i32::MAX - 1] {
        let mut lap = empty_lap();
        lap.lap_time_ms = t;
        let text = lap.format();
        let (m, rest) = text.split_once(':').unwrap();
        let (s, ms) = rest.split_once('.').unwrap();
        assert!(m.len() >= 2 && s.len() == 2 && ms.len() == 3);
        let n = |x: &str| x.parse::<i64>().unwrap();
        assert!(n(s) < 60);
        assert_eq!(n(m) * 60000 + n(s) * 1000 + n(ms), t as i64);
    }
}
