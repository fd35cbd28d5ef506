use moza_rev::binary32::Binary32;
use moza_rev::listeners::assetto_corsa::{Action, Conversation, Event, Stage};
use moza_rev::listeners::redline::RedlineTracker;
use moza_rev::listeners::{
    assetto_corsa, bind_address, codemasters_legacy, forza, local_address, madness, outgauge,
    thread_name, wreckfest_2, EngineState, GameId,
};

fn state(rpm: i32, rpm_redline: i32, rpm_idle: i32) -> Option<EngineState> {
    Some(EngineState {
        rpm,
        rpm_redline,
        rpm_idle,
    })
}

fn put(buf: &mut [u8], at: usize, bytes: &[u8]) {
    buf[at..at + bytes.len()].copy_from_slice(bytes);
}

#[test]
fn wreckfest_main_packets_carry_the_engine() {
    let mut buf = vec![0u8; 1218];
    put(&mut buf, 0, &1869769584u32.to_le_bytes());
    put(&mut buf, 435, &4200i32.to_le_bytes());
    put(&mut buf, 443, &7000i32.to_le_bytes());
    put(&mut buf, 447, &800i32.to_le_bytes());
    assert_eq!(wreckfest_2::parse(&buf), state(4200, 7000, 800));
    assert_eq!(wreckfest_2::parse(&buf[..1217]), None);
    buf[4] = 6;
    assert_eq!(wreckfest_2::parse(&buf), None);
}

#[test]
fn codemasters_menus_are_passed_over() {
    let mut buf = vec![0u8; 264];
    put(&mut buf, 148, &512.5f32.to_le_bytes());
    put(&mut buf, 252, &750.0f32.to_le_bytes());
    put(&mut buf, 256, &75.0f32.to_le_bytes());
    assert_eq!(codemasters_legacy::parse(&buf), state(5125, 7500, 750));
    assert_eq!(codemasters_legacy::parse(&buf[..263]), None);
    put(&mut buf, 252, &75.0f32.to_le_bytes());
    assert_eq!(codemasters_legacy::parse(&buf), None);
}

#[test]
fn madness_assumes_an_idle_speed() {
    let mut buf = vec![0u8; 559];
    put(&mut buf, 40, &3333u16.to_le_bytes());
    assert_eq!(madness::parse(&buf), None);
    put(&mut buf, 42, &8500u16.to_le_bytes());
    assert_eq!(madness::parse(&buf), state(3333, 8500, 800));
    buf[10] = 1;
    assert_eq!(madness::parse(&buf), None);
}

#[test]
fn forza_counts_only_while_racing() {
    let mut buf = vec![0u8; 324];
    put(&mut buf, 8, &8000.9f32.to_le_bytes());
    put(&mut buf, 12, &900.5f32.to_le_bytes());
    put(&mut buf, 16, &4000.0f32.to_le_bytes());
    assert_eq!(forza::parse(&buf), None);
    buf[0] = 1;
    assert_eq!(forza::parse(&buf), state(4000, 8000, 900));
    put(&mut buf, 8, &900.0f32.to_le_bytes());
    assert_eq!(forza::parse(&buf), None);
    put(&mut buf, 8, &1.0f32.to_le_bytes());
    put(&mut buf, 12, &(-5.0f32).to_le_bytes());
    assert_eq!(forza::parse(&buf), None);
}

fn gauge(rpm: f32) -> Vec<u8> {
    let mut buf = vec![0u8; 96];
    put(&mut buf, 16, &rpm.to_le_bytes());
    buf
}

#[test]
fn outgauge_redline_adapts() {
    let mut tracker = RedlineTracker::new();
    assert_eq!(outgauge::observe(&mut tracker, &gauge(3000.7)), state(3000, 7000, 800));
    assert_eq!(outgauge::observe(&mut tracker, &gauge(8123.9)), state(8123, 8123, 800));
    assert_eq!(outgauge::observe(&mut tracker, &gauge(4000.0)), state(4000, 8123, 800));
    assert_eq!(outgauge::observe(&mut tracker, &gauge(4000.0)[..91]), None);
    assert_eq!(f32::from_bits(tracker.max_rpm.bits), 8123.9);
}

#[test]
fn outgauge_frames_below_idle_are_skipped() {
    let mut tracker = RedlineTracker::new();
    assert_eq!(outgauge::observe(&mut tracker, &gauge(0.0)), None);
    assert_eq!(outgauge::observe(&mut tracker, &gauge(799.9)), None);
    assert_eq!(outgauge::observe(&mut tracker, &gauge(-1.0)), None);
    assert_eq!(outgauge::observe(&mut tracker, &gauge(800.0)), state(800, 7000, 800));
    assert_eq!(outgauge::observe(&mut tracker, &gauge(f32::NAN)), state(0, 7000, 800));
    assert_eq!(tracker, RedlineTracker::new());
}

fn car(rpm: f32) -> Vec<u8> {
    let mut buf = vec![0u8; 328];
    put(&mut buf, 68, &rpm.to_le_bytes());
    buf
}

fn request(op: i32) -> Vec<u8> {
    let mut b = Vec::new();
    for n in [1i32, 1, op] {
        b.extend_from_slice(&n.to_le_bytes());
    }
    b
}

fn streaming() -> Conversation {
    let mut c = Conversation::new();
    assert!(matches!(c.step(Event::Done, 0), Action::Send(b) if b.to_vec() == request(0)));
    assert!(matches!(c.step(Event::Done, 0), Action::Receive));
    assert!(matches!(
        c.step(Event::Received(vec![0; 408]), 0),
        Action::Send(b) if b.to_vec() == request(1)
    ));
    assert!(matches!(c.step(Event::Done, 0), Action::LimitStream));
    assert!(matches!(c.step(Event::Done, 0), Action::Receive));
    assert_eq!(c.stage, Stage::Streaming);
    c
}

#[test]
fn assetto_corsa_is_asked_before_it_streams() {
    let mut c = streaming();
    match c.step(Event::Received(car(6000.5)), 5) {
        Action::Forward(e) => assert_eq!(Some(e), state(6000, 7000, 800)),
        _ => panic!("wrong action"),
    }
}

#[test]
fn assetto_corsa_states_are_passed_on_at_intervals() {
    let mut c = streaming();
    let ms = 1_000_000;
    assert!(matches!(c.step(Event::Received(car(5000.0)), 100 * ms), Action::Forward(_)));
    assert!(matches!(c.step(Event::Received(car(9000.0)), 115 * ms), Action::Receive));
    match c.step(Event::Received(car(6000.0)), 116 * ms) {
        Action::Forward(e) => assert_eq!(Some(e), state(6000, 9000, 800)),
        _ => panic!("wrong action"),
    }
    assert!(matches!(c.step(Event::Received(car(1.0)), 200 * ms), Action::Receive));
    assert!(matches!(c.step(Event::Received(vec![0; 327]), 200 * ms), Action::Receive));
    assert!(matches!(c.step(Event::Received(car(1.5)), 200 * ms), Action::Forward(_)));
}

#[test]
fn assetto_corsa_starts_over_after_a_failure() {
    let mut c = streaming();
    assert!(matches!(c.step(Event::Failed, 0), Action::Dismiss(b) if b.to_vec() == request(3)));
    assert_eq!(c.stage, Stage::Opening);
    assert!(matches!(c.step(Event::Failed, 0), Action::Retry));
    c.step(Event::Done, 0);
    assert!(matches!(c.step(Event::Failed, 0), Action::Retry));
    c.step(Event::Done, 0);
    c.step(Event::Done, 0);
    assert!(matches!(c.step(Event::Received(vec![0; 407]), 0), Action::Retry));
    assert_eq!(c.stage, Stage::Opening);
    c.step(Event::Done, 0);
    c.step(Event::Done, 0);
    assert!(matches!(c.step(Event::Failed, 0), Action::Retry));
    c.step(Event::Done, 0);
    c.step(Event::Done, 0);
    c.step(Event::Received(vec![0; 408]), 0);
    assert!(matches!(c.step(Event::Failed, 0), Action::Open));
    c.step(Event::Done, 0);
    c.step(Event::Done, 0);
    c.step(Event::Received(vec![0; 408]), 0);
    c.step(Event::Done, 0);
    assert!(matches!(c.step(Event::Failed, 0), Action::Open));
    assert_eq!(c.stage, Stage::Opening);
}

#[test]
fn a_redline_survives_a_new_session() {
    let mut c = streaming();
    c.step(Event::Received(car(9500.0)), 0);
    c.step(Event::Failed, 0);
    assert_eq!(c.tracker.max_rpm, Binary32::from_bits(9500.0f32.to_bits()));
    assert_eq!(assetto_corsa::HANDSHAKE_RETRY, 3_000_000_000);
}

#[test]
fn games_have_tags_and_names() {
    let tags: Vec<&str> = [
        GameId::Wreckfest2,
        GameId::CodemastersLegacy,
        GameId::BeamNG,
        GameId::Ams2,
        GameId::AssettoCorsa,
        GameId::Forza,
    ]
    .iter()
    .map(|g| g.label())
    .collect();
    assert_eq!(tags, vec!["WF2", "DR2", "BNG", "AMS2", "AC", "FZA"]);
    assert_eq!(GameId::AssettoCorsa.name(), "Assetto Corsa");
    assert_eq!(GameId::Forza.name(), "Forza (FM7 / FH4 / FH5)");
    assert_eq!(bind_address(4444), "0.0.0.0:4444");
    assert_eq!(local_address(65535), "127.0.0.1:65535");
    assert_eq!(thread_name(GameId::BeamNG), "listener-BNG");
}

#[test]
fn the_redline_is_the_largest_speed_so_far() {
    let speeds = [900.0f32, 7000.5, 3000.0, 9001.9, 800.0, f32::NAN, 9001.0, 12000.0];
    let mut tracker = RedlineTracker::new();
    let mut largest = 7000.0f32;
    for rpm in speeds {
        largest = largest.max(rpm);
        let e = outgauge::observe(&mut tracker, &gauge(rpm)).unwrap();
        assert_eq!((e.rpm, e.rpm_redline, e.rpm_idle), (rpm as i32, largest as i32, 800));
        assert!(e.rpm <= e.rpm_redline);
    }
    let mut c = streaming();
    let mut largest = 7000.0f32;
    for (i, rpm) in speeds.iter().enumerate() {
        largest = largest.max(*rpm);
        match c.step(Event::Received(car(*rpm)), (i as u64 + 1) * 16_000_000) {
            Action::Forward(e) => assert_eq!(e.rpm_redline, largest as i32),
            other => panic!("wrong action: {other:?}"),
        }
    }
}
