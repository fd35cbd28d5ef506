use moza_rev::binary32::Binary32;
use moza_rev::cli::{Cli, Command, ListenArgs, ProtocolArg};
use moza_rev::listeners::{EngineState, GameId, Update};
use moza_rev::moza::{BaseTemps, Protocol};
use moza_rev::runtime::{temp_warnings, wheel_to_open, Action, Event, Runtime};

const MS: u64 = 1_000_000;

fn update(game: GameId, rpm: i32) -> Update {
    Update {
        game,
        engine: EngineState {
            rpm,
            rpm_redline: 6500,
            rpm_idle: 800,
        },
    }
}

/// Runs the loop until it waits for telemetry, and says what it did.
fn until_receive(r: &mut Runtime, mut event: Event, now: u64, writes: bool) -> Vec<String> {
    let mut done = Vec::new();
    loop {
        let action = r.step(event, now);
        event = match &action {
            Action::OpenWheel => Event::Opened(writes),
            Action::WriteLights(_) => Event::Written(writes),
            Action::Receive => return done,
            _ => Event::Done,
        };
        done.push(match action {
            Action::OpenWheel => "open".to_string(),
            Action::PollTemps => "temps".to_string(),
            Action::AnnounceStart(g) => format!("start {}", g.label()),
            Action::AnnounceStop(g) => format!("stop {}", g.label()),
            Action::WriteLights(m) => format!("write {m:X}"),
            Action::Print(s) => format!("print {s}"),
            Action::Exit => return vec!["exit".to_string()],
            Action::Receive => unreachable!(),
        });
    }
}

#[test]
fn a_missing_wheel_is_tried_at_once_and_then_every_three_seconds() {
    let mut r = Runtime::new(10, false, false, false, 0);
    assert_eq!(until_receive(&mut r, Event::Done, 0, false), vec!["open"]);
    assert!(until_receive(&mut r, Event::TimedOut, 2999 * MS, false).is_empty());
    assert_eq!(until_receive(&mut r, Event::TimedOut, 3000 * MS, false), vec!["open"]);
    assert_eq!(until_receive(&mut r, Event::TimedOut, 6000 * MS, true), vec!["open", "temps", "write 0"]);
}

#[test]
fn telemetry_lights_the_bar_and_silence_turns_it_off() {
    let mut r = Runtime::new(10, false, false, true, 0);
    assert_eq!(until_receive(&mut r, Event::Done, 0, true), vec!["temps"]);
    let u = Event::Received(update(GameId::BeamNG, 6500));
    assert_eq!(until_receive(&mut r, u, 10 * MS, true), vec!["start BNG", "write 3FF"]);
    assert!(until_receive(&mut r, u, 20 * MS, true).is_empty());
    assert_eq!(until_receive(&mut r, Event::TimedOut, 260 * MS, true), vec!["write 3FF"]);
    assert!(until_receive(&mut r, u, 500 * MS, true).is_empty());
    let half = Event::Received(update(GameId::Forza, 3650));
    assert_eq!(until_receive(&mut r, half, 505 * MS, true), vec!["start FZA", "write 1F"]);
    assert_eq!(
        until_receive(&mut r, Event::TimedOut, 2505 * MS, true),
        vec!["stop FZA", "write 0"]
    );
    assert_eq!(r.active_game, None);
}

#[test]
fn a_failed_write_loses_the_wheel() {
    let mut r = Runtime::new(10, false, false, true, 0);
    until_receive(&mut r, Event::Done, 0, true);
    let u = Event::Received(update(GameId::BeamNG, 6500));
    assert_eq!(until_receive(&mut r, u, 10 * MS, false), vec!["start BNG", "write 3FF"]);
    assert!(!r.connected);
    assert!(until_receive(&mut r, u, 3009 * MS, true).is_empty());
    assert_eq!(until_receive(&mut r, u, 3010 * MS, true), vec!["open"]);
    assert!(r.connected);
    assert_eq!(until_receive(&mut r, u, 3011 * MS, true), vec!["write 3FF"]);
}

#[test]
fn an_opened_wheel_gets_the_lights_again() {
    let mut r = Runtime::new(10, false, false, false, 0);
    until_receive(&mut r, Event::Done, 0, false);
    let u = Event::Received(update(GameId::BeamNG, 6500));
    assert_eq!(until_receive(&mut r, u, 2990 * MS, false), vec!["start BNG"]);
    assert_eq!(until_receive(&mut r, Event::TimedOut, 3000 * MS, true), vec!["open"]);
    assert_eq!(r.last_bitmask, None);
    assert_eq!(until_receive(&mut r, u, 3001 * MS, true), vec!["write 3FF"]);
}

#[test]
fn every_packet_has_a_line_when_asked_for() {
    let mut r = Runtime::new(4, true, true, false, 0);
    until_receive(&mut r, Event::Done, 0, false);
    let u = Event::Received(update(GameId::Ams2, 3650));
    let line = "print [AMS2] rpm  3650 /  6500  idle  800  [●●○○]  1 pkt\n";
    assert_eq!(until_receive(&mut r, u, 1, false), vec!["start AMS2", line]);
    assert_eq!(until_receive(&mut r, u, 2, false), vec![line]);
}

#[test]
fn a_terminal_has_a_rolling_line() {
    let mut r = Runtime::new(4, false, true, false, 0);
    until_receive(&mut r, Event::Done, 0, false);
    let u = Event::Received(update(GameId::Ams2, 3650));
    assert_eq!(until_receive(&mut r, u, 499 * MS, false), vec!["start AMS2"]);
    assert_eq!(
        until_receive(&mut r, u, 500 * MS, false),
        vec!["print \r[AMS2] rpm  3650 /  6500  idle  800  [●●○○]  2 pkt    "]
    );
    assert!(until_receive(&mut r, u, 999 * MS, false).is_empty());
}

#[test]
fn the_loop_ends_with_its_listeners() {
    let mut r = Runtime::new(4, false, true, false, 0);
    until_receive(&mut r, Event::Done, 0, false);
    assert_eq!(until_receive(&mut r, Event::Disconnected, 1, false), vec!["exit"]);
}

#[test]
fn telemetry_that_cannot_be_shown_is_told_apart() {
    let quiet = Runtime::new(40, false, false, true, 0);
    assert!(quiet.shows(&update(GameId::Ams2, 1)));
    assert!(!Runtime::new(40, true, false, true, 0).shows(&update(GameId::Ams2, 1)));
    let wild = Update {
        game: GameId::Wreckfest2,
        engine: EngineState {
            rpm: i32::MIN,
            rpm_redline: 7000,
            rpm_idle: 800,
        },
    };
    assert!(!quiet.shows(&wild));
}

fn c(x: f32) -> Option<Binary32> {
    Some(Binary32::from_bits(x.to_bits()))
}

#[test]
fn heat_is_reported_from_the_limits_up() {
    let w = temp_warnings(&BaseTemps {
        mcu_c: c(75.0),
        mosfet_c: c(69.9),
        motor_c: None,
    });
    assert_eq!((w.mcu, w.mosfet, w.motor), (true, false, false));
    let w = temp_warnings(&BaseTemps {
        mcu_c: c(f32::NAN),
        mosfet_c: c(70.0),
        motor_c: c(95.5),
    });
    assert_eq!((w.mcu, w.mosfet, w.motor), (false, true, true));
}

#[test]
fn the_wheel_to_open_goes_by_what_was_asked_for() {
    let names = vec!["usb-Gudsen_MOZA_R5_Base".to_string()];
    let found = wheel_to_open(None, &names, None).unwrap();
    assert_eq!(found, ("/dev/serial/by-id/usb-Gudsen_MOZA_R5_Base".to_string(), Protocol::Legacy));
    let pinned = wheel_to_open(Some("/dev/ttyACM0".to_string()), &[], None).unwrap();
    assert_eq!(pinned, ("/dev/ttyACM0".to_string(), Protocol::Modern));
    let forced = wheel_to_open(None, &names, Some(Protocol::Modern)).unwrap();
    assert_eq!(forced.1, Protocol::Modern);
    assert!(wheel_to_open(None, &[], None).is_none());
}

#[test]
fn the_command_line_has_defaults() {
    let cli = Cli {
        command: Some(Command::Configure),
        listen: ListenArgs::default(),
    };
    assert!(matches!(cli.command, Some(Command::Configure)));
    assert_eq!(cli.listen.wf2_port, 23123);
    assert_eq!(cli.listen.forza_port, 9999);
    assert_eq!(cli.listen.leds, 10);
    assert_eq!(Protocol::from(ProtocolArg::Legacy), Protocol::Legacy);
    assert_eq!(Protocol::from(ProtocolArg::Modern), Protocol::Modern);
}

#[test]
fn every_heartbeat_is_dark_until_the_next_telemetry() {
    let mut r = Runtime::new(10, false, false, true, 0);
    until_receive(&mut r, Event::Done, 0, true);
    let full = Event::Received(update(GameId::BeamNG, 6500));
    until_receive(&mut r, full, 10 * MS, true);
    assert_eq!(
        until_receive(&mut r, Event::TimedOut, 2010 * MS, true),
        vec!["stop BNG", "write 0"]
    );
    for k in 1..10 {
        assert_eq!(
            until_receive(&mut r, Event::TimedOut, (2010 + 250 * k) * MS, true),
            vec!["write 0"]
        );
    }
    let half = Event::Received(update(GameId::Forza, 3650));
    assert_eq!(until_receive(&mut r, half, 4300 * MS, true), vec!["start FZA", "write 1F"]);
    assert_eq!(until_receive(&mut r, Event::TimedOut, 4550 * MS, true), vec!["write 1F"]);
}
