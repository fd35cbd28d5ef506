use moza_rev::configure::assetto_corsa::{handle_ac, Install};
use moza_rev::configure::automobilista_2::{handle_ams2, introduce_ams2, Loopback};
use moza_rev::configure::beamng::handle_beamng;
use moza_rev::configure::competizione::{
    farewell, handle_acc_competizione, probe_request, report_acc_probe, Probe,
};
use moza_rev::configure::dialogue::{
    step, takes_answer, Action, Contents, Event, Finding, Found, Next, Offer, Stage,
};
use moza_rev::configure::dirt::handle_dr2_style;
use moza_rev::configure::wreckfest_2::handle_wf2;
use moza_rev::configure::{explain, failure_line, introduction, nothing_found, Game};
use moza_rev::utf16::{decode_utf16_le, encode_utf16_le};

fn file(raw: &str) -> Found<String> {
    Found::File("/cfg".to_string(), raw.to_string())
}

fn offer(finding: Finding) -> Offer {
    match finding.next {
        Next::Ask(offer) => offer,
        other => panic!("no offer: {other:?}"),
    }
}

fn bytes(contents: Contents) -> Vec<u8> {
    match contents {
        Contents::Bytes(b) => b,
        other => panic!("no bytes: {other:?}"),
    }
}

#[test]
fn wreckfest_is_offered_telemetry() {
    let f = handle_wf2(false, file("{\"udp\": [{\"port\": \"23123\"}]}"));
    assert_eq!(
        f.says,
        "Wreckfest 2\n  config: /cfg\n  current: enabled=0, port=23123\n  proposed: enabled=1 (port unchanged at 23123)\n"
    );
    let o = offer(f);
    assert!(o.backs_up && o.probe.is_none());
    assert_eq!((o.declined.as_str(), o.written.as_str()), ("  skipped.\n\n", "  ✓ written.\n\n"));
    let text = String::from_utf8(bytes(o.contents)).unwrap();
    let again = handle_wf2(true, file(&text));
    assert!(matches!(again.next, Next::Nothing));
    assert_eq!(
        again.says,
        "\x1b[1;36mWreckfest 2\x1b[0m\n  config: /cfg\n  current: enabled=1, port=23123\n  \x1b[32m✓\x1b[0m telemetry already enabled — no changes needed.\n\n"
    );
}

#[test]
fn wreckfest_without_settings_is_left_alone() {
    let f = handle_wf2(false, Found::NeverLaunched);
    assert!(f.says.starts_with("Wreckfest 2\n  Installed but never launched — start"));
    assert!(matches!(f.next, Next::Nothing));
    let f = handle_wf2(false, Found::Missing("/docs".to_string()));
    assert_eq!(f.says, "Wreckfest 2\n  Couldn't locate telemetry/config.json under /docs.\n\n");
    let f = handle_wf2(false, Found::Unreadable("denied".to_string()));
    assert!(matches!(f.next, Next::Fault(e) if e == "denied"));
    assert_eq!(f.says, "Wreckfest 2\n");
    assert!(matches!(handle_wf2(false, file("{")).next, Next::Fault(_)));
    let f = handle_wf2(false, file("{}"));
    assert!(f.says.ends_with("the expected `udp` array — leaving it alone.\n\n"));
    let f = handle_wf2(false, file("{\"udp\": [7]}"));
    assert!(matches!(offer(f).contents, Contents::Impossible));
}

#[test]
fn dirt_is_offered_telemetry() {
    let raw = "<a>\n<udp enabled=\"false\" extradata=\"3\" ip=\"dbox\" port=\"20777\" />\n</a>";
    let f = handle_dr2_style(false, "DiRT Rally 2.0", file(raw), false);
    assert_eq!(
        f.says,
        "DiRT Rally 2.0\n  config: /cfg\n  current: enabled=false, extradata=3, ip=dbox, port=20777\n  proposed:\n    -<udp enabled=\"false\" extradata=\"3\" ip=\"dbox\" port=\"20777\" />\n    +<udp enabled=\"true\" extradata=\"3\" ip=\"127.0.0.1\" port=\"20777\" />\n"
    );
    let text = String::from_utf8(bytes(offer(f).contents)).unwrap();
    assert_eq!(
        text,
        "<a>\n<udp enabled=\"true\" extradata=\"3\" ip=\"127.0.0.1\" port=\"20777\" />\n</a>"
    );
    let again = handle_dr2_style(false, "DiRT Rally 2.0", file(&text), true);
    assert!(matches!(again.next, Next::Nothing));
    assert!(again.says.ends_with("  ✓ telemetry already enabled with extradata=3 — no changes needed.\n\n"));
    let f = handle_dr2_style(false, "DiRT Showdown", file("<x/>"), false);
    assert!(f.says.ends_with("element found in the config. Leaving alone.\n\n"));
    let f = handle_dr2_style(false, "DiRT Showdown", Found::Missing("/p".to_string()), false);
    assert_eq!(f.says, "DiRT Showdown\n  Couldn't find /p.\n\n");
    let f = handle_dr2_style(false, "DiRT Showdown", Found::NeverLaunched, false);
    assert!(matches!(f.next, Next::Nothing));
    let f = handle_dr2_style(false, "DiRT Showdown", Found::Unreadable("e".to_string()), false);
    assert!(matches!(f.next, Next::Fault(_)));
}

#[test]
fn beamng_is_offered_telemetry() {
    let f = handle_beamng(false, file("{}"));
    assert!(f.says.contains("  current: OutGauge enabled=false, address=127.0.0.1, port=4444\n"));
    assert!(f.says.ends_with("  ⚠ close BeamNG before applying — a running game may overwrite the change.\n"));
    let text = String::from_utf8(bytes(offer(f).contents)).unwrap();
    assert_eq!(text, "{\n  \"protocols_outgauge_enabled\": true\n}");
    let again = handle_beamng(false, file(&text));
    assert!(again.says.ends_with("  ✓ OutGauge already enabled — no changes needed.\n\n"));
    assert!(matches!(offer(handle_beamng(false, file("[]"))).contents, Contents::Impossible));
    let f = handle_beamng(false, Found::NeverLaunched);
    assert!(f.says.contains("no settings/cloud/settings.json yet"));
    assert!(matches!(handle_beamng(false, file("")).next, Next::Fault(_)));
    assert!(matches!(handle_beamng(false, Found::Unreadable("e".to_string())).next, Next::Fault(_)));
}

#[test]
fn competizione_is_offered_broadcasting() {
    let raw = encode_utf16_le("{\n    \"updListenerPort\": 0\n}");
    let f = handle_acc_competizione(false, Found::File("/cfg".to_string(), raw));
    assert!(f.says.contains("  proposed: updListenerPort=9000, connectionPassword=\"moza\"\n  ⚠ close ACC"));
    let o = offer(f);
    assert!(o.backs_up);
    assert_eq!(o.probe.as_deref(), Some("moza"));
    assert_eq!(o.declined, "  skipped.\n");
    assert!(o.written.starts_with("  ✓ written. Use --password \"moza\" with the broadcasting client"));
    let new = bytes(o.contents);
    assert_eq!(
        decode_utf16_le(&new).unwrap(),
        "{\n    \"updListenerPort\": 9000,\n    \"connectionPassword\": \"moza\"\n}"
    );
    let again = handle_acc_competizione(false, Found::File("/cfg".to_string(), new));
    assert!(again.says.ends_with("  ✓ broadcasting already enabled — no changes needed.\n"));
    assert!(matches!(again.next, Next::Probe(p) if p == "moza"));
    let f = handle_acc_competizione(false, Found::File("/cfg".to_string(), vec![1]));
    assert!(matches!(f.next, Next::Fault(e) if e.starts_with("UTF-16 LE decode: odd-length")));
    let f = handle_acc_competizione(false, Found::Missing("/p".to_string()));
    assert_eq!(f.says, "Assetto Corsa Competizione\n  Couldn't find /p.\n\n");
    let number = encode_utf16_le("3");
    let f = handle_acc_competizione(false, Found::File("/cfg".to_string(), number));
    assert!(matches!(offer(f).contents, Contents::Impossible));
    assert!(matches!(handle_acc_competizione(false, Found::NeverLaunched).next, Next::Nothing));
}

#[test]
fn assetto_corsa_is_offered_its_number() {
    let f = handle_ac(false, Install::Absent("/ac/steam_appid.txt".to_string()));
    assert!(f.says.starts_with("Assetto Corsa\n  UDP telemetry needs no in-game setup — port 9996 is always listening\n  once"));
    assert!(f.says.ends_with("  proposed: write \"244210\" to /ac/steam_appid.txt\n"));
    let o = offer(f);
    assert!(!o.backs_up);
    assert_eq!(bytes(o.contents), b"244210\n");
    let f = handle_ac(false, Install::Present("/p".to_string()));
    assert!(f.says.ends_with("  ✓ steam_appid.txt present at /p — direct acs.exe launches will work.\n\n"));
    let f = handle_ac(false, Install::Unknown);
    assert!(f.says.ends_with("  Couldn't locate install directory.\n\n"));
}

#[test]
fn automobilista_is_explained() {
    assert_eq!(
        introduce_ams2(false),
        "Automobilista 2\n  Has UDP telemetry on port 5606 using the Project CARS 2 format.\n  In game: Options → System → UDP Protocol Version: Project CARS 2,\n                              UDP Frequency: 1+\n  (Settings live in encrypted .sav files; can't auto-edit.)\n"
    );
    let text = handle_ams2(false, Loopback::Fails);
    assert!(text.starts_with("  ✘ broadcast loopback NOT working on port 5606 — game"));
    assert!(text.contains("--dport 5606 \\\n        -j DNAT --to-destination 127.0.0.1:5606\n\n"));
    let text = handle_ams2(false, Loopback::Works);
    assert_eq!(text, "  ✓ broadcast loopback works on port 5606 — game traffic will reach moza-rev.\n\n");
    let text = handle_ams2(false, Loopback::Unclear("busy".to_string()));
    assert_eq!(text, "  ⚠ couldn't check broadcast loopback: busy\n\n");
}

#[test]
fn other_games_are_explained() {
    let text = explain(false, Game::Dirt5);
    assert_eq!(
        text,
        "DIRT 5\n  ✘ detected, but the game has no native UDP telemetry.\n  The only path on Linux is memory injection via SpaceMonkey under Wine — fragile and out of scope for moza-rev.\n\n"
    );
    assert!(explain(false, Game::ForzaHorizon4).ends_with("\n  handles both transparently.\n\n"));
    assert!(explain(false, Game::ForzaHorizon5).contains("\n  Data Out IP Port: 9999  (must match `--forza-port`)\n"));
    assert!(explain(true, Game::AssettoCorsaRally).starts_with("\x1b[1;36mAssetto Corsa Rally\x1b[0m\n  Built on UE5;"));
}

#[test]
fn the_report_has_a_frame() {
    assert_eq!(introduction(false), "moza-rev configure: scanning for installed racing games\n\n");
    let roots = ["/a".to_string(), "/b".to_string(), "/c".to_string()];
    assert_eq!(
        nothing_found(&roots),
        "No supported games detected under Steam's standard library paths.\nSearched: /a, /b, /c\n"
    );
    assert!(nothing_found(&[]).ends_with("Searched: \n"));
    assert_eq!(failure_line(Game::BeamNG, "x"), "BeamNG.drive: error: x\n\n");
}

fn plain(contents: Contents, backs_up: bool) -> Finding {
    Finding {
        says: "found\n".to_string(),
        next: Next::Ask(Offer {
            contents,
            backs_up,
            declined: "no\n".to_string(),
            written: "yes\n".to_string(),
            probe: None,
        }),
    }
}

fn asked(contents: Contents, backs_up: bool) -> Stage {
    let (stage, action) = step(false, Stage::Opening(plain(contents, backs_up)), Event::Begin);
    assert!(matches!(action, Action::Ask(says) if says == "found\n  Apply? [y/N] "));
    stage
}

#[test]
fn a_yes_keeps_the_file_before_it_is_written() {
    let stage = asked(Contents::Bytes(vec![1, 2]), true);
    assert!(takes_answer(&stage, "y\n"));
    let (stage, action) = step(false, stage, Event::Answered("y\n".to_string()));
    assert!(matches!(action, Action::BackUp));
    let (stage, action) = step(false, stage, Event::BackedUp(Some("/cfg.bak".to_string())));
    assert!(matches!(action, Action::Save(says, b) if says == "  backup: /cfg.bak\n" && b == [1, 2]));
    let (stage, action) = step(false, stage, Event::Saved);
    assert!(matches!(action, Action::Finish(says) if says == "yes\n"));
    assert!(matches!(stage, Stage::Over));
}

#[test]
fn a_new_file_needs_no_backup() {
    let stage = asked(Contents::Bytes(vec![3]), false);
    let (_, action) = step(false, stage, Event::Answered("YES".to_string()));
    assert!(matches!(action, Action::Save(says, b) if says.is_empty() && b == [3]));
}

#[test]
fn anything_but_a_yes_writes_nothing() {
    for line in ["", "\n", "n\n", "yep\n"] {
        let stage = asked(Contents::Bytes(vec![1]), true);
        let (stage, action) = step(false, stage, Event::Answered(line.to_string()));
        assert!(matches!(action, Action::Finish(says) if says == "no\n"));
        assert!(matches!(stage, Stage::Over));
    }
}

#[test]
fn a_backup_that_fails_writes_nothing() {
    let stage = asked(Contents::Bytes(vec![1]), true);
    let (stage, _) = step(false, stage, Event::Answered("y".to_string()));
    let (stage, action) = step(false, stage, Event::Failed("full".to_string()));
    assert!(matches!(action, Action::Fail(says, e) if says.is_empty() && e == "full"));
    assert!(matches!(stage, Stage::Over));
}

#[test]
fn settings_without_a_place_take_no_yes() {
    let stage = asked(Contents::Impossible, true);
    assert!(!takes_answer(&stage, "y"));
    assert!(takes_answer(&stage, "n"));
    let stage = asked(Contents::Fault("cannot".to_string()), true);
    let (_, action) = step(false, stage, Event::Answered("y".to_string()));
    assert!(matches!(action, Action::Fail(_, e) if e == "cannot"));
}

#[test]
fn the_game_is_asked_at_the_end() {
    let found = Finding {
        says: "on\n".to_string(),
        next: Next::Probe("moza".to_string()),
    };
    let (stage, action) = step(false, Stage::Opening(found), Event::Begin);
    assert!(matches!(
        action,
        Action::Probe(says, p) if says == "on\n  probing 127.0.0.1:9000…\n" && p == "moza"
    ));
    let (_, action) = step(false, stage, Event::Probed(Probe::Timeout));
    assert!(matches!(action, Action::Finish(says) if says.starts_with("  ⚠ no reply within")));
}

#[test]
fn answers_of_the_game_are_reported() {
    let listening = Probe::Listening {
        connection_id: -7,
        readonly: true,
    };
    assert_eq!(
        report_acc_probe(false, &listening),
        "  ✓ ACC responded: connection_id=-7, readonly=true. Broadcasting is live.\n\n"
    );
    assert_eq!(farewell(&listening).unwrap(), [9, 0xF9, 0xFF, 0xFF, 0xFF]);
    let rejected = Probe::Rejected {
        error: "bad \"Password\"\n".to_string(),
    };
    assert_eq!(
        report_acc_probe(false, &rejected),
        "  ✘ ACC rejected our REGISTER: \"bad \\\"Password\\\"\\n\".\n  The connectionPassword on disk doesn't match what's in ACC's memory — close ACC, re-run this command, then restart ACC.\n\n"
    );
    assert!(farewell(&rejected).is_none());
    assert!(report_acc_probe(false, &Probe::Refused).starts_with("  ⚠ nothing is listening on UDP/9000 — ACC"));
    assert_eq!(
        report_acc_probe(false, &Probe::Unclear("why".to_string())),
        "  ⚠ couldn't probe: why\n\n"
    );
    let request = probe_request("pw");
    assert_eq!(&request[..4], &[1, 4, 15, 0]);
    assert_eq!(&request[4..19], b"moza-rev-verify");
    assert_eq!(&request[19..], &[2, 0, b'p', b'w', 0xE8, 3, 0, 0, 0, 0]);
}
