use moza_rev::configure::competizione::{
    advice_for, advice_for_lowered, classify_receive_failure, classify_reply, classify_send_failure,
    current_settings, inspect, json_to_acc_format, plan, read, Failure, Probe,
};
use moza_rev::configure::{beamng, competizione, wreckfest_2};
use moza_rev::json::Document;
use moza_rev::utf16::{decode_utf16_le, encode_utf16_le};

#[test]
fn utf16_le_roundtrips_ascii() {
    let s = r#"{"updListenerPort": 9000}"#;
    let encoded = encode_utf16_le(s);
    assert_eq!(encoded.len(), s.len() * 2);
    assert_eq!(encoded[0], b'{');
    assert_eq!(encoded[1], 0);
    assert_eq!(decode_utf16_le(&encoded).unwrap(), s);
}

#[test]
fn utf16_le_decodes_acc_broadcasting_json_sample() {
    let bytes: &[u8] = &[
        0x7b, 0x00, 0x0a, 0x00, 0x20, 0x00, 0x20, 0x00, 0x20, 0x00, 0x20, 0x00, 0x22, 0x00,
        0x75, 0x00, 0x70, 0x00, 0x64, 0x00, 0x4c, 0x00, 0x69, 0x00, 0x73, 0x00, 0x74, 0x00,
        0x65, 0x00, 0x6e, 0x00, 0x65, 0x00, 0x72, 0x00, 0x50, 0x00, 0x6f, 0x00, 0x72, 0x00,
        0x74, 0x00, 0x22, 0x00, 0x3a, 0x00, 0x20, 0x00, 0x30, 0x00, 0x7d, 0x00,
    ];
    let s = decode_utf16_le(bytes).unwrap();
    assert_eq!(s, "{\n    \"updListenerPort\": 0}");
    let v = Document::parse(&s).unwrap();
    assert_eq!(v.whole_member("updListenerPort"), Some(0));
    let v: serde_json::Value = serde_json::from_str(&s).unwrap();
    assert_eq!(v["updListenerPort"], 0);
}

#[test]
fn utf16_le_encode_then_parse_succeeds() {
    let mut v = Document::parse("{}").unwrap();
    v.set_whole("updListenerPort", 9000);
    v.set_text("connectionPassword", "moza");
    v.set_text("commandPassword", "");
    let pretty = v.to_pretty().unwrap();
    let bytes = encode_utf16_le(&pretty);
    let decoded = decode_utf16_le(&bytes).unwrap();
    let reparsed = Document::parse(&decoded).unwrap();
    assert_eq!(reparsed.whole_member("updListenerPort"), Some(9000));
    assert_eq!(reparsed.text_member("connectionPassword").as_deref(), Some("moza"));
}

#[test]
fn utf16_le_rejects_odd_length() {
    assert!(decode_utf16_le(&[0x7b, 0x00, 0x0a]).is_err());
    assert_eq!(
        decode_utf16_le(&[0x7b, 0x00, 0x0a]).unwrap_err(),
        "odd-length UTF-16 byte stream (3 bytes)"
    );
}

#[test]
fn json_to_acc_format_matches_acc_layout() {
    let raw = "{\n    \"updListenerPort\": 0,\n    \"connectionPassword\": \"\",\n    \"commandPassword\": \"\"\n}";
    let mut doc = Document::parse(raw).unwrap();
    doc.set_whole("updListenerPort", 9000);
    doc.set_text("connectionPassword", "moza");
    let out = json_to_acc_format(&doc).unwrap();
    let expected = "{\n    \"updListenerPort\": 9000,\n    \"connectionPassword\": \"moza\",\n    \"commandPassword\": \"\"\n}";
    assert_eq!(out, expected);
}

#[test]
fn end_to_end_acc_file_path_does_not_duplicate_keys() {
    let input: &[u8] = &[
        0x7b, 0x00, 0x0a, 0x00, 0x20, 0x00, 0x20, 0x00, 0x20, 0x00, 0x20, 0x00, 0x22, 0x00,
        0x75, 0x00, 0x70, 0x00, 0x64, 0x00, 0x4c, 0x00, 0x69, 0x00, 0x73, 0x00, 0x74, 0x00,
        0x65, 0x00, 0x6e, 0x00, 0x65, 0x00, 0x72, 0x00, 0x50, 0x00, 0x6f, 0x00, 0x72, 0x00,
        0x74, 0x00, 0x22, 0x00, 0x3a, 0x00, 0x20, 0x00, 0x30, 0x00, 0x2c, 0x00, 0x0a, 0x00,
        0x20, 0x00, 0x20, 0x00, 0x20, 0x00, 0x20, 0x00, 0x22, 0x00, 0x63, 0x00, 0x6f, 0x00,
        0x6e, 0x00, 0x6e, 0x00, 0x65, 0x00, 0x63, 0x00, 0x74, 0x00, 0x69, 0x00, 0x6f, 0x00,
        0x6e, 0x00, 0x50, 0x00, 0x61, 0x00, 0x73, 0x00, 0x73, 0x00, 0x77, 0x00, 0x6f, 0x00,
        0x72, 0x00, 0x64, 0x00, 0x22, 0x00, 0x3a, 0x00, 0x20, 0x00, 0x22, 0x00, 0x6d, 0x00,
        0x6f, 0x00, 0x7a, 0x00, 0x61, 0x00, 0x22, 0x00, 0x2c, 0x00, 0x0a, 0x00, 0x20, 0x00,
        0x20, 0x00, 0x20, 0x00, 0x20, 0x00, 0x22, 0x00, 0x63, 0x00, 0x6f, 0x00, 0x6d, 0x00,
        0x6d, 0x00, 0x61, 0x00, 0x6e, 0x00, 0x64, 0x00, 0x50, 0x00, 0x61, 0x00, 0x73, 0x00,
        0x73, 0x00, 0x77, 0x00, 0x6f, 0x00, 0x72, 0x00, 0x64, 0x00, 0x22, 0x00, 0x3a, 0x00,
        0x20, 0x00, 0x22, 0x00, 0x22, 0x00, 0x0a, 0x00, 0x7d, 0x00,
    ];
    let raw = decode_utf16_le(input).unwrap();
    let mut doc = Document::parse(&raw).unwrap();
    doc.set_whole("updListenerPort", 9000_i64);
    let out = json_to_acc_format(&doc).unwrap();
    let count = out.matches("ListenerPort").count();
    assert_eq!(count, 1, "got duplicates / wrong key:\n{out}");
    assert!(out.contains("\"updListenerPort\": 9000"));

    let mut doc = read(input).unwrap();
    let settings = inspect(&doc);
    assert_eq!((settings.port, settings.password.as_str()), (0, "moza"));
    let plan = plan(&settings);
    assert!(plan.set_port && !plan.set_password);
    plan.apply(&mut doc);
    assert_eq!(competizione::write(&doc).unwrap(), encode_utf16_le(&out));
}

#[test]
fn json_to_acc_format_roundtrips_to_utf16_le_bytes_acc_emits() {
    let raw = "{\n    \"updListenerPort\": 0,\n    \"connectionPassword\": \"\",\n    \"commandPassword\": \"\"\n}";
    let doc = Document::parse(raw).unwrap();
    let out = json_to_acc_format(&doc).unwrap();
    let bytes = encode_utf16_le(&out);
    let expected: &[u8] = &[
        0x7b, 0x00, 0x0a, 0x00, 0x20, 0x00, 0x20, 0x00, 0x20, 0x00, 0x20, 0x00, 0x22, 0x00,
        0x75, 0x00, 0x70, 0x00, 0x64, 0x00, 0x4c, 0x00, 0x69, 0x00, 0x73, 0x00, 0x74, 0x00,
        0x65, 0x00, 0x6e, 0x00, 0x65, 0x00, 0x72, 0x00, 0x50, 0x00, 0x6f, 0x00, 0x72, 0x00,
        0x74, 0x00, 0x22, 0x00, 0x3a, 0x00, 0x20, 0x00, 0x30, 0x00, 0x2c, 0x00, 0x0a, 0x00,
        0x20, 0x00, 0x20, 0x00, 0x20, 0x00, 0x20, 0x00, 0x22, 0x00, 0x63, 0x00, 0x6f, 0x00,
        0x6e, 0x00, 0x6e, 0x00, 0x65, 0x00, 0x63, 0x00, 0x74, 0x00, 0x69, 0x00, 0x6f, 0x00,
        0x6e, 0x00, 0x50, 0x00, 0x61, 0x00, 0x73, 0x00, 0x73, 0x00, 0x77, 0x00, 0x6f, 0x00,
        0x72, 0x00, 0x64, 0x00, 0x22, 0x00, 0x3a, 0x00, 0x20, 0x00, 0x22, 0x00, 0x22, 0x00,
        0x2c, 0x00, 0x0a, 0x00, 0x20, 0x00, 0x20, 0x00, 0x20, 0x00, 0x20, 0x00, 0x22, 0x00,
        0x63, 0x00, 0x6f, 0x00, 0x6d, 0x00, 0x6d, 0x00, 0x61, 0x00, 0x6e, 0x00, 0x64, 0x00,
        0x50, 0x00, 0x61, 0x00, 0x73, 0x00, 0x73, 0x00, 0x77, 0x00, 0x6f, 0x00, 0x72, 0x00,
        0x64, 0x00, 0x22, 0x00, 0x3a, 0x00, 0x20, 0x00, 0x22, 0x00, 0x22, 0x00, 0x0a, 0x00,
        0x7d, 0x00,
    ];
    assert_eq!(bytes, expected, "byte-level output drift from ACC's format");
    assert_eq!(competizione::write(&doc).unwrap(), expected);
}

#[test]
fn files_that_are_not_utf16_are_turned_down() {
    assert_eq!(
        read(&[0x00]).err().unwrap(),
        "UTF-16 LE decode: odd-length UTF-16 byte stream (1 bytes)"
    );
    assert_eq!(
        read(&[0x00, 0xD8]).err().unwrap(),
        "UTF-16 LE decode: invalid utf-16: lone surrogate found"
    );
    assert_eq!(
        decode_utf16_le(&[0x00, 0xD8]).unwrap_err(),
        String::from_utf16(&[0xD800]).unwrap_err().to_string()
    );
    assert_eq!(
        read(&encode_utf16_le("{")).err().unwrap(),
        serde_json::from_str::<serde_json::Value>("{").unwrap_err().to_string()
    );
}

#[test]
fn utf16_round_trips_beyond_the_basic_plane() {
    for s in ["", "é", "日本", "😀 mixed 𐍈", "\u{FFFF}\u{10000}\u{10FFFF}\u{D7FF}\u{E000}"] {
        let units: Vec<u8> = s.encode_utf16().flat_map(|u| u.to_le_bytes()).collect();
        assert_eq!(encode_utf16_le(s), units);
        assert_eq!(decode_utf16_le(&units).unwrap(), s);
    }
}

#[test]
fn utf16_bytes_are_kept() {
    let samples: [&[u8]; 5] = [
        &[],
        &[0x41, 0x00],
        &[0x3D, 0xD8, 0x00, 0xDE],
        &[0xFF, 0xFE, 0xFD, 0xFF],
        &[0xFF, 0xDB, 0xFF, 0xDF, 0x00, 0xE0, 0xFF, 0xD7],
    ];
    for bytes in samples {
        assert_eq!(encode_utf16_le(&decode_utf16_le(bytes).unwrap()), bytes);
    }
}

#[test]
fn broadcasting_is_planned_and_described() {
    let mut doc = Document::parse("{\"commandPassword\": \"x\"}").unwrap();
    let settings = inspect(&doc);
    assert_eq!(current_settings(&settings), "updListenerPort=0, connectionPassword=(empty)");
    let both = plan(&settings);
    assert!(!both.is_empty());
    assert_eq!(both.password, "moza");
    assert_eq!(both.summary(), "updListenerPort=9000, connectionPassword=\"moza\"");
    both.apply(&mut doc);
    let settings = inspect(&doc);
    assert_eq!(current_settings(&settings), "updListenerPort=9000, connectionPassword=(set, 4 chars)");
    let none = plan(&settings);
    assert!(none.is_empty());
    assert_eq!(none.summary(), "");
    assert_eq!(doc.text_member("commandPassword").as_deref(), Some("x"));

    let own = inspect(&Document::parse("{\"updListenerPort\": 1, \"connectionPassword\": \"ünö\"}").unwrap());
    assert_eq!(current_settings(&own), "updListenerPort=1, connectionPassword=(set, 3 chars)");
    let port_only = plan(&own);
    assert_eq!(port_only.summary(), "updListenerPort=9000");
    assert_eq!(port_only.password, "ünö");
    let secret = inspect(&Document::parse("{\"updListenerPort\": 9000}").unwrap());
    assert_eq!(plan(&secret).summary(), "connectionPassword=\"moza\"");
}

fn registration(success: u8, message: &str) -> Vec<u8> {
    let mut buf = vec![1u8];
    buf.extend_from_slice(&7i32.to_le_bytes());
    buf.extend_from_slice(&[success, 1]);
    buf.extend_from_slice(&(message.len() as u16).to_le_bytes());
    buf.extend_from_slice(message.as_bytes());
    buf
}

#[test]
fn replies_are_classified() {
    match classify_reply(&registration(1, "")) {
        Probe::Listening { connection_id, readonly } => assert_eq!((connection_id, readonly), (7, false)),
        _ => panic!("wrong variant"),
    }
    match classify_reply(&registration(0, "")) {
        Probe::Rejected { error } => assert_eq!(error, "(no error message)"),
        _ => panic!("wrong variant"),
    }
    match classify_reply(&registration(0, "Outdated")) {
        Probe::Rejected { error } => assert_eq!(error, "Outdated"),
        _ => panic!("wrong variant"),
    }
    match classify_reply(&[4, 1, 2]) {
        Probe::Unclear(e) => assert_eq!(e, "unexpected reply (3 bytes)"),
        _ => panic!("wrong variant"),
    }
}

#[test]
fn failures_are_classified() {
    assert!(matches!(classify_send_failure(Failure::ConnectionRefused, "why"), Probe::Refused));
    assert!(matches!(classify_send_failure(Failure::TimedOut, "why"), Probe::Unclear(_)));
    assert!(matches!(classify_receive_failure(Failure::ConnectionRefused, "why"), Probe::Refused));
    for f in [Failure::WouldBlock, Failure::TimedOut, Failure::Interrupted] {
        assert!(matches!(classify_receive_failure(f, "why"), Probe::Timeout));
    }
    match classify_receive_failure(Failure::Other, "why") {
        Probe::Unclear(e) => assert_eq!(e, "recv: why"),
        _ => panic!("wrong variant"),
    }
}

#[test]
fn rejections_come_with_advice() {
    assert!(advice_for("Your app is OUTDATED").starts_with("Bump"));
    assert!(advice_for_lowered("your app is OUTDATED").starts_with("See"));
    assert!(advice_for("Wrong Password").starts_with("The connectionPassword"));
    assert!(advice_for("?").starts_with("See the message above"));
}

#[test]
fn wreckfest_telemetry_is_turned_on() {
    let raw = "{\"a\": [1.5, null], \"udp\": [{\"enabled\": 0, \"port\": \"23123\"}, {\"enabled\": 0}]}";
    let mut doc = Document::parse(raw).unwrap();
    match wreckfest_2::plan(&doc) {
        wreckfest_2::Plan::Enable(s) => {
            assert_eq!(wreckfest_2::current_settings(&s), "enabled=0, port=23123");
            assert_eq!(wreckfest_2::proposed_settings(&s), "enabled=1 (port unchanged at 23123)");
        }
        _ => panic!("wrong variant"),
    }
    assert!(wreckfest_2::can_enable(&doc));
    let text = wreckfest_2::enable(&mut doc).unwrap();
    let v: serde_json::Value = serde_json::from_str(&text).unwrap();
    let mut expected: serde_json::Value = serde_json::from_str(raw).unwrap();
    expected["udp"][0]["enabled"] = serde_json::Value::from(1);
    assert_eq!(v, expected);
    assert_eq!(text, serde_json::to_string_pretty(&expected).unwrap());
    assert!(matches!(wreckfest_2::plan(&doc), wreckfest_2::Plan::Enabled(_)));
}

#[test]
fn wreckfest_files_of_another_shape_are_left_alone() {
    for raw in ["{}", "{\"udp\": []}", "{\"udp\": 3}", "[]", "null"] {
        let doc = Document::parse(raw).unwrap();
        assert!(matches!(wreckfest_2::plan(&doc), wreckfest_2::Plan::NoArray), "{raw}");
        assert!(!wreckfest_2::can_enable(&doc));
    }
    let odd = Document::parse("{\"udp\": [7]}").unwrap();
    match wreckfest_2::plan(&odd) {
        wreckfest_2::Plan::Enable(s) => {
            assert_eq!(wreckfest_2::current_settings(&s), "enabled=0, port=?")
        }
        _ => panic!("wrong variant"),
    }
    assert!(!wreckfest_2::can_enable(&odd));
    let null = Document::parse("{\"udp\": [null]}").unwrap();
    assert!(wreckfest_2::can_enable(&null));
    assert!(Document::parse("{").is_err());
}

#[test]
fn beamng_telemetry_is_turned_on() {
    let mut doc = Document::parse("{\"protocols_outgauge_port\": 5000, \"z\": 1, \"a\": 2}").unwrap();
    let s = beamng::inspect(&doc);
    assert_eq!(beamng::current_settings(&s), "OutGauge enabled=false, address=127.0.0.1, port=5000");
    assert_eq!(
        beamng::proposed_settings(&s),
        "protocols_outgauge_enabled = true (address/port unchanged: 127.0.0.1:5000)"
    );
    assert!(doc.can_set());
    let text = beamng::enable(&mut doc).unwrap();
    assert_eq!(
        text,
        "{\n  \"protocols_outgauge_port\": 5000,\n  \"z\": 1,\n  \"a\": 2,\n  \"protocols_outgauge_enabled\": true\n}"
    );
    let s = beamng::inspect(&doc);
    assert!(s.enabled);
    assert_eq!(beamng::current_settings(&s), "OutGauge enabled=true, address=127.0.0.1, port=5000");
    let defaults = beamng::inspect(&Document::parse("[1]").unwrap());
    assert_eq!((defaults.enabled, defaults.address.as_str(), defaults.port), (false, "127.0.0.1", 4444));
    let own = beamng::inspect(
        &Document::parse("{\"protocols_outgauge_enabled\": 1, \"protocols_outgauge_address\": \"::1\", \"protocols_outgauge_port\": 1.5}")
            .unwrap(),
    );
    assert_eq!((own.enabled, own.address.as_str(), own.port), (false, "::1", 4444));
}

#[test]
fn documents_are_read_back() {
    let mut deep = String::from("18446744073709551615");
    for _ in 0..126 {
        deep = format!("[{deep}]");
    }
    let raw = format!("{{\"b\": -9223372036854775808, \"a\": \"\\u0001\\\"é\", \"d\": {deep}}}");
    let doc = Document::parse(&raw).unwrap();
    for text in [doc.to_pretty().unwrap(), doc.to_indented("    ").unwrap()] {
        let again = Document::parse(&text).unwrap();
        assert_eq!(again.to_pretty().unwrap(), doc.to_pretty().unwrap());
        assert_eq!(again.whole_member("b"), Some(i64::MIN));
        assert_eq!(again.text_member("a").as_deref(), Some("\u{1}\"é"));
    }
    assert!(Document::parse(&format!("[{raw}]")).is_err());
}

#[test]
fn documents_are_read_member_by_member() {
    let mut d = Document::parse("{\"b\": true, \"n\": -3, \"big\": 18446744073709551615, \"s\": \"é\"}").unwrap();
    assert_eq!(d.bool_member("b"), Some(true));
    assert_eq!(d.bool_member("n"), None);
    assert_eq!(d.whole_member("n"), Some(-3));
    assert_eq!(d.whole_member("big"), None);
    assert_eq!(d.whole_member("missing"), None);
    assert_eq!(d.text_member("s").as_deref(), Some("é"));
    assert_eq!(d.text_member("b"), None);
    d.set_bool("b", false);
    assert_eq!(d.bool_member("b"), Some(false));
    assert_eq!(d.to_indented("\t").unwrap().lines().nth(1), Some("\t\"b\": false,"));
    assert!(!Document::parse("3").unwrap().can_set());
    let mut null = Document::parse("null").unwrap();
    assert!(null.can_set());
    null.set_text("k", "v");
    assert_eq!(null.to_pretty().unwrap(), "{\n  \"k\": \"v\"\n}");
}
