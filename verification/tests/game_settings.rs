use moza_rev::configure::dirt::{current_settings, inspect, updates, with_line};
use moza_rev::configure::style;
use moza_rev::configure::xml::{find_motion_or_udp_element, parse_xml_attr, rewrite_xml_attrs};
use moza_rev::configure::{
    backup_extension, beamng_cloud_settings, confirmed, dirt_settings_path, is_yes, judge_loopback,
    known_games, manifest_path, probe_magic, proton_documents, steam_appid_text, steam_install_path,
    steam_library_roots, Game,
};

#[test]
fn parses_xml_attribute_values() {
    let line = r#"<udp enabled="true" extradata="3" ip="127.0.0.1" port="20777" delay="1" />"#;
    assert_eq!(parse_xml_attr(line, "enabled").as_deref(), Some("true"));
    assert_eq!(parse_xml_attr(line, "extradata").as_deref(), Some("3"));
    assert_eq!(parse_xml_attr(line, "port").as_deref(), Some("20777"));
    assert_eq!(parse_xml_attr(line, "missing"), None);
}

#[test]
fn rewrites_only_listed_attributes() {
    let original =
        r#"<udp enabled="false" extradata="0" ip="127.0.0.1" port="20777" delay="1" />"#;
    let updated = rewrite_xml_attrs(original, &[("enabled", "true"), ("extradata", "3")]);
    assert!(updated.contains(r#"enabled="true""#));
    assert!(updated.contains(r#"extradata="3""#));
    assert!(updated.contains(r#"ip="127.0.0.1""#));
    assert!(updated.contains(r#"port="20777""#));
    assert!(updated.contains(r#"delay="1""#));
}

#[test]
fn finds_udp_element_inside_motion_platform() {
    let xml = "<motion_platform>\n\t<dbox enabled=\"true\" />\n\t<udp enabled=\"false\" port=\"20777\" />\n</motion_platform>";
    let range = find_motion_or_udp_element(xml).unwrap();
    assert_eq!(
        &xml[range.clone()],
        "<udp enabled=\"false\" port=\"20777\" />"
    );
}

#[test]
fn finds_motion_element_in_older_games() {
    let xml = r#"<hardware_settings_config>
	<motion enabled="true" ip="dbox" port="20777" delay="1" extradata="0" />
</hardware_settings_config>"#;
    let range = find_motion_or_udp_element(xml).unwrap();
    assert_eq!(
        &xml[range.clone()],
        r#"<motion enabled="true" ip="dbox" port="20777" delay="1" extradata="0" />"#
    );
}

#[test]
fn prefers_udp_over_motion_when_both_present() {
    let xml = r#"<x><motion enabled="false" /><udp enabled="true" /></x>"#;
    let range = find_motion_or_udp_element(xml).unwrap();
    assert!(xml[range].starts_with("<udp "));
}

#[test]
fn element_ranges_count_bytes() {
    let xml = "<!-- ñ日😀 --><udp ip=\"é\" />";
    let range = find_motion_or_udp_element(xml).unwrap();
    assert_eq!(&xml[range.clone()], "<udp ip=\"é\" />");
    assert_eq!(range.end, xml.len());
    assert!(find_motion_or_udp_element("<udp enabled=\"1\">").is_none());
    assert!(find_motion_or_udp_element("").is_none());
    let unfinished = "<motion a=\"/>\" /><udp x";
    assert_eq!(find_motion_or_udp_element(unfinished), Some(0..13));
}

#[test]
fn attributes_without_an_end_have_no_value() {
    assert_eq!(parse_xml_attr("<udp ip=\"abc", "ip"), None);
    assert_eq!(parse_xml_attr("<udp ip=\"\"", "ip").as_deref(), Some(""));
    assert_eq!(rewrite_xml_attrs("<udp ip=\"abc", &[("ip", "x")]), "<udp ip=\"abc");
    assert_eq!(rewrite_xml_attrs("<udp />", &[("ip", "x")]), "<udp />");
    assert_eq!(rewrite_xml_attrs("<udp ip=\"\" />", &[("ip", "x"), ("ip", "yz")]), "<udp ip=\"yz\" />");
}

#[test]
fn dirt_settings_are_changed_in_place() {
    let raw = "<a>ü\n<motion enabled=\"false\" ip=\"dbox\" port=\"20777\" extradata=\"0\" />\n</a>";
    let element = inspect(raw).unwrap();
    assert_eq!(current_settings(&element), "enabled=false, extradata=0, ip=dbox, port=20777");
    let wanted = updates(&element, false);
    assert_eq!(wanted, vec![("enabled", "true"), ("extradata", "3"), ("ip", "127.0.0.1")]);
    let line = rewrite_xml_attrs(&element.line, &wanted);
    let after = with_line(raw, &element, &line);
    assert_eq!(
        after,
        "<a>ü\n<motion enabled=\"true\" ip=\"127.0.0.1\" port=\"20777\" extradata=\"3\" />\n</a>"
    );
    let element = inspect(&after).unwrap();
    assert!(updates(&element, true).is_empty());
    assert_eq!(updates(&element, false), vec![("ip", "127.0.0.1")]);
    let bare = inspect("<udp />").unwrap();
    assert_eq!(current_settings(&bare), "enabled=?, extradata=?, ip=?, port=?");
    assert!(inspect("<none/>").is_none());
}

#[test]
fn marks_are_plain_without_colours() {
    assert_eq!(style::title(false, "x"), "x");
    assert_eq!(style::title(true, "x"), "\x1b[1;36mx\x1b[0m");
    assert_eq!((style::ok(false), style::cross(false), style::warn(false)), ("✓", "✘", "⚠"));
    assert_eq!(style::ok(true), "\x1b[32m✓\x1b[0m");
    assert_eq!(style::cross(true), "\x1b[31m✘\x1b[0m");
    assert_eq!(style::warn(true), "\x1b[33m⚠\x1b[0m");
}

#[test]
fn only_a_yes_is_a_yes() {
    for line in ["y\n", " YES \n", "Yes\r\n", "\u{a0}y\u{3000}"] {
        assert!(confirmed(line), "{line:?}");
    }
    for line in ["", "\n", "n\n", "yes please\n", "yé\n", "ye\n"] {
        assert!(!confirmed(line), "{line:?}");
    }
    assert!(is_yes("yEs"));
    assert!(!is_yes(" y"));
}

#[test]
fn games_are_known_by_number() {
    let games = known_games();
    assert_eq!(games.len(), 12);
    assert_eq!(games[0].app_id(), "1203190");
    assert_eq!(games[1].name(), "DiRT Rally 2.0");
    assert_eq!(games[6], Game::Competizione);
    assert_eq!(steam_appid_text(), "244210\n");
}

#[test]
fn paths_are_put_together() {
    assert_eq!(manifest_path("690790"), "steamapps/appmanifest_690790.acf");
    assert_eq!(
        proton_documents("805550"),
        "steamapps/compatdata/805550/pfx/drive_c/users/steamuser/Documents"
    );
    assert_eq!(steam_install_path("assettocorsa"), "steamapps/common/assettocorsa");
    assert_eq!(
        dirt_settings_path("DiRT Showdown"),
        "My Games/DiRT Showdown/hardwaresettings/hardware_settings_config.xml"
    );
    assert_eq!(backup_extension(Some("json")), "json.bak");
    assert_eq!(backup_extension(None), "bak");
    assert_eq!(steam_library_roots()[1], ".steam/steam");
    assert!(beamng_cloud_settings()[1].starts_with(".local/share/BeamNG"));
}

#[test]
fn broadcasts_are_judged_by_the_probe() {
    let magic = probe_magic();
    assert_eq!(magic, b"moza-rev-loopback-probe-v1");
    assert_eq!(judge_loopback(Some(&magic), 600_000_000), Some(true));
    assert_eq!(judge_loopback(Some(b"game"), 1), None);
    assert_eq!(judge_loopback(Some(&magic[..25]), 1), None);
    assert_eq!(judge_loopback(Some(b"game"), 500_000_000), Some(false));
    assert_eq!(judge_loopback(None, 0), Some(false));
}
