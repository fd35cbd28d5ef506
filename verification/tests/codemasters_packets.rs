use moza_rev::binary32::Binary32;
use moza_rev::codemasters_legacy::{Telemetry, DEFAULT_PORT, FIELD_COUNT, PACKET_BYTES};

fn f(x: f32) -> Binary32 {
    Binary32::from_bits(x.to_bits())
}

#[test]
fn struct_size_is_264_bytes() {
    assert_eq!(PACKET_BYTES, 264);
    assert_eq!(PACKET_BYTES, FIELD_COUNT * 4);
}

#[test]
fn rpm_fields_are_at_documented_offsets() {
    let mut buf = vec![0u8; PACKET_BYTES];
    for i in 0..FIELD_COUNT {
        buf[4 * i..4 * i + 4].copy_from_slice(&(i as f32 * 4.0).to_le_bytes());
    }
    let t = Telemetry::from_bytes(&buf).unwrap();
    assert_eq!(t.rpm_div_10, f((37 * 4) as f32));
    assert_eq!(t.max_rpm_div_10, f((63 * 4) as f32));
    assert_eq!(t.idle_rpm_div_10, f((64 * 4) as f32));
    assert_eq!(t.speed_ms, f((7 * 4) as f32));
    assert_eq!(t.throttle, f((29 * 4) as f32));
    assert_eq!(t.gear, f((33 * 4) as f32));
    assert_eq!(t.run_time, f(0.0));
    assert_eq!(t.max_gears, f((65 * 4) as f32));
}

#[test]
fn codemasters_legacy_from_bytes_rejects_short_buffer() {
    let buf = [0u8; PACKET_BYTES - 1];
    assert!(Telemetry::from_bytes(&buf).is_none());
}

#[test]
fn from_bytes_decodes_full_packet() {
    let mut buf = vec![0u8; PACKET_BYTES];
    let rpm_off = 37 * 4;
    buf[rpm_off..rpm_off + 4].copy_from_slice(&700.0f32.to_le_bytes());
    let max_off = 63 * 4;
    buf[max_off..max_off + 4].copy_from_slice(&800.0f32.to_le_bytes());
    let idle_off = 64 * 4;
    buf[idle_off..idle_off + 4].copy_from_slice(&90.0f32.to_le_bytes());

    let t = Telemetry::from_bytes(&buf).unwrap();
    assert_eq!(t.rpm(), 7000);
    assert_eq!(t.redline_rpm(), 8000);
    assert_eq!(t.idle_rpm(), 900);
}

#[test]
fn from_bytes_partial_zero_fills_missing_fields() {
    let buf = vec![0xABu8; 64];
    let t = Telemetry::from_bytes_partial(&buf);
    assert_eq!(f32::from_bits(t.rpm_div_10.bits), 0.0);
    assert_eq!(t.rpm(), 0);
    assert_ne!(f32::from_bits(t.run_time.bits), 0.0);
}

#[test]
fn gear_label_handles_reverse_neutral_forward() {
    let r = Telemetry {
        gear: f(-1.0),
        ..Default::default()
    };
    assert_eq!(r.gear_label(), "R");
    let n = Telemetry::default();
    assert_eq!(n.gear_label(), "N");
    let third = Telemetry {
        gear: f(3.0),
        ..Default::default()
    };
    assert_eq!(third.gear_label(), "3");
}

#[test]
fn speed_kmh_converts_from_ms() {
    let t = Telemetry {
        speed_ms: f(10.0),
        ..Default::default()
    };
    assert!((f32::from_bits(t.speed_kmh().bits) - 36.0).abs() < 1e-4);
    assert_eq!(f32::from_bits(t.speed_kmh().bits), 10.0 * 3.6);
}

#[test]
fn a_partial_field_keeps_its_bytes() {
    let t = Telemetry::from_bytes_partial(&[0xAB; 6]);
    assert_eq!(t.run_time.bits, 0xABAB_ABAB);
    assert_eq!(t.lap_time.bits, 0x0000_ABAB);
    assert_eq!(t.distance.bits, 0);
    let long = Telemetry::from_bytes_partial(&[0x3F; 300]);
    assert_eq!(long.max_gears.bits, 0x3F3F_3F3F);
}

#[test]
fn full_packets_read_the_same_either_way() {
    let buf: Vec<u8> = (0..270).map(|i| (i * 7) as u8).collect();
    let a = Telemetry::from_bytes(&buf).unwrap();
    let b = Telemetry::from_bytes_partial(&buf);
    assert_eq!(a.run_time, b.run_time);
    assert_eq!(a.rpm_div_10, b.rpm_div_10);
    assert_eq!(a.max_gears, b.max_gears);
}

#[test]
fn engine_speeds_saturate() {
    let mut t = Telemetry::default();
    t.rpm_div_10 = f(f32::NAN);
    assert_eq!(t.rpm(), 0);
    t.rpm_div_10 = f(f32::INFINITY);
    assert_eq!(t.rpm(), i32::MAX);
    t.rpm_div_10 = f(-1e30);
    assert_eq!(t.rpm(), i32::MIN);
    t.rpm_div_10 = f(123.456);
    assert_eq!(t.rpm(), (123.456f32 * 10.0) as i32);
    assert_eq!(DEFAULT_PORT, 20777);
}
