use moza_rev::forza::{Header, DEFAULT_PORT, HEADER_BYTES, MIN_PACKET_BYTES};

#[test]
fn header_is_20_bytes() {
    assert_eq!(HEADER_BYTES, 20);
}

#[test]
fn rejects_packets_below_sled_size() {
    let short = vec![0u8; 231];
    assert!(Header::from_bytes(&short).is_none());
}

#[test]
fn accepts_minimum_sled_size() {
    let mut buf = vec![0u8; MIN_PACKET_BYTES];
    buf[0..4].copy_from_slice(&1u32.to_le_bytes());
    buf[4..8].copy_from_slice(&12345u32.to_le_bytes());
    buf[8..12].copy_from_slice(&7800f32.to_le_bytes());
    buf[12..16].copy_from_slice(&900f32.to_le_bytes());
    buf[16..20].copy_from_slice(&4500f32.to_le_bytes());
    let h = Header::from_bytes(&buf).expect("decode");
    assert!(h.is_race_on());
    assert_eq!(h.rpm(), 4500);
    assert_eq!(h.redline_rpm(), 7800);
    assert_eq!(h.idle_rpm(), 900);
    assert_eq!(h.timestamp_ms, 12345);
}

#[test]
fn accepts_fh5_dash_size() {
    let mut buf = vec![0u8; 324];
    buf[0..4].copy_from_slice(&0u32.to_le_bytes());
    buf[8..12].copy_from_slice(&8500f32.to_le_bytes());
    buf[12..16].copy_from_slice(&850f32.to_le_bytes());
    buf[16..20].copy_from_slice(&3200f32.to_le_bytes());
    let h = Header::from_bytes(&buf).expect("decode");
    assert!(!h.is_race_on());
    assert_eq!(h.redline_rpm(), 8500);
    assert_eq!(h.idle_rpm(), 850);
    assert_eq!(h.rpm(), 3200);
}

#[test]
fn suggested_port() {
    assert_eq!(DEFAULT_PORT, 9999);
}
