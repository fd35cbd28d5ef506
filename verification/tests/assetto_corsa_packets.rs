use moza_rev::assetto_corsa::{
    decode_wide_string, op, Handshake, HandshakeResponse, RtCarInfo, DEFAULT_PORT, HANDSHAKE_BYTES,
    HANDSHAKE_RESPONSE_BYTES, RT_CAR_INFO_BYTES,
};

#[test]
fn handshake_is_12_bytes() {
    assert_eq!(HANDSHAKE_BYTES, 12);
    assert_eq!(Handshake::new(op::HANDSHAKE).to_bytes().len(), 12);
}

#[test]
fn handshake_response_is_408_bytes() {
    assert_eq!(HANDSHAKE_RESPONSE_BYTES, 408);
}

#[test]
fn rt_car_info_is_328_bytes_with_msvc_alignment() {
    assert_eq!(RT_CAR_INFO_BYTES, 328);
}

#[test]
fn handshake_to_bytes_is_little_endian_ints() {
    let h = Handshake::new(op::SUBSCRIBE_UPDATE);
    let bytes = h.to_bytes();
    assert_eq!(&bytes[0..4], &1i32.to_le_bytes());
    assert_eq!(&bytes[4..8], &1i32.to_le_bytes());
    assert_eq!(&bytes[8..12], &op::SUBSCRIBE_UPDATE.to_le_bytes());
}

#[test]
fn decode_wide_string_strips_percent_padding() {
    let mut units = [u16::from(b'%'); 50];
    let head = "magione".encode_utf16().collect::<Vec<_>>();
    units[..head.len()].copy_from_slice(&head);
    assert_eq!(decode_wide_string(&units), "magione");
}

#[test]
fn decode_wide_string_stops_at_nul() {
    let mut units = [0u16; 10];
    units[0] = u16::from(b'a');
    units[1] = u16::from(b'b');
    assert_eq!(decode_wide_string(&units), "ab");
}

#[test]
fn rt_car_info_gear_label_uses_ac_convention() {
    let mut p = RtCarInfo::from_bytes(&[0u8; RT_CAR_INFO_BYTES]).unwrap();
    p.gear = 0;
    assert_eq!(p.gear_label(), "R");
    p.gear = 1;
    assert_eq!(p.gear_label(), "N");
    p.gear = 2;
    assert_eq!(p.gear_label(), "1");
    p.gear = 8;
    assert_eq!(p.gear_label(), "7");
    p.gear = -3;
    assert_eq!(p.gear_label(), "-3");
}

#[test]
fn wide_strings_without_filling_take_the_whole_field() {
    assert_eq!(decode_wide_string(&[u16::from(b'x'); 50]), "x".repeat(50));
    assert_eq!(decode_wide_string(&[]), "");
}

#[test]
fn wide_strings_replace_lone_surrogates() {
    assert_eq!(decode_wide_string(&[0xD800, 0x41, 0xDC00]), "\u{FFFD}A\u{FFFD}");
    assert_eq!(decode_wide_string(&[0xD83D, 0xDE00]), "😀");
}

#[test]
fn requests_use_the_games_numbers() {
    assert_eq!(DEFAULT_PORT, 9996);
    assert_eq!((op::HANDSHAKE, op::SUBSCRIBE_UPDATE, op::SUBSCRIBE_SPOT, op::DISMISS), (0, 1, 2, 3));
    assert_eq!(Handshake::new(-1).to_bytes()[8..12], [0xFF; 4]);
}

#[test]
fn handshake_response_fields_are_read() {
    let mut buf = vec![0u8; HANDSHAKE_RESPONSE_BYTES];
    for (at, text) in [(0, "car"), (100, "driver"), (208, "track"), (308, "config")] {
        for (i, u) in text.encode_utf16().enumerate() {
            buf[at + 2 * i..at + 2 * i + 2].copy_from_slice(&u.to_le_bytes());
        }
    }
    buf[200..204].copy_from_slice(&(-7i32).to_le_bytes());
    buf[204..208].copy_from_slice(&42i32.to_le_bytes());
    let h = HandshakeResponse::from_bytes(&buf).unwrap();
    assert_eq!(h.car(), "car");
    assert_eq!(h.driver(), "driver");
    assert_eq!(h.track(), "track");
    assert_eq!(h.track_config_name(), "config");
    assert_eq!((h.identifier, h.version), (-7, 42));
    assert!(HandshakeResponse::from_bytes(&buf[..407]).is_none());
}

#[test]
fn car_info_fields_stand_behind_their_padding() {
    let mut buf = vec![0u8; RT_CAR_INFO_BYTES];
    buf[0] = b'a';
    buf[4..8].copy_from_slice(&328i32.to_le_bytes());
    buf[25] = 1;
    buf[28..32].copy_from_slice(&1.5f32.to_le_bytes());
    buf[40..44].copy_from_slice(&83_456i32.to_le_bytes());
    buf[68..72].copy_from_slice(&6543.9f32.to_le_bytes());
    buf[76..80].copy_from_slice(&4i32.to_le_bytes());
    buf[324..328].copy_from_slice(&(-2.5f32).to_le_bytes());
    let p = RtCarInfo::from_bytes(&buf).unwrap();
    assert_eq!(p.identifier, b'a');
    assert_eq!(p.size, 328);
    assert_eq!(p.is_engine_limiter_on, 1);
    assert_eq!(f32::from_bits(p.acc_g_vertical.bits), 1.5);
    assert_eq!(p.rpm(), 6543);
    assert_eq!(p.gear_label(), "3");
    assert_eq!(f32::from_bits(p.lap_time_s().bits), 83_456i32 as f32 / 1000.0);
    assert_eq!(f32::from_bits(p.car_coordinates[2].bits), -2.5);
    assert!(RtCarInfo::from_bytes(&buf[..327]).is_none());
}
