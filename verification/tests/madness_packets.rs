use moza_rev::madness::{
    packet_type_name, Header, TelemetryData, TelemetryPacket, DEFAULT_PORT, HEADER_BYTES,
    PACKET_TYPE_RACE, TELEMETRY_PACKET_BYTES,
};

#[test]
fn header_size_matches_pcars2_pbase() {
    assert_eq!(HEADER_BYTES, 12);
}

#[test]
fn telemetry_packet_size_matches_pcars2_layout() {
    assert_eq!(TELEMETRY_PACKET_BYTES, 559);
}

#[test]
fn telemetry_packet_rejects_non_telemetry_types() {
    let mut buf = vec![0u8; TELEMETRY_PACKET_BYTES];
    buf[10] = PACKET_TYPE_RACE;
    assert!(TelemetryPacket::from_bytes(&buf).is_none());
}

fn zeroed() -> TelemetryData {
    TelemetryPacket::from_bytes(&[0u8; TELEMETRY_PACKET_BYTES]).unwrap().data
}

#[test]
fn gear_label_decodes_packed_byte() {
    let mut t: TelemetryData = zeroed();
    t.gear_num_gears = (7 << 4) | 3;
    assert_eq!(t.gear(), 3);
    assert_eq!(t.num_gears(), 7);
    assert_eq!(t.gear_label(), "3");
    t.gear_num_gears = (7 << 4) | 0x0F;
    assert_eq!(t.gear_label(), "R");
    t.gear_num_gears = 7 << 4;
    assert_eq!(t.gear_label(), "N");
}

#[test]
fn fields_are_read_in_order() {
    let mut buf = vec![0u8; TELEMETRY_PACKET_BYTES];
    buf[0..4].copy_from_slice(&0xDEAD_BEEFu32.to_le_bytes());
    buf[12] = 0xFF;
    buf[18..20].copy_from_slice(&(-40i16).to_le_bytes());
    buf[36..40].copy_from_slice(&27.5f32.to_le_bytes());
    buf[40..42].copy_from_slice(&6543u16.to_le_bytes());
    buf[42..44].copy_from_slice(&8000u16.to_le_bytes());
    buf[555..559].copy_from_slice(&77u32.to_le_bytes());
    let p = TelemetryPacket::from_bytes(&buf).unwrap();
    assert_eq!(p.header.packet_number, 0xDEAD_BEEF);
    assert_eq!(p.data.viewed_participant_index, -1);
    assert_eq!(p.data.oil_temp_celsius, -40);
    assert_eq!(p.data.rpm(), 6543);
    assert_eq!(p.data.redline_rpm(), 8000);
    assert_eq!(f32::from_bits(p.data.speed_kmh().bits), 27.5f32 * 3.6);
    assert_eq!(p.data.tick_count, 77);
    assert!(TelemetryPacket::from_bytes(&buf[..558]).is_none());
}

#[test]
fn pedals_are_fractions() {
    let mut t = zeroed();
    for n in 0..=255u8 {
        t.throttle = n;
        t.brake = 255 - n;
        t.clutch = n / 2;
        assert_eq!(f32::from_bits(t.throttle_frac().bits), f32::from(n) / 255.0);
        assert_eq!(f32::from_bits(t.brake_frac().bits), f32::from(255 - n) / 255.0);
        assert_eq!(f32::from_bits(t.clutch_frac().bits), f32::from(n / 2) / 255.0);
    }
}

#[test]
fn headers_of_all_packets() {
    let h = Header::from_bytes(&[1, 0, 0, 0, 2, 0, 0, 0, 3, 4, 5, 6]).unwrap();
    assert_eq!((h.packet_number, h.category_packet_number), (1, 2));
    assert_eq!((h.partial_packet_index, h.partial_packet_number), (3, 4));
    assert_eq!((h.packet_type, h.packet_version), (5, 6));
    assert!(Header::from_bytes(&[0; 11]).is_none());
    assert_eq!(packet_type_name(h.packet_type), "Weather");
    assert_eq!(packet_type_name(8), "ParticipantVehicleNames");
    assert_eq!(packet_type_name(9), "Unknown");
    assert_eq!(DEFAULT_PORT, 5606);
}
