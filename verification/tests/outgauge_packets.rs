use moza_rev::binary32::Binary32;
use moza_rev::outgauge::{dl, og, Packet, DEFAULT_PORT, PACKET_BYTES};

fn zero() -> Binary32 {
    Binary32::from_bits(0.0f32.to_bits())
}

#[test]
fn packet_size_is_96_bytes() {
    assert_eq!(PACKET_BYTES, 96);
}

#[test]
fn outgauge_from_bytes_rejects_short_buffer() {
    let buf = [0u8; 50];
    assert!(Packet::from_bytes(&buf).is_none());
    assert!(Packet::from_bytes(&[0u8; 91]).is_none());
}

#[test]
fn from_bytes_zero_pads_lfs_classic() {
    let buf = [0u8; 92];
    let p = Packet::from_bytes(&buf).unwrap();
    assert_eq!(p.id, 0);
}

fn beam(car: [u8; 4]) -> Packet {
    Packet {
        time: 0,
        car,
        flags: 0,
        gear: 0,
        plid: 0,
        speed: zero(),
        rpm: zero(),
        turbo: zero(),
        eng_temp: zero(),
        fuel: zero(),
        oil_pressure: zero(),
        oil_temp: zero(),
        dash_lights: 0,
        show_lights: 0,
        throttle: zero(),
        brake: zero(),
        clutch: zero(),
        display1: [0; 16],
        display2: [0; 16],
        id: 0,
    }
}

#[test]
fn car_name_strips_trailing_nulls() {
    let p = beam(*b"beam");
    assert_eq!(p.car_name(), "beam");
    assert_eq!(beam(*b"xr\0q").car_name(), "xr");
    assert_eq!(beam([0; 4]).car_name(), "");
}

#[test]
fn car_names_that_are_not_text_are_unknown() {
    assert_eq!(beam([0xFF, b'a', 0, 0]).car_name(), "?");
    assert_eq!(beam([0xC3, 0xA9, 0, 0]).car_name(), "é");
}

#[test]
fn gear_labels_use_lfs_convention() {
    let mut p = Packet::from_bytes(&[0u8; 96]).unwrap();
    p.gear = 0;
    assert_eq!(p.gear_label(), "R");
    p.gear = 1;
    assert_eq!(p.gear_label(), "N");
    p.gear = 2;
    assert_eq!(p.gear_label(), "1");
    p.gear = 7;
    assert_eq!(p.gear_label(), "6");
    p.gear = -128;
    assert_eq!(p.gear_label(), "-128");
}

#[test]
fn shift_active_reads_dl_shift_bit() {
    let mut p = Packet::from_bytes(&[0u8; 96]).unwrap();
    p.show_lights = dl::SHIFT;
    assert!(p.shift_active());
    p.show_lights = dl::HANDBRAKE;
    assert!(!p.shift_active());
}

#[test]
fn gauge_fields_are_read_in_order() {
    let mut buf = vec![0u8; 100];
    buf[4..8].copy_from_slice(b"beam");
    buf[8..10].copy_from_slice(&(og::KM | og::TURBO).to_le_bytes());
    buf[10] = 0xFE;
    buf[12..16].copy_from_slice(&20.0f32.to_le_bytes());
    buf[16..20].copy_from_slice(&4321.0f32.to_le_bytes());
    buf[44..48].copy_from_slice(&(dl::ABS | dl::OILWARN).to_le_bytes());
    buf[60..76].copy_from_slice(b"0123456789abcdef");
    buf[92..96].copy_from_slice(&(-9i32).to_le_bytes());
    let p = Packet::from_bytes(&buf).unwrap();
    assert_eq!(p.car_name(), "beam");
    assert_eq!(p.flags, 8192 + 16384);
    assert_eq!(p.gear, -2);
    assert_eq!(f32::from_bits(p.speed_kmh().bits), 20.0f32 * 3.6);
    assert_eq!(f32::from_bits(p.rpm.bits), 4321.0);
    assert_eq!(p.show_lights, (1 << 10) + (1 << 8));
    assert_eq!(&p.display1, b"0123456789abcdef");
    assert_eq!(p.id, -9);
    let classic = Packet::from_bytes(&buf[..94]).unwrap();
    assert_eq!(classic.id, 0xFFF7);
    assert_eq!(DEFAULT_PORT, 4444);
}
