use moza_rev::binary32::Binary32;
use moza_rev::text;
use moza_rev::wire;

fn f(x: f32) -> Binary32 {
    Binary32::from_bits(x.to_bits())
}

/// Bit patterns of every kind.
fn samples() -> Vec<u32> {
    let mut v = vec![
        0, 1, 2, 3, 0x7F_FFFF, 0x80_0000, 0x80_0001, 0x3F80_0000, 0x3F7F_FFFF, 0x4066_6666,
        0x4120_0000, 0x4B00_0000, 0x4B7F_FFFF, 0x4B80_0000, 0x4EFF_FFFF, 0x4F00_0000, 0x4F7F_FFFF,
        0x4F80_0000, 0x5F00_0000, 0x7F7F_FFFF, 0x7F80_0000, 0x7F80_0001, 0x7FC0_0000, 0x3F00_0000,
        0x3EFF_FFFF, 0x3FC0_0000, 0x4020_0000,
    ];
    let mut x: u32 = 12345;
    for _ in 0..80 {
        x = x.wrapping_mul(1664525).wrapping_add(1013904223);
        v.push(x % 0x8000_0000);
    }
    let negative: Vec<u32> = v.iter().map(|b| b + 0x8000_0000).collect();
    v.extend(negative);
    v
}

fn same(ours: Binary32, theirs: f32) -> bool {
    let r = f32::from_bits(ours.bits);
    (r.is_nan() && theirs.is_nan()) || r.to_bits() == theirs.to_bits()
}

#[test]
fn products_and_quotients_are_the_machines() {
    for &a in &samples() {
        for &b in &samples() {
            let (x, y) = (f32::from_bits(a), f32::from_bits(b));
            assert!(same(f(x).multiply(f(y)), x * y), "{x} * {y}");
            assert!(same(f(x).divide(f(y)), x / y), "{x} / {y}");
        }
    }
}

#[test]
fn comparisons_are_the_machines() {
    for &a in &samples() {
        for &b in &samples() {
            let (x, y) = (f32::from_bits(a), f32::from_bits(b));
            assert_eq!(f(x).le(f(y)), x <= y);
            assert_eq!(f(x).gt(f(y)), x > y);
        }
    }
}

#[test]
fn conversions_are_the_machines() {
    for &a in &samples() {
        let x = f32::from_bits(a);
        assert_eq!(f(x).to_i32(), x as i32, "{x}");
        assert_eq!(f(x).to_u32(), x as u32, "{x}");
        assert_eq!(f(x).round_to_u64(), x.round() as u64, "{x}");
        assert!(same(Binary32::from_i32(a as i32), a as i32 as f32));
        assert!(same(Binary32::from_u64(a as u64), a as f32));
        let wide = (a as u64) << 31 | a as u64;
        assert!(same(Binary32::from_u64(wide), wide as f32));
    }
    for n in [i32::MIN, -1, 0, 1, 16_777_217, i32::MAX] {
        assert!(same(Binary32::from_i32(n), n as f32));
    }
    assert!(same(Binary32::from_u64(u64::MAX), u64::MAX as f32));
}

#[test]
fn fields_are_little_endian() {
    let b = [0x01, 0x02, 0x83, 0xF4, 0xFF];
    assert_eq!(wire::read_u8(&b, 4), 0xFF);
    assert_eq!(wire::read_i8(&b, 4), -1);
    assert_eq!(wire::read_u16(&b, 1), u16::from_le_bytes([0x02, 0x83]));
    assert_eq!(wire::read_i16(&b, 2), i16::from_le_bytes([0x83, 0xF4]));
    assert_eq!(wire::read_u32(&b, 0), u32::from_le_bytes([0x01, 0x02, 0x83, 0xF4]));
    assert_eq!(wire::read_i32(&b, 1), i32::from_le_bytes([0x02, 0x83, 0xF4, 0xFF]));
    assert_eq!(wire::read_f32(&b, 1).bits, u32::from_le_bytes([0x02, 0x83, 0xF4, 0xFF]));
    assert_eq!(wire::read_u16s::<2>(&b, 1), [0x8302, 0xFFF4]);
    assert_eq!(wire::read_i16s::<1>(&b, 3), [-12]);
    assert_eq!(wire::read_bytes::<3>(&b, 2), [0x83, 0xF4, 0xFF]);
}

#[test]
fn numbers_are_read_back_from_their_bytes() {
    for n in [0, 1, -1, i32::MIN, i32::MAX, -305_419_896] {
        assert_eq!(wire::i32_bytes(n), n.to_le_bytes());
        assert_eq!(wire::read_i32(&wire::i32_bytes(n), 0), n);
    }
    assert_eq!(wire::u16_bytes(0xABCD), [0xCD, 0xAB]);
    assert_eq!(wire::u32_bytes(0x1234_5678), 0x1234_5678u32.to_le_bytes());
}

#[test]
fn numbers_are_written_in_decimal() {
    for n in [0, 7, 10, 99, 100, -1, -10, i64::MIN, i64::MAX] {
        assert_eq!(text::number(n), n.to_string());
    }
    let mut s = String::from(">");
    text::push_u64(&mut s, 18_446_744_073_709_551_615);
    text::push_padded(&mut s, "ab", 4, '.');
    text::push_padded(&mut s, "abc", 2, '.');
    text::push_hex(&mut s, 0x0F);
    assert_eq!(s, ">18446744073709551615..ababc0F");
}

#[test]
fn text_is_searched_by_characters() {
    let hay = text::chars_of("aéaéb");
    let needle = text::chars_of("éb");
    assert_eq!(text::find(&hay, &needle, 0), Some(3));
    assert_eq!(text::find(&hay, &needle, 4), None);
    assert_eq!(text::find(&hay, &[], 5), Some(5));
    assert_eq!(text::find(&hay, &[], 6), None);
    assert!(text::has("Gudsen", "uds"));
    assert!(!text::has("uds", "Gudsen"));
    assert_eq!(text::to_ascii_lower("AZaz@[É"), "azaz@[É");
    assert_eq!(text::string_of(&hay), "aéaéb");
}
