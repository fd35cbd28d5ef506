use moza_rev::wreckfest::{
    damage_part, parse, Assists, CarFull, Chassis, Damage, DamageState, Driveline, Engine, GameMode,
    Header, Info, Input, InputExtended, Leaderboard, Main, MarshalFlags, Orientation, Packet,
    PacketType, ParticipantMotion, ParticipantsDamage, ParticipantsInfo, ParticipantsLeaderboard,
    ParticipantsMotion, ParticipantsTiming, ParticipantsTimingSectors, PlayerStatusFlags, Session,
    SessionStatus, SurfaceType, Tire, Timing, TimingSectors, Velocity, VelocityEssential,
    DAMAGE_BITS_PER_PART, DAMAGE_BYTES_PER_PARTICIPANT, DAMAGE_PARTS_MAX, SIGNATURE,
};

#[test]
fn struct_sizes_match_header() {
    assert_eq!(Header::BYTES, 14);
    assert_eq!(Session::BYTES, 208);
    assert_eq!(Orientation::BYTES, 34);
    assert_eq!(Velocity::BYTES, 36);
    assert_eq!(VelocityEssential::BYTES, 4);
    assert_eq!(Assists::BYTES, 8);
    assert_eq!(Chassis::BYTES, 52);
    assert_eq!(Driveline::BYTES, 24);
    assert_eq!(Engine::BYTES, 56);
    assert_eq!(Input::BYTES, 20);
    assert_eq!(Tire::BYTES, 72);
    assert_eq!(CarFull::BYTES, 532);
    assert_eq!(InputExtended::BYTES, 20);
    assert_eq!(Leaderboard::BYTES, 32);
    assert_eq!(Timing::BYTES, 32);
    assert_eq!(TimingSectors::BYTES, 36);
    assert_eq!(ParticipantMotion::BYTES, 38);
    assert_eq!(Damage::BYTES, 21);
    assert_eq!(Info::BYTES, 213);
}

fn packet(kind: PacketType, len: usize) -> Vec<u8> {
    let mut buf = vec![0u8; len];
    buf[0..4].copy_from_slice(&SIGNATURE.to_le_bytes());
    buf[4] = kind.to_u8();
    buf
}

#[test]
fn rpm_offsets_match_legacy_constants() {
    let rpm_offset = 350 + 84 + 1;
    let mut buf = packet(PacketType::Main, Main::BYTES);
    for i in 0..16 {
        buf[rpm_offset + i] = i as u8 + 1;
    }
    let main = match parse(&buf) {
        Some(Packet::Main(m)) => m,
        _ => panic!("expected Main packet"),
    };
    assert_eq!(main.car.engine.rpm, 0x04030201);
    assert_eq!(main.car.engine.rpm_max, 0x08070605);
    assert_eq!(main.car.engine.rpm_redline, 0x0C0B0A09);
    assert_eq!(main.car.engine.rpm_idle, 0x100F0E0D);
}

#[test]
fn parse_returns_none_on_wrong_signature() {
    let mut buf = vec![0u8; Main::BYTES];
    buf[0..4].copy_from_slice(&0xDEADBEEFu32.to_le_bytes());
    assert!(parse(&buf).is_none());
}

#[test]
fn parse_returns_none_on_wrong_packet_type_for_main_buf() {
    let mut buf = vec![0u8; Main::BYTES];
    buf[0..4].copy_from_slice(&SIGNATURE.to_le_bytes());
    buf[4] = PacketType::ParticipantsTiming as u8;
    let pkt = parse(&buf);
    assert!(!matches!(pkt, Some(Packet::Main(_))));
}

#[test]
fn parse_returns_none_on_short_buffer() {
    let buf = [0u8; 5];
    assert!(parse(&buf).is_none());
}

#[test]
fn parse_main_extracts_engine_rpm() {
    let mut buf = vec![0u8; Main::BYTES];
    buf[0..4].copy_from_slice(&SIGNATURE.to_le_bytes());
    buf[4] = PacketType::Main as u8;
    let rpm_off = 350 + 84 + 1;
    let redline_off = rpm_off + 8;
    let idle_off = rpm_off + 12;
    buf[rpm_off..rpm_off + 4].copy_from_slice(&4200i32.to_le_bytes());
    buf[redline_off..redline_off + 4].copy_from_slice(&7000i32.to_le_bytes());
    buf[idle_off..idle_off + 4].copy_from_slice(&800i32.to_le_bytes());

    let main = match parse(&buf).expect("should parse") {
        Packet::Main(m) => m,
        _ => panic!("expected Main packet"),
    };
    let engine = main.car.engine;
    assert_eq!(engine.rpm, 4200);
    assert_eq!(engine.rpm_redline, 7000);
    assert_eq!(engine.rpm_idle, 800);
}

#[test]
fn damage_unpack_recovers_packed_states() {
    let mut comp = [0u8; DAMAGE_BYTES_PER_PARTICIPANT];
    for i in 0..damage_part::COUNT {
        let state = (i % 5) as u8;
        let bit_pos = i * DAMAGE_BITS_PER_PART;
        let byte_index = bit_pos / 8;
        let bit_offset = bit_pos % 8;
        comp[byte_index] |= state << bit_offset;
        if bit_offset > 5 && byte_index + 1 < comp.len() {
            comp[byte_index + 1] |= state >> (8 - bit_offset);
        }
    }
    let damage = Damage {
        damage_states: comp,
    };
    let states = damage.states();
    for (i, &got) in states.iter().enumerate() {
        assert_eq!(got, (i % 5) as u8, "part {i}");
    }
}

#[test]
fn bitflags_contains_works() {
    let f = MarshalFlags(MarshalFlags::GREEN).bits() | MarshalFlags(MarshalFlags::BLUE).bits();
    let combined = MarshalFlags(f);
    assert!(combined.contains(MarshalFlags(MarshalFlags::GREEN)));
    assert!(combined.contains(MarshalFlags(MarshalFlags::BLUE)));
    assert!(!combined.contains(MarshalFlags(MarshalFlags::DQ)));
}

#[test]
fn flags_are_single_bits() {
    assert_eq!(MarshalFlags::GREEN, 1);
    assert_eq!(MarshalFlags::COUNTDOWN2, 1 << 15);
    assert_eq!(PlayerStatusFlags::CONTROL_AI, 1 << 4);
}

#[test]
fn every_kind_needs_its_own_length() {
    for (kind, len) in [
        (PacketType::Main, Main::BYTES),
        (PacketType::ParticipantsLeaderboard, ParticipantsLeaderboard::BYTES),
        (PacketType::ParticipantsTiming, ParticipantsTiming::BYTES),
        (PacketType::ParticipantsTimingSectors, ParticipantsTimingSectors::BYTES),
        (PacketType::ParticipantsMotion, ParticipantsMotion::BYTES),
        (PacketType::ParticipantsInfo, ParticipantsInfo::BYTES),
        (PacketType::ParticipantsDamage, ParticipantsDamage::BYTES),
    ] {
        let buf = packet(kind, len);
        let parsed = parse(&buf).unwrap();
        assert_eq!(parsed.header().packet_type(), Some(kind));
        assert!(parse(&buf[..len - 1]).is_none());
    }
    let mut unknown = packet(PacketType::Main, 9000);
    unknown[4] = 7;
    assert!(parse(&unknown).is_none());
}

#[test]
fn participants_stand_one_after_the_other() {
    let mut buf = packet(PacketType::ParticipantsLeaderboard, ParticipantsLeaderboard::BYTES);
    buf[14] = 1;
    for p in 0..36 {
        buf[15 + 32 * p] = (p % 10) as u8;
        buf[15 + 32 * p + 12..15 + 32 * p + 16].copy_from_slice(&(-(p as i32)).to_le_bytes());
    }
    match parse(&buf).unwrap() {
        Packet::ParticipantsLeaderboard(l) => {
            assert_eq!(l.participant_visibility, 1);
            for p in 0..36 {
                assert_eq!(l.participants[p].status, (p % 10) as u8);
                assert_eq!(l.participants[p].score, -(p as i32));
            }
        }
        _ => panic!("wrong variant"),
    }
}

#[test]
fn main_packet_accessors() {
    let mut buf = packet(PacketType::Main, Main::BYTES);
    buf[5] = 0x21;
    buf[14..16].copy_from_slice(&0x8001u16.to_le_bytes());
    buf[882 + 160..882 + 164].copy_from_slice(&1234.5f32.to_le_bytes());
    buf[882 + 179] = 255;
    buf[882 + 181] = 3;
    buf[1090..1092].copy_from_slice(&9u16.to_le_bytes());
    buf[350 + 230 + 72 + 56] = 6;
    match parse(&buf).unwrap() {
        Packet::Main(m) => {
            assert_eq!(m.header.status_flags().bits(), 0x21);
            assert!(m.marshal_flags().contains(MarshalFlags(MarshalFlags::GREEN)));
            assert!(m.marshal_flags().contains(MarshalFlags(MarshalFlags::COUNTDOWN2)));
            assert_eq!(f32::from_bits(m.session.track_length.bits), 1234.5);
            assert_eq!(m.session.game_mode(), Some(GameMode::Other));
            assert_eq!(m.session.status(), Some(SessionStatus::Racing));
            assert_eq!(m.player_status().bits(), 9);
            assert_eq!(m.car.tires[1].surface_type(), Some(SurfaceType::Mud));
            assert_eq!(m.car.tires[0].surface_type(), Some(SurfaceType::Default));
        }
        _ => panic!("wrong variant"),
    }
}

#[test]
fn codes_and_values_go_both_ways() {
    for b in 0..=255u8 {
        match GameMode::from_u8(b) {
            Some(v) => assert_eq!(v.to_u8(), b),
            None => assert!(b > 2 && b < 255),
        }
        assert_eq!(SurfaceType::from_u8(b).is_some(), b <= 16);
        assert_eq!(DamageState::from_u8(b).is_some(), b <= 4);
        assert_eq!(SessionStatus::from_u8(b).is_some(), b <= 5);
    }
    assert_eq!(SessionStatus::from_u8(0), Some(SessionStatus::NoSession));
    assert_eq!(DamageState::from_u8(0), Some(DamageState::Intact));
    assert_eq!((DAMAGE_PARTS_MAX * DAMAGE_BITS_PER_PART).div_ceil(8), DAMAGE_BYTES_PER_PARTICIPANT);
}
