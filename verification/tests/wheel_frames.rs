use moza_rev::moza::{
    build_frame, build_legacy_rpm_frame, build_modern_rpm_frame, byte_stuff, choose_wheelbase,
    decode_frame, detect_protocol, find_wheelbase, gives_up, hex, protocol_for_lowered, reader_step,
    response_payload, setting_start, setting_step, swap_nibbles, time_left, wire_checksum, Frame,
    Moza, PortEvent, Protocol, ReaderAction, ReaderState, SettingAction, DEVICE_BASE, DEVICE_WHEEL, GROUP_WHEEL_READ,
};

#[test]
fn modern_rpm_frame_no_leds_lit() {
    let frame = build_modern_rpm_frame(DEVICE_WHEEL, 0, 10);
    assert_eq!(
        frame,
        vec![0x7E, 0x04, 0x3F, 0x17, 0x1A, 0x00, 0x00, 0x00, 0xFF]
    );
}

#[test]
fn modern_rpm_frame_all_10_lit() {
    let frame = build_modern_rpm_frame(DEVICE_WHEEL, 0x03FF, 10);
    assert_eq!(
        frame,
        vec![0x7E, 0x04, 0x3F, 0x17, 0x1A, 0x00, 0xFF, 0x03, 0x01]
    );
}

#[test]
fn modern_rpm_frame_18_leds_uses_4_byte_payload() {
    let frame = build_modern_rpm_frame(DEVICE_WHEEL, 0x0003_FFFF, 18);
    assert_eq!(&frame[..6], &[0x7E, 0x06, 0x3F, 0x17, 0x1A, 0x00]);
    assert_eq!(&frame[6..10], &[0xFF, 0xFF, 0x03, 0x00]);
}

#[test]
fn legacy_rpm_frame_full() {
    let frame = build_legacy_rpm_frame(DEVICE_BASE, 0x03FF);
    assert_eq!(
        frame,
        vec![0x7E, 0x06, 0x41, 0x13, 0xFD, 0xDE, 0x00, 0x00, 0x03, 0xFF, 0xC2]
    );
}

#[test]
fn legacy_rpm_frame_zero() {
    let frame = build_legacy_rpm_frame(DEVICE_BASE, 0);
    assert_eq!(
        frame,
        vec![0x7E, 0x06, 0x41, 0x13, 0xFD, 0xDE, 0x00, 0x00, 0x00, 0x00, 0xC0]
    );
}

#[test]
fn detect_legacy_for_r5() {
    let p = "/dev/serial/by-id/usb-Gudsen_MOZA_R5_Base_480023000F51333135363734-if00";
    assert_eq!(detect_protocol(p), Protocol::Legacy);
}

#[test]
fn detect_modern_for_r9() {
    let p = "/dev/serial/by-id/usb-Gudsen_MOZA_R9_Base_xxx-if00";
    assert_eq!(detect_protocol(p), Protocol::Modern);
}

#[test]
fn protocols_go_by_the_lower_case_path() {
    assert_eq!(detect_protocol("x_R3_y"), Protocol::Legacy);
    assert_eq!(protocol_for_lowered("x_R3_y"), Protocol::Modern);
    assert_eq!(protocol_for_lowered("x_r3_y"), Protocol::Legacy);
    assert_eq!(protocol_for_lowered("_r5"), Protocol::Modern);
}

#[test]
fn start_bytes_are_doubled_and_counted_twice() {
    let frame = build_frame(0x7E, 0x7E, &[0x01], &[0x7E]);
    assert_eq!(&frame[..6], &[0x7E, 0x02, 0x7E, 0x7E, 0x01, 0x7E]);
    let wire = byte_stuff(&frame);
    assert_eq!(&wire[..9], &[0x7E, 0x02, 0x7E, 0x7E, 0x7E, 0x7E, 0x01, 0x7E, 0x7E]);
    let sum: u32 = 0x0D + wire[..9].iter().map(|&b| b as u32).sum::<u32>();
    assert_eq!(frame[6], (sum % 256) as u8);
    assert_eq!(byte_stuff(&[0x7E]), vec![0x7E]);
    assert_eq!(byte_stuff(&[0x7E, 0x7E]), vec![0x7E, 0x7E]);
}

#[test]
fn a_checksum_can_be_a_start_byte() {
    for x in 0..=255u8 {
        let frame = build_frame(0x40, 0x13, &[x], &[]);
        if frame[5] == 0x7E {
            assert_eq!(byte_stuff(&frame).len(), 7 + (x == 0x7E) as usize);
            return;
        }
    }
    panic!("no such frame");
}

#[test]
fn long_payloads_wrap_their_length() {
    let frame = build_frame(1, 2, &[3; 200], &[4; 100]);
    assert_eq!(frame[1], (300 % 256) as u8);
    assert_eq!(frame.len(), 305);
    assert_eq!(wire_checksum(&frame[..304]), frame[304]);
}

#[test]
fn hexadecimal_has_spaces_between_bytes() {
    assert_eq!(hex(&[]), "");
    assert_eq!(hex(&[0x0A]), "0A");
    assert_eq!(hex(&[0x7E, 0x04, 0xFF]), "7E 04 FF");
}

#[test]
fn nibbles_swap() {
    assert_eq!(swap_nibbles(0x13), 0x31);
    for b in 0..=255u8 {
        assert_eq!(swap_nibbles(b), b.rotate_right(4));
    }
}

#[test]
fn opening_a_legacy_wheel_sets_the_indicator_mode() {
    let (moza, setup) = Moza::open(Protocol::Legacy);
    assert_eq!(moza.device_id(), DEVICE_BASE);
    assert_eq!(setup.unwrap()[..6], [0x7E, 0x02, 0x40, 0x13, 0x04, 0x01]);
    let (moza, setup) = Moza::open(Protocol::Modern);
    assert_eq!(moza.device_id(), DEVICE_WHEEL);
    assert!(setup.is_none());
}

#[test]
fn sending_stuffs_the_frame() {
    let (modern, _) = Moza::open(Protocol::Modern);
    let (legacy, _) = Moza::open(Protocol::Legacy);
    assert_eq!(
        modern.send_rpm_bitmask(0x7E, 10)[..9],
        [0x7E, 0x04, 0x3F, 0x17, 0x1A, 0x00, 0x7E, 0x7E, 0x00]
    );
    assert_eq!(
        legacy.send_rpm_bitmask(0x3FF, 10),
        vec![0x7E, 0x06, 0x41, 0x13, 0xFD, 0xDE, 0x00, 0x00, 0x03, 0xFF, 0xC2]
    );
    assert_eq!(legacy.send_rpm_percent_1023(2000), legacy.send_rpm_bitmask(1023, 10));
    assert_eq!(legacy.send_rpm_percent_1023(5)[9], 5);
}

#[test]
fn a_setting_is_asked_for_with_zeros() {
    let (moza, _) = Moza::open(Protocol::Legacy);
    let wire = moza.read_setting(GROUP_WHEEL_READ, &[0x02, 0x01], 3);
    assert_eq!(wire[..9], [0x7E, 0x05, 0x40, 0x13, 0x02, 0x01, 0, 0, 0]);
}

fn feed(wire: &[u8]) -> Option<(u8, u8, Vec<u8>)> {
    let mut state = ReaderState::Hunting;
    let mut at = 0;
    let mut event = PortEvent::Empty;
    loop {
        let (next, action) = reader_step(state, event);
        state = next;
        match action {
            ReaderAction::ReadByte => {
                if at >= wire.len() {
                    return None;
                }
                event = PortEvent::Byte(wire[at]);
                at += 1;
            }
            ReaderAction::ReadBlock(n) => {
                event = if at + n <= wire.len() {
                    at += n;
                    PortEvent::Block(wire[at - n..at].to_vec())
                } else {
                    PortEvent::TimedOut
                };
            }
            ReaderAction::Done(f) => return Some((f.group, f.device, f.payload)),
            ReaderAction::Fail => panic!("failed"),
        }
    }
}

#[test]
fn what_is_written_is_read_back() {
    let frame = build_frame(0xC0, 0x31, &[0x02], &[1, 2, 3]);
    assert_eq!(feed(&byte_stuff(&frame)), Some((0xC0, 0x31, vec![2, 1, 2, 3])));
}

#[test]
fn noise_and_broken_frames_are_skipped() {
    let good = build_frame(0xC0, 0x31, &[0x02], &[9]);
    let mut broken = build_frame(0xC0, 0x31, &[0x02], &[8]);
    broken[6] ^= 1;
    let mut wire = b"log: hello\n".to_vec();
    wire.extend_from_slice(&broken);
    wire.extend_from_slice(&[0x7E, 0x00]);
    wire.extend_from_slice(&[0x7E, 65]);
    wire.extend_from_slice(&good);
    assert_eq!(feed(&wire), Some((0xC0, 0x31, vec![2, 9])));
    assert_eq!(feed(&good[..5]), None);
}

#[test]
fn reading_fails_where_the_port_does() {
    assert!(matches!(
        reader_step(ReaderState::Hunting, PortEvent::Failed).1,
        ReaderAction::Fail
    ));
    assert!(matches!(
        reader_step(ReaderState::Hunting, PortEvent::TimedOut).1,
        ReaderAction::ReadByte
    ));
    assert!(matches!(
        reader_step(ReaderState::Length, PortEvent::TimedOut).1,
        ReaderAction::Fail
    ));
    assert!(matches!(
        reader_step(ReaderState::Length, PortEvent::Empty).1,
        ReaderAction::ReadByte
    ));
    assert!(matches!(
        reader_step(ReaderState::Body(4), PortEvent::Failed).1,
        ReaderAction::ReadByte
    ));
}

#[test]
fn the_search_gives_up_between_frames() {
    assert!(gives_up(ReaderState::Hunting, 10, 10));
    assert!(!gives_up(ReaderState::Hunting, 9, 10));
    assert!(!gives_up(ReaderState::Length, 11, 10));
    assert_eq!(time_left(3, 10), Some(7));
    assert_eq!(time_left(10, 10), None);
}

#[test]
fn answers_are_told_from_other_frames() {
    let frame = build_frame(GROUP_WHEEL_READ | 0x80, 0x31, &[0x02], &[5, 6]);
    let decoded = decode_frame(frame[1], &frame[2..]).unwrap();
    assert_eq!(response_payload(&decoded, GROUP_WHEEL_READ, &[0x02]), Some(vec![5, 6]));
    assert_eq!(response_payload(&decoded, GROUP_WHEEL_READ, &[0x02, 5, 6]), Some(vec![]));
    assert_eq!(response_payload(&decoded, GROUP_WHEEL_READ, &[0x03]), None);
    assert_eq!(response_payload(&decoded, GROUP_WHEEL_READ, &[2, 5, 6, 7]), None);
    assert_eq!(response_payload(&decoded, 0x41, &[0x02]), None);
    assert!(decode_frame(frame[1], &frame[3..]).is_none());
}

fn came(group: u8, payload: &[u8]) -> Option<Frame> {
    Some(Frame {
        group,
        device: 0x31,
        payload: payload.to_vec(),
    })
}

/// What comes of waiting for a setting, and how many frames are read for it.
fn wait_for(frames: Vec<(Option<Frame>, u64)>) -> (Option<Vec<u8>>, usize) {
    let mut read = 0;
    let mut action = setting_start(0, 100);
    for (frame, elapsed) in frames {
        match action {
            SettingAction::Read(left) => assert!(0 < left && left <= 100),
            SettingAction::Done(setting) => return (setting, read),
        }
        read += 1;
        action = setting_step(frame, elapsed, 100, 0x40, &[2]);
    }
    match action {
        SettingAction::Done(setting) => (setting, read),
        other => panic!("still waiting: {other:?}"),
    }
}

#[test]
fn the_first_answer_ends_the_wait() {
    let other = || came(0xC0, &[3, 1]);
    let answer = |v: u8| came(0xC0, &[2, v]);
    let wait = wait_for(vec![(other(), 10), (came(0x40, &[2, 9]), 20), (answer(7), 30), (answer(8), 40)]);
    assert_eq!(wait, (Some(vec![7]), 3));
    assert_eq!(wait_for(vec![(other(), 99), (answer(7), 100)]), (Some(vec![7]), 2));
    assert_eq!(wait_for(vec![(other(), 100), (answer(7), 100)]), (None, 1));
    assert_eq!(wait_for(vec![(other(), 50), (None, 100), (answer(7), 100)]), (None, 2));
    assert!(matches!(setting_start(100, 100), SettingAction::Done(None)));
    assert!(matches!(setting_step(other(), 30, 100, 0x40, &[2]), SettingAction::Read(70)));
}

#[test]
fn different_frames_differ_on_the_wire() {
    let mut frames: Vec<Vec<u8>> = vec![vec![], vec![0x7E]];
    for n in 2..7usize {
        for bits in 0..(1u32 << n) {
            frames.push((0..n).map(|i| if bits >> i & 1 == 1 { 0x7E } else { 1 }).collect());
        }
    }
    for a in &frames {
        for b in &frames {
            assert_eq!(byte_stuff(a) == byte_stuff(b), a == b);
        }
    }
}

fn names(list: &[&str]) -> Vec<String> {
    list.iter().map(|s| s.to_string()).collect()
}

#[test]
fn the_wheelbase_is_found_by_name() {
    let found = find_wheelbase(&names(&["usb-FTDI", "usb-Gudsen_Hub", "usb-GUDSEN_MOZA_R5_BASE"]));
    assert_eq!(found.as_deref(), Some("/dev/serial/by-id/usb-GUDSEN_MOZA_R5_BASE"));
    let found = find_wheelbase(&names(&["usb-FTDI_base", "usb-Gudsen_Hub", "usb-Gudsen_AB9"]));
    assert_eq!(found.as_deref(), Some("/dev/serial/by-id/usb-Gudsen_Hub"));
    assert_eq!(find_wheelbase(&names(&["usb-FTDI_base"])), None);
    assert_eq!(find_wheelbase(&[]), None);
    assert_eq!(choose_wheelbase(&names(&["gudsen", "gudsen base", "gudsen base"])), Some(1));
    assert_eq!(choose_wheelbase(&names(&["GUDSEN"])), None);
}
