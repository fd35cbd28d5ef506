//! The serial protocol of Moza wheelbases, as far as the light bar needs it.
//!
//! A frame is `7E N group device command... payload... checksum`, where `N`
//! counts the bytes of command and payload. On the wire every `7E` after the
//! length is doubled, and the checksum covers both copies.

use vstd::prelude::*;

use crate::binary32::Binary32;
use crate::text;
use crate::wire;

verus! {

pub const MESSAGE_START: u8 = 0x7E;

pub const CHECKSUM_MAGIC: u8 = 0x0D;

pub const GROUP_WHEEL_READ: u8 = 0x40;

pub const GROUP_WHEEL_WRITE: u8 = 0x3F;

pub const GROUP_BASE_TELEMETRY: u8 = 0x41;

/// Settings of the base are written to this group.
pub const GROUP_BASE_SETTING_WRITE: u8 = 0x40;

/// The wheel itself, which the modern protocol addresses.
pub const DEVICE_WHEEL: u8 = 0x17;

/// The base, which the legacy protocol addresses and which passes frames on to
/// the wheel.
pub const DEVICE_BASE: u8 = 0x13;

/// The indicator mode in which telemetry drives the lights.
pub const ES_INDICATOR_MODE_TELEMETRY: u8 = 1;

pub const BAUD_RATE: u32 = 115200;

/// How the light bar is driven.
#[derive(Debug, Clone, Copy, PartialEq, Eq, Structural)]
pub enum Protocol {
    /// Newer wheels: command `1A 00`, group `3F`, low byte of the mask first.
    Modern,
    /// ES wheels on R3 and R5 bases: command `FD DE`, group `41`, high byte of
    /// the value first.
    Legacy,
}

/// The protocol for a device whose lower-case path is given.
pub open spec fn protocol_for(lowered: Seq<char>) -> Protocol {
    if text::contains(lowered, "_r5_"@) || text::contains(lowered, "_r3_"@) {
        Protocol::Legacy
    } else {
        Protocol::Modern
    }
}

/// The protocol for a device whose lower-case path is given.
pub fn protocol_for_lowered(lowered: &str) -> (r: Protocol)
    ensures
        r == protocol_for(lowered@),
{
    if text::has(lowered, "_r5_") || text::has(lowered, "_r3_") {
        Protocol::Legacy
    } else {
        Protocol::Modern
    }
}

/// Picks a protocol from the path of the serial device: R3 and R5 bases use the
/// legacy one, all others the modern one.
pub fn detect_protocol(serial_path: &str) -> (r: Protocol)
    ensures
        r == protocol_for(text::lowercase(serial_path@)),
        vstd::utf8::is_ascii_chars(serial_path@) ==> r == protocol_for(
            text::ascii_lower(serial_path@),
        ),
{
    protocol_for_lowered(serial_path.to_lowercase().as_str())
}

/// The sum of some bytes.
pub open spec fn total(b: Seq<u8>) -> nat
    decreases b.len(),
{
    if b.len() == 0 {
        0
    } else {
        total(b.drop_last()) + b.last() as nat
    }
}

/// How many bytes are start bytes.
pub open spec fn starts(b: Seq<u8>) -> nat
    decreases b.len(),
{
    if b.len() == 0 {
        0
    } else {
        starts(b.drop_last()) + (if b.last() == MESSAGE_START {
            1nat
        } else {
            0
        })
    }
}

/// The bytes with every start byte doubled.
pub open spec fn doubled(b: Seq<u8>) -> Seq<u8>
    decreases b.len(),
{
    if b.len() == 0 {
        Seq::empty()
    } else if b.last() == MESSAGE_START {
        doubled(b.drop_last()).push(MESSAGE_START).push(MESSAGE_START)
    } else {
        doubled(b.drop_last()).push(b.last())
    }
}

/// What a frame looks like on the wire.
pub open spec fn stuffed(frame: Seq<u8>) -> Seq<u8> {
    if frame.len() < 2 {
        frame
    } else {
        frame.take(2) + doubled(frame.skip(2))
    }
}

/// The checksum of a frame that lacks it.
pub open spec fn checksum(frame: Seq<u8>) -> u8 {
    ((CHECKSUM_MAGIC as nat + total(frame) + MESSAGE_START as nat * starts(frame.skip(2)))
        % 256) as u8
}

/// A frame without its checksum.
pub open spec fn frame_head(group: u8, device: u8, command: Seq<u8>, payload: Seq<u8>) -> Seq<u8> {
    seq![MESSAGE_START, ((command.len() + payload.len()) % 256) as u8, group, device] + command
        + payload
}

/// A whole frame.
pub open spec fn frame_bytes(group: u8, device: u8, command: Seq<u8>, payload: Seq<u8>) -> Seq<u8> {
    let head = frame_head(group, device, command, payload);
    head.push(checksum(head))
}

/// A sum may be brought below 256 before something is added to it.
proof fn lemma_sum_step(sum: int, more: int)
    ensures
        (sum % 256 + more) % 256 == (sum + more) % 256,
{
}

#[verifier::spinoff_prover]
pub fn wire_checksum(decoded_frame: &[u8]) -> (r: u8)
    requires
        decoded_frame.len() >= 2,
    ensures
        r == checksum(decoded_frame@),
{
    let mut sum: u32 = CHECKSUM_MAGIC as u32;
    let mut i: usize = 0;
    let ghost f = decoded_frame@;
    while i < decoded_frame.len()
        invariant
            i <= decoded_frame.len(),
            f == decoded_frame@,
            f.len() >= 2,
            sum < 256,
            sum == (CHECKSUM_MAGIC as nat + total(f.take(i as int)) + MESSAGE_START as nat * (
            if i < 2 {
                0
            } else {
                starts(f.skip(2).take(i - 2))
            })) % 256,
        decreases decoded_frame.len() - i,
    {
        let b: u8 = decoded_frame[i];
        let extra: u32 = if i >= 2 && b == MESSAGE_START {
            MESSAGE_START as u32
        } else {
            0
        };
        let ghost so_far = CHECKSUM_MAGIC as nat + total(f.take(i as int)) + MESSAGE_START as nat
            * (if i < 2 {
            0
        } else {
            starts(f.skip(2).take(i - 2))
        });
        sum = (sum + b as u32 + extra) % 256;
        proof {
            lemma_sum_step(so_far as int, b + extra);
            assert(f.take(i + 1).drop_last() == f.take(i as int));
            if i >= 2 {
                assert(f.skip(2).take(i - 1).drop_last() == f.skip(2).take(i - 2));
            } else if i == 1 {
                assert(f.skip(2).take(0).len() == 0);
            }
        }
        i = i + 1;
    }
    proof {
        assert(f.take(i as int) == f);
        assert(f.skip(2).take(i - 2) == f.skip(2));
    }
    sum as u8
}

pub fn build_frame(group: u8, device: u8, cmd_id: &[u8], payload: &[u8]) -> (r: Vec<u8>)
    ensures
        r@ == frame_bytes(group, device, cmd_id@, payload@),
{
    let n: u8 = ((cmd_id.len() % 256 + payload.len() % 256) % 256) as u8;
    let mut frame: Vec<u8> = Vec::new();
    frame.push(MESSAGE_START);
    frame.push(n);
    frame.push(group);
    frame.push(device);
    wire::append(&mut frame, cmd_id);
    wire::append(&mut frame, payload);
    assert(frame@ == frame_head(group, device, cmd_id@, payload@));
    let chk: u8 = wire_checksum(frame.as_slice());
    frame.push(chk);
    frame
}

/// Doubles every start byte after the length, the checksum included.
pub fn byte_stuff(frame: &[u8]) -> (r: Vec<u8>)
    ensures
        r@ == stuffed(frame@),
{
    let mut out: Vec<u8> = Vec::new();
    if frame.len() < 2 {
        wire::append(&mut out, frame);
        assert(out@ == frame@);
        return out;
    }
    out.push(frame[0]);
    out.push(frame[1]);
    let mut i: usize = 2;
    let ghost f = frame@;
    assert(f.take(2) == seq![f[0], f[1]]);
    assert(out@ == f.take(2) + doubled(f.skip(2).take(0)));
    while i < frame.len()
        invariant
            2 <= i <= frame.len(),
            f == frame@,
            out@ == f.take(2) + doubled(f.skip(2).take(i - 2)),
        decreases frame.len() - i,
    {
        let b: u8 = frame[i];
        out.push(b);
        if b == MESSAGE_START {
            out.push(MESSAGE_START);
        }
        proof {
            assert(f.skip(2).take(i - 1).drop_last() == f.skip(2).take(i - 2));
            assert(f.skip(2).take(i - 1).last() == b);
            assert(out@ == f.take(2) + doubled(f.skip(2).take(i - 1)));
        }
        i = i + 1;
    }
    proof {
        assert(f.skip(2).take(i - 2) == f.skip(2));
    }
    out
}

/// The bytes in hexadecimal, a space between each two.
pub open spec fn hex_text(b: Seq<u8>) -> Seq<char>
    decreases b.len(),
{
    if b.len() == 0 {
        Seq::empty()
    } else if b.len() == 1 {
        text::hex_byte(b[0])
    } else {
        hex_text(b.drop_last()).push(' ') + text::hex_byte(b.last())
    }
}

pub fn hex(bytes: &[u8]) -> (r: String)
    ensures
        r@ == hex_text(bytes@),
{
    let mut s: String = String::new();
    let mut i: usize = 0;
    while i < bytes.len()
        invariant
            i <= bytes.len(),
            s@ == hex_text(bytes@.take(i as int)),
        decreases bytes.len() - i,
    {
        if i > 0 {
            s.push(' ');
        }
        text::push_hex(&mut s, bytes[i]);
        proof {
            let t = bytes@.take(i + 1);
            assert(t.drop_last() == bytes@.take(i as int));
            assert(s@ == hex_text(t));
        }
        i = i + 1;
    }
    proof {
        assert(bytes@.take(i as int) == bytes@);
    }
    s
}

/// The byte with its two halves exchanged.
pub fn swap_nibbles(b: u8) -> (r: u8)
    ensures
        r == (b % 16) * 16 + b / 16,
{
    (b % 16) * 16 + b / 16
}

/// The payload of a modern light bar frame.
pub open spec fn modern_payload(bitmask: u32, led_count: nat) -> Seq<u8> {
    if led_count > 16 {
        wire::u32_image(bitmask)
    } else {
        wire::u16_image((bitmask % 0x1_0000) as u16)
    }
}

pub fn build_modern_rpm_frame(device: u8, bitmask: u32, led_count: usize) -> (r: Vec<u8>)
    ensures
        r@ == frame_bytes(
            GROUP_WHEEL_WRITE,
            device,
            seq![0x1Au8, 0x00u8],
            modern_payload(bitmask, led_count as nat),
        ),
{
    let command: [u8; 2] = [0x1A, 0x00];
    assert(command@ == seq![0x1Au8, 0x00u8]);
    if led_count > 16 {
        let payload: [u8; 4] = wire::u32_bytes(bitmask);
        build_frame(GROUP_WHEEL_WRITE, device, &command, &payload)
    } else {
        let payload: [u8; 2] = wire::u16_bytes((bitmask % 0x1_0000) as u16);
        build_frame(GROUP_WHEEL_WRITE, device, &command, &payload)
    }
}

pub fn build_legacy_rpm_frame(device: u8, value: u32) -> (r: Vec<u8>)
    ensures
        r@ == frame_bytes(
            GROUP_BASE_TELEMETRY,
            device,
            seq![0xFDu8, 0xDEu8],
            wire::u32_image(value).reverse(),
        ),
{
    let command: [u8; 2] = [0xFD, 0xDE];
    assert(command@ == seq![0xFDu8, 0xDEu8]);
    let low_first: [u8; 4] = wire::u32_bytes(value);
    let payload: [u8; 4] = [low_first[3], low_first[2], low_first[1], low_first[0]];
    assert(payload@ == wire::u32_image(value).reverse());
    build_frame(GROUP_BASE_TELEMETRY, device, &command, &payload)
}

/// A wheel that is driven in one of the two protocols. Methods that send give
/// the bytes to write to the serial port.
#[derive(Debug, Clone, Copy, PartialEq, Eq, Structural)]
pub struct Moza {
    pub protocol: Protocol,
}

impl Moza {
    /// The device that frames are addressed to.
    pub open spec fn device(self) -> u8 {
        match self.protocol {
            Protocol::Modern => DEVICE_WHEEL,
            Protocol::Legacy => DEVICE_BASE,
        }
    }

    /// The light bar frame for a mask.
    pub open spec fn bitmask_frame(self, bitmask: u32, led_count: nat) -> Seq<u8> {
        match self.protocol {
            Protocol::Modern => frame_bytes(
                GROUP_WHEEL_WRITE,
                DEVICE_WHEEL,
                seq![0x1Au8, 0x00u8],
                modern_payload(bitmask, led_count),
            ),
            Protocol::Legacy => frame_bytes(
                GROUP_BASE_TELEMETRY,
                DEVICE_BASE,
                seq![0xFDu8, 0xDEu8],
                wire::u32_image(bitmask).reverse(),
            ),
        }
    }

    pub fn device_id(&self) -> (r: u8)
        ensures
            r == self.device(),
    {
        match self.protocol {
            Protocol::Modern => DEVICE_WHEEL,
            Protocol::Legacy => DEVICE_BASE,
        }
    }

    /// The driver for a port that has just been opened, and what to write to it
    /// first. A legacy wheel is switched to lights that telemetry drives.
    pub fn open(protocol: Protocol) -> (r: (Self, Option<Vec<u8>>))
        ensures
            r.0.protocol == protocol,
            protocol == Protocol::Modern ==> r.1 is None,
            protocol == Protocol::Legacy ==> r.1 is Some && r.1->0@ == stuffed(
                frame_bytes(
                    GROUP_BASE_SETTING_WRITE,
                    DEVICE_BASE,
                    seq![0x04u8],
                    seq![ES_INDICATOR_MODE_TELEMETRY],
                ),
            ),
    {
        let moza = Moza { protocol };
        if protocol == Protocol::Legacy {
            let command: [u8; 1] = [0x04];
            let value: [u8; 1] = [ES_INDICATOR_MODE_TELEMETRY];
            assert(command@ == seq![0x04u8]);
            assert(value@ == seq![ES_INDICATOR_MODE_TELEMETRY]);
            let frame: Vec<u8> = build_frame(
                GROUP_BASE_SETTING_WRITE,
                DEVICE_BASE,
                &command,
                &value,
            );
            (moza, Some(byte_stuff(frame.as_slice())))
        } else {
            (moza, None)
        }
    }

    /// What to write for a mask of lights.
    pub fn send_rpm_bitmask(&self, bitmask: u32, led_count: usize) -> (r: Vec<u8>)
        ensures
            r@ == stuffed(self.bitmask_frame(bitmask, led_count as nat)),
    {
        let device: u8 = self.device_id();
        let frame: Vec<u8> = match self.protocol {
            Protocol::Modern => build_modern_rpm_frame(device, bitmask, led_count),
            Protocol::Legacy => build_legacy_rpm_frame(device, bitmask),
        };
        byte_stuff(frame.as_slice())
    }

    /// What to write for an engine speed between 0 and 1023, which an ES wheel
    /// compares with its own thresholds. More than 1023 counts as 1023.
    pub fn send_rpm_percent_1023(&self, value: u16) -> (r: Vec<u8>)
        ensures
            r@ == stuffed(
                frame_bytes(
                    GROUP_BASE_TELEMETRY,
                    self.device(),
                    seq![0xFDu8, 0xDEu8],
                    wire::u32_image(
                        if value > 1023 {
                            1023
                        } else {
                            value as u32
                        },
                    ).reverse(),
                ),
            ),
    {
        let value: u32 = if value > 1023 {
            1023
        } else {
            value as u32
        };
        let frame: Vec<u8> = build_legacy_rpm_frame(self.device_id(), value);
        byte_stuff(frame.as_slice())
    }

    /// What to write to ask for a setting: a frame whose payload is as many
    /// zeros as the response will have bytes.
    pub fn read_setting(
        &self,
        read_group: u8,
        cmd_id: &[u8],
        response_payload_len: usize,
    ) -> (r: Vec<u8>)
        ensures
            r@ == stuffed(
                frame_bytes(
                    read_group,
                    self.device(),
                    cmd_id@,
                    Seq::new(response_payload_len as nat, |i: int| 0u8),
                ),
            ),
    {
        let zeros: Vec<u8> = vec![0u8;response_payload_len];
        assert(zeros@ == Seq::new(response_payload_len as nat, |i: int| 0u8));
        let frame: Vec<u8> = build_frame(
            read_group,
            self.device_id(),
            cmd_id,
            zeros.as_slice(),
        );
        byte_stuff(frame.as_slice())
    }
}

/// A frame that has been read.
#[derive(Debug)]
pub struct Frame {
    pub group: u8,
    pub device: u8,
    pub payload: Vec<u8>,
}

/// Whether a frame answers a request that was made to `read_group` with the
/// command `command`. The device is not looked at: a base answers for its wheel.
pub open spec fn answers(frame: Frame, read_group: u8, command: Seq<u8>) -> bool {
    &&& frame.group == read_group | 0x80
    &&& frame.payload@.len() >= command.len()
    &&& frame.payload@.take(command.len() as int) == command
}

/// The setting that a frame carries, where the frame answers the request.
pub fn response_payload(frame: &Frame, read_group: u8, cmd_id: &[u8]) -> (r: Option<Vec<u8>>)
    ensures
        r is Some <==> answers(*frame, read_group, cmd_id@),
        r matches Some(v) ==> v@ == frame.payload@.skip(cmd_id.len() as int),
{
    if frame.group != (read_group | 0x80) {
        return None;
    }
    if frame.payload.len() < cmd_id.len() {
        return None;
    }
    let mut i: usize = 0;
    while i < cmd_id.len()
        invariant
            i <= cmd_id.len() <= frame.payload.len(),
            forall|k: int| 0 <= k < i ==> frame.payload@[k] == cmd_id@[k],
        decreases cmd_id.len() - i,
    {
        if frame.payload[i] != cmd_id[i] {
            proof {
                assert(frame.payload@.take(cmd_id@.len() as int)[i as int] != cmd_id@[i as int]);
            }
            return None;
        }
        i = i + 1;
    }
    proof {
        assert(frame.payload@.take(cmd_id@.len() as int) == cmd_id@);
    }
    let mut v: Vec<u8> = Vec::new();
    wire::append(&mut v, &frame.payload.as_slice()[i..frame.payload.len()]);
    assert(v@ == frame.payload@.skip(cmd_id.len() as int));
    Some(v)
}

/// How much of the time for a request is left, if any.
pub fn time_left(elapsed: u64, deadline: u64) -> (r: Option<u64>)
    ensures
        r == if elapsed < deadline {
            Some((deadline - elapsed) as u64)
        } else {
            None
        },
{
    if elapsed < deadline {
        Some(deadline - elapsed)
    } else {
        None
    }
}

/// What to do next while a setting is awaited.
#[derive(Debug)]
pub enum SettingAction {
    /// Read the next frame, within this time.
    Read(u64),
    /// End with the setting, or without one.
    Done(Option<Vec<u8>>),
}

/// Whether this is what to do once a frame has come or none did: a frame that
/// answers gives the setting, and without a frame there is none. Other frames are
/// skipped as long as there is time left.
pub open spec fn awaits_setting(
    frame: Option<Frame>,
    elapsed: u64,
    deadline: u64,
    read_group: u8,
    command: Seq<u8>,
    r: SettingAction,
) -> bool {
    match frame {
        None => r == SettingAction::Done(None),
        Some(f) => if answers(f, read_group, command) {
            r matches SettingAction::Done(Some(v)) && v@ == f.payload@.skip(command.len() as int)
        } else if elapsed < deadline {
            r == SettingAction::Read((deadline - elapsed) as u64)
        } else {
            r == SettingAction::Done(None)
        },
    }
}

/// What to do first while a setting is awaited: read a frame, if there is time.
pub fn setting_start(elapsed: u64, deadline: u64) -> (r: SettingAction)
    ensures
        r == if elapsed < deadline {
            SettingAction::Read((deadline - elapsed) as u64)
        } else {
            SettingAction::Done(None)
        },
{
    match time_left(elapsed, deadline) {
        Some(left) => SettingAction::Read(left),
        None => SettingAction::Done(None),
    }
}

/// What to do next while a setting is awaited, once a frame has come or none did.
pub fn setting_step(
    frame: Option<Frame>,
    elapsed: u64,
    deadline: u64,
    read_group: u8,
    cmd_id: &[u8],
) -> (r: SettingAction)
    ensures
        awaits_setting(frame, elapsed, deadline, read_group, cmd_id@, r),
{
    match frame {
        None => SettingAction::Done(None),
        Some(f) => match response_payload(&f, read_group, cmd_id) {
            Some(v) => SettingAction::Done(Some(v)),
            None => setting_start(elapsed, deadline),
        },
    }
}

/// Whether these are the frames that came while a setting was awaited, the times
/// then and what was done next: it is awaited until something else than a read is
/// to be done.
pub open spec fn is_wait(
    frames: Seq<Option<Frame>>,
    times: Seq<u64>,
    deadline: u64,
    read_group: u8,
    command: Seq<u8>,
    actions: Seq<SettingAction>,
) -> bool {
    &&& frames.len() > 0
    &&& times.len() == frames.len()
    &&& actions.len() == frames.len()
    &&& forall|i: int|
        #![trigger frames[i]]
        0 <= i < frames.len() ==> awaits_setting(
            frames[i],
            times[i],
            deadline,
            read_group,
            command,
            actions[i],
        )
    &&& forall|i: int| 0 <= i < frames.len() - 1 ==> (#[trigger] actions[i]) is Read
    &&& actions.last() is Done
}

/// Whether a frame came that answers.
pub open spec fn is_answer(frame: Option<Frame>, read_group: u8, command: Seq<u8>) -> bool {
    frame is Some && answers(frame->0, read_group, command)
}

/// A wait ends with the first frame that answers, and gives the setting in it; all
/// frames before that are skipped. It ends without a setting only where no frame
/// answers, and none came or the time was up.
pub proof fn lemma_first_answer_ends_the_wait(
    frames: Seq<Option<Frame>>,
    times: Seq<u64>,
    deadline: u64,
    read_group: u8,
    command: Seq<u8>,
    actions: Seq<SettingAction>,
)
    requires
        is_wait(frames, times, deadline, read_group, command, actions),
    ensures
        forall|i: int|
            0 <= i < frames.len() - 1 ==> (#[trigger] frames[i]) is Some && !is_answer(
                frames[i],
                read_group,
                command,
            ) && times[i] < deadline,
        match actions.last() {
            SettingAction::Done(Some(v)) => is_answer(frames.last(), read_group, command) && v@
                == (frames.last()->0).payload@.skip(command.len() as int),
            SettingAction::Done(None) => {
                &&& forall|i: int|
                    0 <= i < frames.len() ==> !is_answer(#[trigger] frames[i], read_group, command)
                &&& frames.last() is None || times.last() >= deadline
            },
            _ => false,
        },
{
    let n = frames.len() - 1;
    assert forall|i: int| 0 <= i < n implies (#[trigger] frames[i]) is Some && !is_answer(
        frames[i],
        read_group,
        command,
    ) && times[i] < deadline by {
        assert(actions[i] is Read);
    }
    assert(frames[n] == frames.last());
}

/// No frame that answers is missed: the wait ends with it, and with its setting.
pub proof fn lemma_no_answer_is_missed(
    frames: Seq<Option<Frame>>,
    times: Seq<u64>,
    deadline: u64,
    read_group: u8,
    command: Seq<u8>,
    actions: Seq<SettingAction>,
    k: int,
)
    requires
        is_wait(frames, times, deadline, read_group, command, actions),
        0 <= k < frames.len(),
        is_answer(frames[k], read_group, command),
    ensures
        k == frames.len() - 1,
        actions.last() matches SettingAction::Done(Some(v)) && v@ == (frames[k]->0).payload@.skip(
            command.len() as int,
        ),
{
    if k < frames.len() - 1 {
        assert(actions[k] is Read);
    }
}

/// Whether group, device, payload and checksum form a frame with length `n`.
pub open spec fn checks_out(n: u8, rest: Seq<u8>) -> bool {
    &&& rest.len() == n + 3
    &&& rest.last() == checksum(seq![MESSAGE_START, n] + rest.drop_last())
}

/// The frame in the bytes that follow a start byte and the length `n`, where
/// the checksum is right.
pub fn decode_frame(n: u8, rest: &[u8]) -> (r: Option<Frame>)
    ensures
        r is Some <==> checks_out(n, rest@),
        r matches Some(f) ==> f.group == rest@[0] && f.device == rest@[1] && f.payload@
            == rest@.subrange(2, n + 2),
{
    if rest.len() != n as usize + 3 {
        return None;
    }
    let last: usize = rest.len() - 1;
    let mut whole: Vec<u8> = Vec::new();
    whole.push(MESSAGE_START);
    whole.push(n);
    wire::append(&mut whole, &rest[0..last]);
    assert(whole@ == seq![MESSAGE_START, n] + rest@.drop_last());
    if wire_checksum(whole.as_slice()) != rest[last] {
        return None;
    }
    let mut payload: Vec<u8> = Vec::new();
    wire::append(&mut payload, &rest[2..last]);
    assert(payload@ == rest@.subrange(2, n + 2));
    Some(Frame { group: rest[0], device: rest[1], payload })
}

/// Where the search for a frame stands.
#[derive(Debug, Clone, Copy, PartialEq, Eq, Structural)]
pub enum ReaderState {
    /// Bytes are skipped until a start byte comes.
    Hunting,
    /// The next byte is the length.
    Length,
    /// Group, device, this many payload bytes and the checksum come next.
    Body(u8),
}

/// What came of a read from the serial port.
#[derive(Debug)]
pub enum PortEvent {
    Byte(u8),
    /// A read that gave no byte.
    Empty,
    TimedOut,
    /// A read that failed otherwise.
    Failed,
    /// A block of as many bytes as were asked for.
    Block(Vec<u8>),
}

/// What to do next.
#[derive(Debug)]
pub enum ReaderAction {
    ReadByte,
    ReadBlock(usize),
    Done(Frame),
    Fail,
}

/// Whether the search for a frame ends without one: the time is up, and no
/// frame has begun.
pub fn gives_up(state: ReaderState, elapsed: u64, deadline: u64) -> (r: bool)
    ensures
        r <==> state == ReaderState::Hunting && elapsed >= deadline,
{
    state == ReaderState::Hunting && elapsed >= deadline
}

/// The state after an event.
pub open spec fn reader_next(state: ReaderState, event: PortEvent) -> ReaderState {
    match (state, event) {
        (ReaderState::Hunting, PortEvent::Byte(b)) => if b == MESSAGE_START {
            ReaderState::Length
        } else {
            ReaderState::Hunting
        },
        (ReaderState::Length, PortEvent::Byte(n)) => if 1 <= n <= 64 {
            ReaderState::Body(n)
        } else {
            ReaderState::Hunting
        },
        _ => ReaderState::Hunting,
    }
}

/// Whether an event ends the search with an error: a time-out does so only
/// between the start byte and the length, and a block that cannot be read is
/// skipped.
pub open spec fn reader_fails(state: ReaderState, event: PortEvent) -> bool {
    match state {
        ReaderState::Hunting => event is Failed,
        ReaderState::Length => event is Failed || event is TimedOut,
        ReaderState::Body(_) => false,
    }
}

/// Whether an event is a block that completes a frame.
pub open spec fn completes(state: ReaderState, event: PortEvent) -> bool {
    state matches ReaderState::Body(n) && event matches PortEvent::Block(b) && checks_out(n, b@)
}

/// Whether an event leads the search from one state to another and to an action: a
/// block that checks out ends it with the frame, some failures end it with an
/// error, and otherwise the next bytes are read.
pub open spec fn searches(
    state: ReaderState,
    event: PortEvent,
    next: ReaderState,
    action: ReaderAction,
) -> bool {
    &&& next == reader_next(state, event)
    &&& action is Fail <==> reader_fails(state, event)
    &&& action is Done <==> completes(state, event)
    &&& action matches ReaderAction::Done(f) ==> {
        let n = state->Body_0;
        let b = event->Block_0@;
        f.group == b[0] && f.device == b[1] && f.payload@ == b.subrange(2, n + 2)
    }
    &&& action matches ReaderAction::ReadBlock(k) ==> (next matches ReaderState::Body(n) && k == n
        + 3)
    &&& next is Body ==> action is ReadBlock
}

/// One step of the search for a frame.
pub fn reader_step(state: ReaderState, event: PortEvent) -> (r: (ReaderState, ReaderAction))
    ensures
        searches(state, event, r.0, r.1),
{
    match state {
        ReaderState::Hunting => match event {
            PortEvent::Byte(b) => if b == MESSAGE_START {
                (ReaderState::Length, ReaderAction::ReadByte)
            } else {
                (ReaderState::Hunting, ReaderAction::ReadByte)
            },
            PortEvent::Failed => (ReaderState::Hunting, ReaderAction::Fail),
            _ => (ReaderState::Hunting, ReaderAction::ReadByte),
        },
        ReaderState::Length => match event {
            PortEvent::Byte(n) => if 1 <= n && n <= 64 {
                (ReaderState::Body(n), ReaderAction::ReadBlock(n as usize + 3))
            } else {
                (ReaderState::Hunting, ReaderAction::ReadByte)
            },
            PortEvent::Failed => (ReaderState::Hunting, ReaderAction::Fail),
            PortEvent::TimedOut => (ReaderState::Hunting, ReaderAction::Fail),
            _ => (ReaderState::Hunting, ReaderAction::ReadByte),
        },
        ReaderState::Body(n) => match event {
            PortEvent::Block(b) => match decode_frame(n, b.as_slice()) {
                Some(f) => (ReaderState::Hunting, ReaderAction::Done(f)),
                None => (ReaderState::Hunting, ReaderAction::ReadByte),
            },
            _ => (ReaderState::Hunting, ReaderAction::ReadByte),
        },
    }
}

proof fn lemma_total_adds(a: Seq<u8>, b: Seq<u8>)
    ensures
        total(a + b) == total(a) + total(b),
    decreases b.len(),
{
    if b.len() == 0 {
        assert(a + b == a);
    } else {
        assert((a + b).drop_last() == a + b.drop_last());
        lemma_total_adds(a, b.drop_last());
    }
}

proof fn lemma_total_of_doubled(b: Seq<u8>)
    ensures
        total(doubled(b)) == total(b) + MESSAGE_START as nat * starts(b),
    decreases b.len(),
{
    if b.len() > 0 {
        lemma_total_of_doubled(b.drop_last());
        let d = doubled(b.drop_last());
        if b.last() == MESSAGE_START {
            let e = d.push(MESSAGE_START);
            assert(e.drop_last() == d);
            assert(total(e) == total(d) + MESSAGE_START as nat);
            assert(e.push(MESSAGE_START).drop_last() == e);
            assert(total(doubled(b)) == total(e) + MESSAGE_START as nat);
        } else {
            assert(d.push(b.last()).drop_last() == d);
        }
    }
}

/// The checksum covers what goes over the wire: it is the magic number plus all
/// bytes sent before it, both copies of a doubled start byte among them.
pub proof fn lemma_checksum_covers_the_wire(frame: Seq<u8>)
    requires
        frame.len() >= 2,
    ensures
        checksum(frame) == (CHECKSUM_MAGIC as nat + total(stuffed(frame))) % 256,
{
    lemma_total_of_doubled(frame.skip(2));
    lemma_total_adds(frame.take(2), doubled(frame.skip(2)));
    lemma_total_adds(frame.take(2), frame.skip(2));
    assert(frame.take(2) + frame.skip(2) == frame);
}

/// A frame without a start byte after its length goes over the wire as it is.
pub proof fn lemma_nothing_to_double(frame: Seq<u8>)
    requires
        forall|i: int| 2 <= i < frame.len() ==> frame[i] != MESSAGE_START,
    ensures
        stuffed(frame) == frame,
{
    if frame.len() >= 2 {
        lemma_doubled_unchanged(frame.skip(2));
        assert(frame.take(2) + frame.skip(2) == frame);
    }
}

/// The doubling can be undone: frames that look alike on the wire are the same.
pub proof fn lemma_stuffing_can_be_undone(a: Seq<u8>, b: Seq<u8>)
    requires
        stuffed(a) == stuffed(b),
    ensures
        a == b,
{
    if a.len() >= 2 && b.len() >= 2 {
        let (x, y) = (stuffed(a), stuffed(b));
        assert(x.take(2) =~= a.take(2) && y.take(2) =~= b.take(2));
        assert(x.skip(2) =~= doubled(a.skip(2)) && y.skip(2) =~= doubled(b.skip(2)));
        lemma_doubling_can_be_undone(a.skip(2), b.skip(2));
        assert(a.take(2) + a.skip(2) == a);
        assert(b.take(2) + b.skip(2) == b);
    }
}

proof fn lemma_doubling_can_be_undone(a: Seq<u8>, b: Seq<u8>)
    requires
        doubled(a) == doubled(b),
    ensures
        a == b,
    decreases a.len(),
{
    assert(doubled(a).len() == 0 <==> a.len() == 0);
    assert(doubled(b).len() == 0 <==> b.len() == 0);
    if a.len() == 0 || b.len() == 0 {
        assert(a =~= b);
    } else {
        let (x, y) = (doubled(a), doubled(b));
        assert(x.last() == a.last() && y.last() == b.last());
        let (p, q) = (a.drop_last(), b.drop_last());
        if a.last() == MESSAGE_START {
            assert(x.drop_last().drop_last() =~= doubled(p));
            assert(y.drop_last().drop_last() =~= doubled(q));
        } else {
            assert(x.drop_last() =~= doubled(p));
            assert(y.drop_last() =~= doubled(q));
        }
        lemma_doubling_can_be_undone(p, q);
        assert(p.push(a.last()) == a);
        assert(q.push(b.last()) == b);
    }
}

proof fn lemma_doubled_unchanged(b: Seq<u8>)
    requires
        forall|i: int| 0 <= i < b.len() ==> b[i] != MESSAGE_START,
    ensures
        doubled(b) == b,
    decreases b.len(),
{
    if b.len() > 0 {
        lemma_doubled_unchanged(b.drop_last());
        assert(b.drop_last().push(b.last()) == b);
    }
}

/// What is written is read back: the bytes on the wire of a frame with a
/// command and payload of 1 to 64 bytes lead the search from the start byte
/// through the length to a block that checks out and carries group, device,
/// command and payload. Frames in which the start byte occurs again are left
/// out: the search does not undo the doubling.
pub proof fn lemma_frame_is_read_back(group: u8, device: u8, command: Seq<u8>, payload: Seq<u8>)
    requires
        1 <= command.len() + payload.len() <= 64,
        forall|i: int|
            2 <= i < frame_bytes(group, device, command, payload).len() ==> frame_bytes(
                group,
                device,
                command,
                payload,
            )[i] != MESSAGE_START,
    ensures
        ({
            let sent = stuffed(frame_bytes(group, device, command, payload));
            let n = (command.len() + payload.len()) as u8;
            &&& sent.len() == n + 5
            &&& reader_next(ReaderState::Hunting, PortEvent::Byte(sent[0])) == ReaderState::Length
            &&& reader_next(ReaderState::Length, PortEvent::Byte(sent[1])) == ReaderState::Body(n)
            &&& checks_out(n, sent.skip(2))
            &&& sent.skip(2)[0] == group
            &&& sent.skip(2)[1] == device
            &&& sent.skip(2).subrange(2, n + 2) == command + payload
        }),
{
    let frame = frame_bytes(group, device, command, payload);
    let head = frame_head(group, device, command, payload);
    let n = (command.len() + payload.len()) as u8;
    lemma_nothing_to_double(frame);
    assert(frame.skip(2).drop_last() == head.skip(2));
    assert(seq![MESSAGE_START, n] + head.skip(2) == head);
    assert(frame.skip(2).subrange(2, n + 2) == command + payload);
}

/// Whether these are the states of one search for a frame, with what came of each
/// read and what was done next: it goes on until there is a frame or an error.
pub open spec fn is_search(
    states: Seq<ReaderState>,
    events: Seq<PortEvent>,
    actions: Seq<ReaderAction>,
) -> bool {
    &&& events.len() > 0
    &&& states.len() == events.len() + 1
    &&& actions.len() == events.len()
    &&& states[0] == ReaderState::Hunting
    &&& forall|i: int|
        #![trigger events[i]]
        0 <= i < events.len() ==> searches(states[i], events[i], states[i + 1], actions[i])
    &&& forall|i: int|
        0 <= i < actions.len() - 1 ==> !((#[trigger] actions[i]) is Done) && !(actions[i] is Fail)
}

/// A search ends with the first block that checks out, and with the frame in it;
/// everything before that is skipped. No such block is missed.
pub proof fn lemma_first_frame_ends_the_search(
    states: Seq<ReaderState>,
    events: Seq<PortEvent>,
    actions: Seq<ReaderAction>,
    k: int,
)
    requires
        is_search(states, events, actions),
        0 <= k < events.len(),
    ensures
        k < events.len() - 1 ==> !completes(states[k], events[k]),
        k == events.len() - 1 ==> (actions[k] is Done <==> completes(states[k], events[k])),
        completes(states[k], events[k]) ==> k == events.len() - 1 && (actions[k]
            matches ReaderAction::Done(f) && f.group == events[k]->Block_0@[0] && f.device
            == events[k]->Block_0@[1] && f.payload@ == events[k]->Block_0@.subrange(
            2,
            states[k]->Body_0 + 2,
        )),
{
    assert(searches(states[k], events[k], states[k + 1], actions[k]));
}

/// The state after some bytes were read one by one.
pub open spec fn after_bytes(state: ReaderState, bytes: Seq<u8>) -> ReaderState
    decreases bytes.len(),
{
    if bytes.len() == 0 {
        state
    } else {
        reader_next(after_bytes(state, bytes.drop_last()), PortEvent::Byte(bytes.last()))
    }
}

/// Text between frames is skipped: bytes without a start byte leave the search
/// where it was, so that a frame behind them is found.
pub proof fn lemma_noise_is_skipped(noise: Seq<u8>)
    requires
        !noise.contains(MESSAGE_START),
    ensures
        after_bytes(ReaderState::Hunting, noise) == ReaderState::Hunting,
    decreases noise.len(),
{
    if noise.len() > 0 {
        let before = noise.drop_last();
        assert(!before.contains(MESSAGE_START)) by {
            assert forall|i: int| 0 <= i < before.len() implies before[i] != MESSAGE_START by {
                assert(noise.contains(noise[i]));
            }
        }
        lemma_noise_is_skipped(before);
        assert(noise.contains(noise[noise.len() - 1]));
    }
}

/// Whether the lower-case name is that of a Moza device.
pub open spec fn is_moza_name(lowered: Seq<char>) -> bool {
    text::contains(lowered, "gudsen"@)
}

/// Whether the lower-case name is that of a Moza wheelbase.
pub open spec fn is_base_name(lowered: Seq<char>) -> bool {
    is_moza_name(lowered) && text::contains(lowered, "base"@)
}

/// Whether `choice` is the first wheelbase among some lower-case names, or the
/// first Moza device where there is no wheelbase.
pub open spec fn is_wheelbase_choice(lowered: Seq<Seq<char>>, choice: Option<int>) -> bool {
    match choice {
        Some(i) => {
            &&& 0 <= i < lowered.len()
            &&& is_moza_name(lowered[i])
            &&& is_base_name(lowered[i]) ==> forall|j: int|
                0 <= j < i ==> !is_base_name(#[trigger] lowered[j])
            &&& !is_base_name(lowered[i]) ==> {
                &&& forall|j: int|
                    0 <= j < lowered.len() ==> !is_base_name(#[trigger] lowered[j])
                &&& forall|j: int| 0 <= j < i ==> !is_moza_name(#[trigger] lowered[j])
            }
        },
        None => forall|j: int| 0 <= j < lowered.len() ==> !is_moza_name(#[trigger] lowered[j]),
    }
}

/// The characters of each string.
pub open spec fn texts(names: Seq<String>) -> Seq<Seq<char>> {
    Seq::new(names.len(), |i: int| names[i]@)
}

/// The position of the wheelbase among some lower-case names.
pub fn choose_wheelbase(lowered: &[String]) -> (r: Option<usize>)
    ensures
        is_wheelbase_choice(
            texts(lowered@),
            match r {
                Some(i) => Some(i as int),
                None => None,
            },
        ),
{
    let mut first: Option<usize> = None;
    let mut i: usize = 0;
    let ghost t = texts(lowered@);
    while i < lowered.len()
        invariant
            i <= lowered.len(),
            t == texts(lowered@),
            forall|j: int| 0 <= j < i ==> !is_base_name(#[trigger] t[j]),
            first matches Some(f) ==> f < i && is_moza_name(t[f as int]) && forall|j: int|
                0 <= j < f ==> !is_moza_name(#[trigger] t[j]),
            first is None ==> forall|j: int| 0 <= j < i ==> !is_moza_name(#[trigger] t[j]),
        decreases lowered.len() - i,
    {
        assert(t[i as int] == lowered@[i as int]@);
        if text::has(lowered[i].as_str(), "gudsen") {
            if text::has(lowered[i].as_str(), "base") {
                return Some(i);
            }
            if first.is_none() {
                first = Some(i);
            }
        }
        i = i + 1;
    }
    first
}

/// The lower-case form of each name.
pub open spec fn lowercase_texts(names: Seq<String>) -> Seq<Seq<char>> {
    Seq::new(names.len(), |i: int| text::lowercase(names[i]@))
}

/// The path of the wheelbase's serial device, given the names in
/// `/dev/serial/by-id`: the first one that names a Moza base, else the first
/// one that names a Moza device.
pub fn find_wheelbase(names: &[String]) -> (r: Option<String>)
    ensures
        r is None ==> is_wheelbase_choice(lowercase_texts(names@), None),
        r matches Some(path) ==> exists|i: int|
            #![trigger names@[i]]
            is_wheelbase_choice(lowercase_texts(names@), Some(i)) && path@ == "/dev/serial/by-id/"@
                + names@[i]@,
{
    let mut lowered: Vec<String> = Vec::new();
    let mut i: usize = 0;
    while i < names.len()
        invariant
            i <= names.len(),
            lowered@.len() == i,
            forall|j: int| 0 <= j < i ==> (#[trigger] lowered@[j])@ == text::lowercase(names@[j]@),
        decreases names.len() - i,
    {
        lowered.push(names[i].as_str().to_lowercase());
        i = i + 1;
    }
    assert(texts(lowered@) == lowercase_texts(names@));
    match choose_wheelbase(lowered.as_slice()) {
        Some(i) => {
            let mut path: String = String::new();
            path.append("/dev/serial/by-id/");
            path.append(names[i].as_str());
            assert(path@ == "/dev/serial/by-id/"@ + names@[i as int]@);
            Some(path)
        },
        None => None,
    }
}

/// The temperatures of a wheelbase in degrees Celsius, as far as its sensors
/// answered.
#[derive(Debug, Clone, Copy, PartialEq, Eq)]
pub struct BaseTemps {
    pub mcu_c: Option<Binary32>,
    pub mosfet_c: Option<Binary32>,
    pub motor_c: Option<Binary32>,
}

/// The bits of a number in its bytes, low byte first.
proof fn lemma_bits_of_image(n: u32, i: u32)
    requires
        i < 32,
    ensures
        ({
            let byte = wire::u32_image(n)[(i / 8) as int];
            (byte >> ((i % 8) as u8)) & 1 == (n >> i) & 1
        }),
{
    let j: u32 = i % 8;
    let k: u8 = j as u8;
    let b0: u8 = (n % 0x100) as u8;
    let b1: u8 = ((n / 0x100) % 0x100) as u8;
    let b2: u8 = ((n / 0x1_0000) % 0x100) as u8;
    let b3: u8 = (n / 0x100_0000) as u8;
    assert((b0 >> k) & 1 == (n >> j) & 1 && (b1 >> k) & 1 == (n >> ((8 + j) as u32)) & 1 && (b2
        >> k) & 1 == (n >> ((16 + j) as u32)) & 1 && (b3 >> k) & 1 == (n >> ((24 + j) as u32)) & 1)
        by (bit_vector)
        requires
            j < 8,
            k == j,
            b0 == n % 0x100,
            b1 == (n / 0x100) % 0x100,
            b2 == (n / 0x1_0000) % 0x100,
            b3 == n / 0x100_0000,
    ;
}

/// Every light travels as one bit. A modern wheel gets `7E`, the number of bytes of
/// command and payload, `3F`, `17`, the command `1A 00` and then the mask, light `i`
/// in bit `i % 8` of byte `i / 8`: two bytes for up to 16 lights, four for more. A
/// legacy wheel gets `7E 06 41 13 FD DE` and the four bytes of the mask the other
/// way round.
pub proof fn lemma_lights_on_the_wire(moza: Moza, mask: u32, count: nat, i: u32)
    requires
        i < 32,
        i < count || moza.protocol == Protocol::Legacy,
    ensures
        ({
            let f = moza.bitmask_frame(mask, count);
            let bytes = if count > 16 || moza.protocol == Protocol::Legacy {
                4int
            } else {
                2
            };
            let lit = (mask >> i) & 1 == 1;
            &&& f.len() == 7 + bytes
            &&& f[0] == 0x7E && f[1] == 2 + bytes
            &&& moza.protocol == Protocol::Modern ==> {
                &&& f[2] == 0x3F && f[3] == 0x17 && f[4] == 0x1A && f[5] == 0x00
                &&& lit <==> (f[6 + i / 8] >> ((i % 8) as u8)) & 1 == 1
            }
            &&& moza.protocol == Protocol::Legacy ==> {
                &&& f[2] == 0x41 && f[3] == 0x13 && f[4] == 0xFD && f[5] == 0xDE
                &&& lit <==> (f[9 - i / 8] >> ((i % 8) as u8)) & 1 == 1
            }
        }),
{
    lemma_bits_of_image(mask, i);
    let image = wire::u32_image(mask);
    if moza.protocol == Protocol::Modern {
        if count <= 16 {
            let low = (mask % 0x1_0000) as u16;
            let short = wire::u16_image(low);
            assert(short[0] == image[0] && short[1] == image[1]) by {
                assert((mask % 0x1_0000) % 0x100 == mask % 0x100);
                assert((mask % 0x1_0000) / 0x100 == (mask / 0x100) % 0x100);
            }
        }
    } else {
        assert(image.reverse()[3 - i / 8] == image[(i / 8) as int]);
    }
}

/// The checksum of a light bar frame makes the sum of all bytes on the wire before
/// it, and of 13, the checksum, counted modulo 256.
pub proof fn lemma_bar_frame_checks_out(moza: Moza, mask: u32, count: nat)
    ensures
        ({
            let f = moza.bitmask_frame(mask, count);
            let head = f.drop_last();
            f.last() == (13 + total(stuffed(head))) % 256
        }),
{
    let f = moza.bitmask_frame(mask, count);
    let payload = match moza.protocol {
        Protocol::Modern => modern_payload(mask, count),
        Protocol::Legacy => wire::u32_image(mask).reverse(),
    };
    let (group, command) = match moza.protocol {
        Protocol::Modern => (GROUP_WHEEL_WRITE, seq![0x1Au8, 0x00u8]),
        Protocol::Legacy => (GROUP_BASE_TELEMETRY, seq![0xFDu8, 0xDEu8]),
    };
    let head = frame_head(group, moza.device(), command, payload);
    assert(f == head.push(checksum(head)));
    assert(f.drop_last() =~= head);
    lemma_checksum_covers_the_wire(head);
}

/// R3 and R5 bases speak the legacy protocol, all others the modern one: a path is
/// theirs exactly where, in lower case, it has `_r3_` or `_r5_` in it.
pub proof fn lemma_protocol_by_name(lowered: Seq<char>)
    ensures
        protocol_for(lowered) == Protocol::Legacy <==> (exists|a: Seq<char>, b: Seq<char>|
            #[trigger] (a + "_r3_"@ + b) == lowered) || (exists|a: Seq<char>, b: Seq<char>|
            #[trigger] (a + "_r5_"@ + b) == lowered),
{
    text::lemma_contains(lowered, "_r3_"@);
    text::lemma_contains(lowered, "_r5_"@);
}

/// A Moza device has `gudsen` in its name, and a wheelbase `base` as well.
pub proof fn lemma_device_by_name(lowered: Seq<char>)
    ensures
        is_moza_name(lowered) <==> exists|a: Seq<char>, b: Seq<char>|
            #[trigger] (a + "gudsen"@ + b) == lowered,
        is_base_name(lowered) <==> is_moza_name(lowered) && exists|a: Seq<char>, b: Seq<char>|
            #[trigger] (a + "base"@ + b) == lowered,
{
    text::lemma_contains(lowered, "gudsen"@);
    text::lemma_contains(lowered, "base"@);
}

/// Bytes in hexadecimal: two digits for each byte, a space between each two bytes.
pub proof fn lemma_hex_read_back(b: Seq<u8>, i: int)
    requires
        0 <= i < b.len(),
    ensures
        hex_text(b).len() == 3 * b.len() - 1,
        16 * text::hex_value(hex_text(b)[3 * i]) + text::hex_value(hex_text(b)[3 * i + 1]) == b[i],
        i + 1 < b.len() ==> hex_text(b)[3 * i + 2] == ' ',
    decreases b.len(),
{
    text::lemma_hex_read_back(b[i]);
    if b.len() > 1 {
        let t = b.drop_last();
        if i < t.len() {
            lemma_hex_read_back(t, i);
        } else {
            lemma_hex_read_back(t, i - 1);
        }
    }
}

/// Exchanging the halves of a byte twice gives the byte back.
pub proof fn lemma_halves_exchanged_twice(b: u8, once: u8, twice: u8)
    requires
        once == (b % 16) * 16 + b / 16,
        twice == (once % 16) * 16 + once / 16,
    ensures
        twice == b,
{
}

/// An answer is recognised: it comes from the group of the request with the high bit
/// set, repeats the command and then has the setting. A frame from another group, or
/// with another command, is none.
pub proof fn lemma_answers_are_recognised(
    frame: Frame,
    read_group: u8,
    command: Seq<u8>,
    setting: Seq<u8>,
)
    requires
        read_group < 0x80,
    ensures
        frame.group == read_group + 0x80 && frame.payload@ == command + setting ==> answers(
            frame,
            read_group,
            command,
        ) && frame.payload@.skip(command.len() as int) == setting,
        answers(frame, read_group, command) ==> frame.group == read_group + 0x80 && frame.payload@
            == command + frame.payload@.skip(command.len() as int),
{
    assert(read_group | 0x80 == read_group + 0x80) by (bit_vector)
        requires
            read_group < 0x80,
    ;
    let p = frame.payload@;
    let n = command.len() as int;
    if p == command + setting {
        assert(p.take(n) =~= command);
        assert(p.skip(n) =~= setting);
    }
    if answers(frame, read_group, command) {
        assert(p =~= p.take(n) + p.skip(n));
    }
}

/// A frame with another checksum than its own is not accepted, and neither is one of
/// another length than announced.
pub proof fn lemma_wrong_checksum(n: u8, rest: Seq<u8>, other: Seq<u8>)
    requires
        checks_out(n, rest),
    ensures
        rest.len() == n + 3,
        other.len() != rest.len() ==> !checks_out(n, other),
        other.len() == rest.len() && other.drop_last() == rest.drop_last() && other.last()
            != rest.last() ==> !checks_out(n, other),
        rest.last() == (13 + total(stuffed(seq![0x7Eu8, n] + rest.drop_last()))) % 256,
{
    let head = seq![MESSAGE_START, n] + rest.drop_last();
    lemma_checksum_covers_the_wire(head);
}

/// How a frame is searched for: bytes are skipped up to the first `7E`; the byte
/// behind it, from 1 to 64, says how long the payload is, and then the block of
/// group, device, payload and checksum is read. Any other length, a time-out while
/// skipping and a block that does not check out start the search again. A port that
/// fails ends it, and so does a time-out before the length.
pub proof fn lemma_how_a_frame_is_searched_for(
    state: ReaderState,
    event: PortEvent,
    next: ReaderState,
    action: ReaderAction,
)
    requires
        searches(state, event, next, action),
    ensures
        state == ReaderState::Hunting && event == PortEvent::Byte(0x7E) ==> next
            == ReaderState::Length && action is ReadByte,
        state == ReaderState::Hunting && event != PortEvent::Byte(0x7E) ==> next
            == ReaderState::Hunting && (action is Fail <==> event is Failed) && (action is ReadByte
            <==> !(event is Failed)),
        state == ReaderState::Length && event is Byte && 1 <= event->Byte_0 <= 64 ==> next
            == ReaderState::Body(event->Byte_0) && action == ReaderAction::ReadBlock(
            (event->Byte_0 + 3) as usize,
        ),
        state == ReaderState::Length && event is Byte && !(1 <= event->Byte_0 <= 64) ==> next
            == ReaderState::Hunting && action is ReadByte,
        state == ReaderState::Length && !(event is Byte) ==> next == ReaderState::Hunting && (
        action is Fail <==> event is Failed || event is TimedOut),
        state is Body ==> next == ReaderState::Hunting && (action is Done || action is ReadByte),
        action is Done ==> state is Body && event is Block,
{
}

/// Doubling goes part by part.
proof fn lemma_doubled_adds(a: Seq<u8>, b: Seq<u8>)
    ensures
        doubled(a + b) == doubled(a) + doubled(b),
    decreases b.len(),
{
    if b.len() == 0 {
        assert(a + b =~= a);
        assert(doubled(a) + doubled(b) =~= doubled(a));
    } else {
        assert((a + b).drop_last() =~= a + b.drop_last());
        lemma_doubled_adds(a, b.drop_last());
        let x = doubled(a);
        let y = doubled(b.drop_last());
        if b.last() == MESSAGE_START {
            assert((x + y).push(MESSAGE_START).push(MESSAGE_START) =~= x + y.push(
                MESSAGE_START,
            ).push(MESSAGE_START));
        } else {
            assert((x + y).push(b.last()) =~= x + y.push(b.last()));
        }
    }
}

/// On the wire the first two bytes of a frame stay as they are. Behind them every
/// `7E` stands twice, and every other byte once, in the order of the frame.
pub proof fn lemma_start_bytes_stand_twice(front: Seq<u8>, before: Seq<u8>, b: u8, after: Seq<u8>)
    requires
        front.len() == 2,
    ensures
        stuffed(front + before + seq![b] + after) == front + doubled(before) + (if b == 0x7E {
            seq![0x7Eu8, 0x7Eu8]
        } else {
            seq![b]
        }) + doubled(after),
        doubled(Seq::<u8>::empty()) == Seq::<u8>::empty(),
{
    let frame = front + before + seq![b] + after;
    assert(frame.take(2) =~= front);
    assert(frame.skip(2) =~= before + seq![b] + after);
    lemma_doubled_adds(before + seq![b], after);
    lemma_doubled_adds(before, seq![b]);
    assert(seq![b].drop_last() =~= Seq::<u8>::empty());
    reveal_with_fuel(doubled, 2);
    assert(doubled(seq![b]) =~= if b == 0x7E {
        seq![0x7Eu8, 0x7Eu8]
    } else {
        seq![b]
    });
    let d = doubled(seq![b]);
    assert(front + (doubled(before) + d + doubled(after)) =~= front + doubled(before) + d
        + doubled(after));
}

/// The sum of some bytes goes part by part.
pub proof fn lemma_sum_part_by_part(a: Seq<u8>, b: u8)
    ensures
        total(a + seq![b]) == total(a) + b,
        total(Seq::<u8>::empty()) == 0,
{
    assert((a + seq![b]).drop_last() =~= a);
}

/// Whichever device is looked at, the choice is as good: where it is a wheelbase, so
/// is the choice, which stands no later; where it is another Moza device, the choice
/// is a wheelbase or stands no later.
pub proof fn lemma_choice_is_the_best(lowered: Seq<Seq<char>>, choice: Option<int>, j: int)
    requires
        is_wheelbase_choice(lowered, choice),
        0 <= j < lowered.len(),
    ensures
        choice is Some ==> 0 <= choice->0 < lowered.len() && is_moza_name(lowered[choice->0]),
        is_base_name(lowered[j]) ==> choice is Some && is_base_name(lowered[choice->0])
            && choice->0 <= j,
        is_moza_name(lowered[j]) ==> choice is Some && (is_base_name(lowered[choice->0])
            || choice->0 <= j),
{
}

} // verus!
