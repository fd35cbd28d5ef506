//! Wreckfest 2 "Pino" telemetry packets.
//!
//! A packet is a little-endian record without padding. It starts with a header
//! whose signature and packet type say which of the seven records follows.

use vstd::prelude::*;

use crate::binary32::Binary32;
use crate::layout;
use crate::wire;
use crate::wire::{Dense, Record};

pub mod damage_part;

verus! {

/// The UDP port that the game's telemetry settings have out of the box.
pub const DEFAULT_PORT: u16 = 23123;

/// The number at offset 0 of every packet. Its bytes are `70 6B 72 6F`.
pub const SIGNATURE: u32 = 1869769584;

pub const PARTICIPANTS_MAX: usize = 36;

pub const TRACK_ID_LEN: usize = 64;

pub const TRACK_NAME_LEN: usize = 96;

pub const CAR_ID_LEN: usize = 64;

pub const CAR_NAME_LEN: usize = 96;

pub const PLAYER_NAME_LEN: usize = 24;

pub const DAMAGE_PARTS_MAX: usize = 56;

pub const DAMAGE_BITS_PER_PART: usize = 3;

pub const DAMAGE_BYTES_PER_PARTICIPANT: usize = 21;

pub const TIRE_LOC_FL: usize = 0;

pub const TIRE_LOC_FR: usize = 1;

pub const TIRE_LOC_RL: usize = 2;

pub const TIRE_LOC_RR: usize = 3;

/// Which record a packet holds.
#[derive(Debug, Clone, Copy, PartialEq, Eq, Structural)]
pub enum PacketType {
    Main,
    ParticipantsLeaderboard,
    ParticipantsTiming,
    ParticipantsTimingSectors,
    ParticipantsMotion,
    ParticipantsInfo,
    ParticipantsDamage,
}

impl PacketType {
    /// The number that stands for the value on the wire.
    pub open spec fn code(self) -> u8 {
        match self {
            PacketType::Main => 0,
            PacketType::ParticipantsLeaderboard => 1,
            PacketType::ParticipantsTiming => 2,
            PacketType::ParticipantsTimingSectors => 3,
            PacketType::ParticipantsMotion => 4,
            PacketType::ParticipantsInfo => 5,
            PacketType::ParticipantsDamage => 6,
        }
    }

    pub fn to_u8(self) -> (r: u8)
        ensures
            r == self.code(),
    {
        match self {
            PacketType::Main => 0,
            PacketType::ParticipantsLeaderboard => 1,
            PacketType::ParticipantsTiming => 2,
            PacketType::ParticipantsTimingSectors => 3,
            PacketType::ParticipantsMotion => 4,
            PacketType::ParticipantsInfo => 5,
            PacketType::ParticipantsDamage => 6,
        }
    }

    /// The value that `b` stands for, if there is one.
    pub fn from_u8(b: u8) -> (r: Option<Self>)
        ensures
            r matches Some(v) ==> v.code() == b,
            r is None ==> forall|v: PacketType| #[trigger] v.code() != b,
    {
        match b {
            0 => Some(PacketType::Main),
            1 => Some(PacketType::ParticipantsLeaderboard),
            2 => Some(PacketType::ParticipantsTiming),
            3 => Some(PacketType::ParticipantsTimingSectors),
            4 => Some(PacketType::ParticipantsMotion),
            5 => Some(PacketType::ParticipantsInfo),
            6 => Some(PacketType::ParticipantsDamage),
            _ => None,
        }
    }
}

/// The kind of event.
#[derive(Debug, Clone, Copy, PartialEq, Eq, Structural)]
pub enum GameMode {
    Banger,
    Deathmatch,
    LastManStanding,
    Other,
}

impl GameMode {
    /// The number that stands for the value on the wire.
    pub open spec fn code(self) -> u8 {
        match self {
            GameMode::Banger => 0,
            GameMode::Deathmatch => 1,
            GameMode::LastManStanding => 2,
            GameMode::Other => 255,
        }
    }

    pub fn to_u8(self) -> (r: u8)
        ensures
            r == self.code(),
    {
        match self {
            GameMode::Banger => 0,
            GameMode::Deathmatch => 1,
            GameMode::LastManStanding => 2,
            GameMode::Other => 255,
        }
    }

    /// The value that `b` stands for, if there is one.
    pub fn from_u8(b: u8) -> (r: Option<Self>)
        ensures
            r matches Some(v) ==> v.code() == b,
            r is None ==> forall|v: GameMode| #[trigger] v.code() != b,
    {
        match b {
            0 => Some(GameMode::Banger),
            1 => Some(GameMode::Deathmatch),
            2 => Some(GameMode::LastManStanding),
            255 => Some(GameMode::Other),
            _ => None,
        }
    }
}

/// How much damage cars take.
#[derive(Debug, Clone, Copy, PartialEq, Eq, Structural)]
pub enum DamageMode {
    Wrecker,
    Normal,
    Realistic,
    Other,
}

impl DamageMode {
    /// The number that stands for the value on the wire.
    pub open spec fn code(self) -> u8 {
        match self {
            DamageMode::Wrecker => 0,
            DamageMode::Normal => 1,
            DamageMode::Realistic => 2,
            DamageMode::Other => 255,
        }
    }

    pub fn to_u8(self) -> (r: u8)
        ensures
            r == self.code(),
    {
        match self {
            DamageMode::Wrecker => 0,
            DamageMode::Normal => 1,
            DamageMode::Realistic => 2,
            DamageMode::Other => 255,
        }
    }

    /// The value that `b` stands for, if there is one.
    pub fn from_u8(b: u8) -> (r: Option<Self>)
        ensures
            r matches Some(v) ==> v.code() == b,
            r is None ==> forall|v: DamageMode| #[trigger] v.code() != b,
    {
        match b {
            0 => Some(DamageMode::Wrecker),
            1 => Some(DamageMode::Normal),
            2 => Some(DamageMode::Realistic),
            255 => Some(DamageMode::Other),
            _ => None,
        }
    }
}

/// Where the event stands.
#[derive(Debug, Clone, Copy, PartialEq, Eq, Structural)]
pub enum SessionStatus {
    NoSession,
    PreRace,
    Countdown,
    Racing,
    Abandoned,
    PostRace,
}

impl SessionStatus {
    /// The number that stands for the value on the wire.
    pub open spec fn code(self) -> u8 {
        match self {
            SessionStatus::NoSession => 0,
            SessionStatus::PreRace => 1,
            SessionStatus::Countdown => 2,
            SessionStatus::Racing => 3,
            SessionStatus::Abandoned => 4,
            SessionStatus::PostRace => 5,
        }
    }

    pub fn to_u8(self) -> (r: u8)
        ensures
            r == self.code(),
    {
        match self {
            SessionStatus::NoSession => 0,
            SessionStatus::PreRace => 1,
            SessionStatus::Countdown => 2,
            SessionStatus::Racing => 3,
            SessionStatus::Abandoned => 4,
            SessionStatus::PostRace => 5,
        }
    }

    /// The value that `b` stands for, if there is one.
    pub fn from_u8(b: u8) -> (r: Option<Self>)
        ensures
            r matches Some(v) ==> v.code() == b,
            r is None ==> forall|v: SessionStatus| #[trigger] v.code() != b,
    {
        match b {
            0 => Some(SessionStatus::NoSession),
            1 => Some(SessionStatus::PreRace),
            2 => Some(SessionStatus::Countdown),
            3 => Some(SessionStatus::Racing),
            4 => Some(SessionStatus::Abandoned),
            5 => Some(SessionStatus::PostRace),
            _ => None,
        }
    }
}

/// What a tire is on.
#[derive(Debug, Clone, Copy, PartialEq, Eq, Structural)]
pub enum SurfaceType {
    Default,
    NoContact,
    Tarmac,
    Concrete,
    Gravel,
    Dirt,
    Mud,
    RumbleLowFreq,
    RumbleHighFreq,
    Water,
    Metal,
    Wood,
    Sand,
    Rocks,
    Foliage,
    Slowdown,
    Snow,
}

impl SurfaceType {
    /// The number that stands for the value on the wire.
    pub open spec fn code(self) -> u8 {
        match self {
            SurfaceType::Default => 0,
            SurfaceType::NoContact => 1,
            SurfaceType::Tarmac => 2,
            SurfaceType::Concrete => 3,
            SurfaceType::Gravel => 4,
            SurfaceType::Dirt => 5,
            SurfaceType::Mud => 6,
            SurfaceType::RumbleLowFreq => 7,
            SurfaceType::RumbleHighFreq => 8,
            SurfaceType::Water => 9,
            SurfaceType::Metal => 10,
            SurfaceType::Wood => 11,
            SurfaceType::Sand => 12,
            SurfaceType::Rocks => 13,
            SurfaceType::Foliage => 14,
            SurfaceType::Slowdown => 15,
            SurfaceType::Snow => 16,
        }
    }

    pub fn to_u8(self) -> (r: u8)
        ensures
            r == self.code(),
    {
        match self {
            SurfaceType::Default => 0,
            SurfaceType::NoContact => 1,
            SurfaceType::Tarmac => 2,
            SurfaceType::Concrete => 3,
            SurfaceType::Gravel => 4,
            SurfaceType::Dirt => 5,
            SurfaceType::Mud => 6,
            SurfaceType::RumbleLowFreq => 7,
            SurfaceType::RumbleHighFreq => 8,
            SurfaceType::Water => 9,
            SurfaceType::Metal => 10,
            SurfaceType::Wood => 11,
            SurfaceType::Sand => 12,
            SurfaceType::Rocks => 13,
            SurfaceType::Foliage => 14,
            SurfaceType::Slowdown => 15,
            SurfaceType::Snow => 16,
        }
    }

    /// The value that `b` stands for, if there is one.
    pub fn from_u8(b: u8) -> (r: Option<Self>)
        ensures
            r matches Some(v) ==> v.code() == b,
            r is None ==> forall|v: SurfaceType| #[trigger] v.code() != b,
    {
        match b {
            0 => Some(SurfaceType::Default),
            1 => Some(SurfaceType::NoContact),
            2 => Some(SurfaceType::Tarmac),
            3 => Some(SurfaceType::Concrete),
            4 => Some(SurfaceType::Gravel),
            5 => Some(SurfaceType::Dirt),
            6 => Some(SurfaceType::Mud),
            7 => Some(SurfaceType::RumbleLowFreq),
            8 => Some(SurfaceType::RumbleHighFreq),
            9 => Some(SurfaceType::Water),
            10 => Some(SurfaceType::Metal),
            11 => Some(SurfaceType::Wood),
            12 => Some(SurfaceType::Sand),
            13 => Some(SurfaceType::Rocks),
            14 => Some(SurfaceType::Foliage),
            15 => Some(SurfaceType::Slowdown),
            16 => Some(SurfaceType::Snow),
            _ => None,
        }
    }
}

/// How gears are changed.
#[derive(Debug, Clone, Copy, PartialEq, Eq, Structural)]
pub enum AssistGearbox {
    Auto,
    Manual,
    ManualWithClutch,
}

impl AssistGearbox {
    /// The number that stands for the value on the wire.
    pub open spec fn code(self) -> u8 {
        match self {
            AssistGearbox::Auto => 0,
            AssistGearbox::Manual => 1,
            AssistGearbox::ManualWithClutch => 2,
        }
    }

    pub fn to_u8(self) -> (r: u8)
        ensures
            r == self.code(),
    {
        match self {
            AssistGearbox::Auto => 0,
            AssistGearbox::Manual => 1,
            AssistGearbox::ManualWithClutch => 2,
        }
    }

    /// The value that `b` stands for, if there is one.
    pub fn from_u8(b: u8) -> (r: Option<Self>)
        ensures
            r matches Some(v) ==> v.code() == b,
            r is None ==> forall|v: AssistGearbox| #[trigger] v.code() != b,
    {
        match b {
            0 => Some(AssistGearbox::Auto),
            1 => Some(AssistGearbox::Manual),
            2 => Some(AssistGearbox::ManualWithClutch),
            _ => None,
        }
    }
}

/// How strongly a driving aid acts.
#[derive(Debug, Clone, Copy, PartialEq, Eq, Structural)]
pub enum AssistLevel {
    Off,
    Half,
    Full,
}

impl AssistLevel {
    /// The number that stands for the value on the wire.
    pub open spec fn code(self) -> u8 {
        match self {
            AssistLevel::Off => 0,
            AssistLevel::Half => 1,
            AssistLevel::Full => 2,
        }
    }

    pub fn to_u8(self) -> (r: u8)
        ensures
            r == self.code(),
    {
        match self {
            AssistLevel::Off => 0,
            AssistLevel::Half => 1,
            AssistLevel::Full => 2,
        }
    }

    /// The value that `b` stands for, if there is one.
    pub fn from_u8(b: u8) -> (r: Option<Self>)
        ensures
            r matches Some(v) ==> v.code() == b,
            r is None ==> forall|v: AssistLevel| #[trigger] v.code() != b,
    {
        match b {
            0 => Some(AssistLevel::Off),
            1 => Some(AssistLevel::Half),
            2 => Some(AssistLevel::Full),
            _ => None,
        }
    }
}

/// Which wheels are driven.
#[derive(Debug, Clone, Copy, PartialEq, Eq, Structural)]
pub enum DrivelineType {
    Fwd,
    Rwd,
    Awd,
}

impl DrivelineType {
    /// The number that stands for the value on the wire.
    pub open spec fn code(self) -> u8 {
        match self {
            DrivelineType::Fwd => 0,
            DrivelineType::Rwd => 1,
            DrivelineType::Awd => 2,
        }
    }

    pub fn to_u8(self) -> (r: u8)
        ensures
            r == self.code(),
    {
        match self {
            DrivelineType::Fwd => 0,
            DrivelineType::Rwd => 1,
            DrivelineType::Awd => 2,
        }
    }

    /// The value that `b` stands for, if there is one.
    pub fn from_u8(b: u8) -> (r: Option<Self>)
        ensures
            r matches Some(v) ==> v.code() == b,
            r is None ==> forall|v: DrivelineType| #[trigger] v.code() != b,
    {
        match b {
            0 => Some(DrivelineType::Fwd),
            1 => Some(DrivelineType::Rwd),
            2 => Some(DrivelineType::Awd),
            _ => None,
        }
    }
}

/// How much of the other participants the packet shows.
#[derive(Debug, Clone, Copy, PartialEq, Eq, Structural)]
pub enum Visibility {
    Full,
    Limited,
}

impl Visibility {
    /// The number that stands for the value on the wire.
    pub open spec fn code(self) -> u8 {
        match self {
            Visibility::Full => 0,
            Visibility::Limited => 1,
        }
    }

    pub fn to_u8(self) -> (r: u8)
        ensures
            r == self.code(),
    {
        match self {
            Visibility::Full => 0,
            Visibility::Limited => 1,
        }
    }

    /// The value that `b` stands for, if there is one.
    pub fn from_u8(b: u8) -> (r: Option<Self>)
        ensures
            r matches Some(v) ==> v.code() == b,
            r is None ==> forall|v: Visibility| #[trigger] v.code() != b,
    {
        match b {
            0 => Some(Visibility::Full),
            1 => Some(Visibility::Limited),
            _ => None,
        }
    }
}

/// How a participant is doing.
#[derive(Debug, Clone, Copy, PartialEq, Eq, Structural)]
pub enum ParticipantStatus {
    Invalid,
    Unused,
    Racing,
    FinishSuccess,
    FinishEliminated,
    DnfDq,
    DnfRetired,
    DnfTimeout,
    DnfWrecked,
    Pose,
}

impl ParticipantStatus {
    /// The number that stands for the value on the wire.
    pub open spec fn code(self) -> u8 {
        match self {
            ParticipantStatus::Invalid => 0,
            ParticipantStatus::Unused => 1,
            ParticipantStatus::Racing => 2,
            ParticipantStatus::FinishSuccess => 3,
            ParticipantStatus::FinishEliminated => 4,
            ParticipantStatus::DnfDq => 5,
            ParticipantStatus::DnfRetired => 6,
            ParticipantStatus::DnfTimeout => 7,
            ParticipantStatus::DnfWrecked => 8,
            ParticipantStatus::Pose => 9,
        }
    }

    pub fn to_u8(self) -> (r: u8)
        ensures
            r == self.code(),
    {
        match self {
            ParticipantStatus::Invalid => 0,
            ParticipantStatus::Unused => 1,
            ParticipantStatus::Racing => 2,
            ParticipantStatus::FinishSuccess => 3,
            ParticipantStatus::FinishEliminated => 4,
            ParticipantStatus::DnfDq => 5,
            ParticipantStatus::DnfRetired => 6,
            ParticipantStatus::DnfTimeout => 7,
            ParticipantStatus::DnfWrecked => 8,
            ParticipantStatus::Pose => 9,
        }
    }

    /// The value that `b` stands for, if there is one.
    pub fn from_u8(b: u8) -> (r: Option<Self>)
        ensures
            r matches Some(v) ==> v.code() == b,
            r is None ==> forall|v: ParticipantStatus| #[trigger] v.code() != b,
    {
        match b {
            0 => Some(ParticipantStatus::Invalid),
            1 => Some(ParticipantStatus::Unused),
            2 => Some(ParticipantStatus::Racing),
            3 => Some(ParticipantStatus::FinishSuccess),
            4 => Some(ParticipantStatus::FinishEliminated),
            5 => Some(ParticipantStatus::DnfDq),
            6 => Some(ParticipantStatus::DnfRetired),
            7 => Some(ParticipantStatus::DnfTimeout),
            8 => Some(ParticipantStatus::DnfWrecked),
            9 => Some(ParticipantStatus::Pose),
            _ => None,
        }
    }
}

/// Whether a participant is on course.
#[derive(Debug, Clone, Copy, PartialEq, Eq, Structural)]
pub enum TrackStatus {
    Normal,
    OutOfSectors,
    InWrongSectors,
    WrongDirection,
}

impl TrackStatus {
    /// The number that stands for the value on the wire.
    pub open spec fn code(self) -> u8 {
        match self {
            TrackStatus::Normal => 0,
            TrackStatus::OutOfSectors => 1,
            TrackStatus::InWrongSectors => 2,
            TrackStatus::WrongDirection => 3,
        }
    }

    pub fn to_u8(self) -> (r: u8)
        ensures
            r == self.code(),
    {
        match self {
            TrackStatus::Normal => 0,
            TrackStatus::OutOfSectors => 1,
            TrackStatus::InWrongSectors => 2,
            TrackStatus::WrongDirection => 3,
        }
    }

    /// The value that `b` stands for, if there is one.
    pub fn from_u8(b: u8) -> (r: Option<Self>)
        ensures
            r matches Some(v) ==> v.code() == b,
            r is None ==> forall|v: TrackStatus| #[trigger] v.code() != b,
    {
        match b {
            0 => Some(TrackStatus::Normal),
            1 => Some(TrackStatus::OutOfSectors),
            2 => Some(TrackStatus::InWrongSectors),
            3 => Some(TrackStatus::WrongDirection),
            _ => None,
        }
    }
}

/// How damaged one part is.
#[derive(Debug, Clone, Copy, PartialEq, Eq, Structural)]
pub enum DamageState {
    Intact,
    Damaged1,
    Damaged2,
    Damaged3,
    Terminal,
}

impl DamageState {
    /// The number that stands for the value on the wire.
    pub open spec fn code(self) -> u8 {
        match self {
            DamageState::Intact => 0,
            DamageState::Damaged1 => 1,
            DamageState::Damaged2 => 2,
            DamageState::Damaged3 => 3,
            DamageState::Terminal => 4,
        }
    }

    pub fn to_u8(self) -> (r: u8)
        ensures
            r == self.code(),
    {
        match self {
            DamageState::Intact => 0,
            DamageState::Damaged1 => 1,
            DamageState::Damaged2 => 2,
            DamageState::Damaged3 => 3,
            DamageState::Terminal => 4,
        }
    }

    /// The value that `b` stands for, if there is one.
    pub fn from_u8(b: u8) -> (r: Option<Self>)
        ensures
            r matches Some(v) ==> v.code() == b,
            r is None ==> forall|v: DamageState| #[trigger] v.code() != b,
    {
        match b {
            0 => Some(DamageState::Intact),
            1 => Some(DamageState::Damaged1),
            2 => Some(DamageState::Damaged2),
            3 => Some(DamageState::Damaged3),
            4 => Some(DamageState::Terminal),
            _ => None,
        }
    }
}

/// What the game is doing.
#[derive(Debug, Clone, Copy, PartialEq, Eq, Structural)]
pub struct GameStatusFlags(pub u8);

impl GameStatusFlags {
    pub const PAUSED: u8 = 0x1;

    pub const REPLAY: u8 = 0x2;

    pub const SPECTATE: u8 = 0x4;

    pub const MULTIPLAYER_CLIENT: u8 = 0x8;

    pub const MULTIPLAYER_SERVER: u8 = 0x10;

    pub const IN_RACE: u8 = 0x20;

    pub fn bits(self) -> (r: u8)
        ensures
            r == self.0,
    {
        self.0
    }

    /// Whether every flag of `other` is set.
    pub fn contains(self, other: Self) -> (r: bool)
        ensures
            r <==> self.0 & other.0 == other.0,
    {
        (self.0 & other.0) == other.0
    }
}

/// Flags shown to the player.
#[derive(Debug, Clone, Copy, PartialEq, Eq, Structural)]
pub struct MarshalFlags(pub u16);

impl MarshalFlags {
    pub const GREEN: u16 = 0x1;

    pub const LAST_LAP: u16 = 0x2;

    pub const FINISH: u16 = 0x4;

    pub const DQ: u16 = 0x8;

    pub const MEATBALL: u16 = 0x10;

    pub const WARNING: u16 = 0x20;

    pub const BLUE: u16 = 0x40;

    pub const WHITE: u16 = 0x80;

    pub const COUNTDOWN1: u16 = 0x4000;

    pub const COUNTDOWN2: u16 = 0x8000;

    pub fn bits(self) -> (r: u16)
        ensures
            r == self.0,
    {
        self.0
    }

    /// Whether every flag of `other` is set.
    pub fn contains(self, other: Self) -> (r: bool)
        ensures
            r <==> self.0 & other.0 == other.0,
    {
        (self.0 & other.0) == other.0
    }
}

/// What the player's car is doing.
#[derive(Debug, Clone, Copy, PartialEq, Eq, Structural)]
pub struct PlayerStatusFlags(pub u16);

impl PlayerStatusFlags {
    pub const IN_RACE: u16 = 0x1;

    pub const CAR_DRIVABLE: u16 = 0x2;

    pub const PHYSICS_RUNNING: u16 = 0x4;

    pub const CONTROL_PLAYER: u16 = 0x8;

    pub const CONTROL_AI: u16 = 0x10;

    pub fn bits(self) -> (r: u16)
        ensures
            r == self.0,
    {
        self.0
    }

    /// Whether every flag of `other` is set.
    pub fn contains(self, other: Self) -> (r: bool)
        ensures
            r <==> self.0 & other.0 == other.0,
    {
        (self.0 & other.0) == other.0
    }
}

/// Driving aids that act right now.
#[derive(Debug, Clone, Copy, PartialEq, Eq, Structural)]
pub struct AssistFlags(pub u8);

impl AssistFlags {
    pub const ABS_ACTIVE: u8 = 0x1;

    pub const TCS_ACTIVE: u8 = 0x2;

    pub const ESC_ACTIVE: u8 = 0x4;

    pub fn bits(self) -> (r: u8)
        ensures
            r == self.0,
    {
        self.0
    }

    /// Whether every flag of `other` is set.
    pub fn contains(self, other: Self) -> (r: bool)
        ensures
            r <==> self.0 & other.0 == other.0,
    {
        (self.0 & other.0) == other.0
    }
}

/// What the engine is doing.
#[derive(Debug, Clone, Copy, PartialEq, Eq, Structural)]
pub struct EngineFlags(pub u8);

impl EngineFlags {
    pub const RUNNING: u8 = 0x1;

    pub const STARTING: u8 = 0x2;

    pub const MISFIRING: u8 = 0x4;

    pub const DANGER_TO_MANIFOLD: u8 = 0x80;

    pub fn bits(self) -> (r: u8)
        ensures
            r == self.0,
    {
        self.0
    }

    /// Whether every flag of `other` is set.
    pub fn contains(self, other: Self) -> (r: bool)
        ensures
            r <==> self.0 & other.0 == other.0,
    {
        (self.0 & other.0) == other.0
    }
}

/// What the input device is doing.
#[derive(Debug, Clone, Copy, PartialEq, Eq, Structural)]
pub struct InputFlags(pub u8);

impl InputFlags {
    pub const FFB_ENABLED: u8 = 0x1;

    pub fn bits(self) -> (r: u8)
        ensures
            r == self.0,
    {
        self.0
    }

    /// Whether every flag of `other` is set.
    pub fn contains(self, other: Self) -> (r: bool)
        ensures
            r <==> self.0 & other.0 == other.0,
    {
        (self.0 & other.0) == other.0
    }
}

/// What every packet starts with.
#[derive(Debug, Clone, Copy)]
pub struct Header {
    pub signature: u32,
    pub packet_type: u8,
    pub status_flags: u8,
    pub session_time: i32,
    pub race_time: i32,
}

impl Header {
    /// Size on the wire.
    pub const BYTES: usize = 14;
}

impl Record for Header {
    open spec fn size() -> nat {
        14
    }

    open spec fn decodes(self, b: Seq<u8>, at: int) -> bool {
        &&& self.signature == wire::u32_at(b, at)
        &&& self.packet_type == b[at + 4]
        &&& self.status_flags == b[at + 5]
        &&& self.session_time == wire::i32_at(b, at + 6)
        &&& self.race_time == wire::i32_at(b, at + 10)
    }

    fn read(buf: &[u8], at: usize) -> (r: Self) {
        Header {
            signature: wire::read_u32(buf, at),
            packet_type: wire::read_u8(buf, at + 4),
            status_flags: wire::read_u8(buf, at + 5),
            session_time: wire::read_i32(buf, at + 6),
            race_time: wire::read_i32(buf, at + 10),
        }
    }
}

impl Dense for Header {
    proof fn lemma_faithful(self, a: Seq<u8>, i: int, b: Seq<u8>, j: int) {
        wire::lemma_u32_agree(a, i, b, j);
        wire::lemma_u8_agree(a, i + 4, b, j + 4);
        wire::lemma_agree_join(a, i, b, j, 4, 1);
        wire::lemma_u8_agree(a, i + 5, b, j + 5);
        wire::lemma_agree_join(a, i, b, j, 5, 1);
        wire::lemma_u32_agree(a, i + 6, b, j + 6);
        wire::lemma_agree_join(a, i, b, j, 6, 4);
        wire::lemma_u32_agree(a, i + 10, b, j + 10);
        wire::lemma_agree_join(a, i, b, j, 10, 4);
    }
}

/// The track and the state of the event.
#[derive(Debug, Clone, Copy)]
pub struct Session {
    pub track_id: [u8; TRACK_ID_LEN],
    pub track_name: [u8; TRACK_NAME_LEN],
    pub track_length: Binary32,
    pub laps: i16,
    pub event_length: i16,
    pub grid_size: u8,
    pub grid_size_remaining: u8,
    pub sector_count: u8,
    pub sector_fract1: Binary32,
    pub sector_fract2: Binary32,
    pub game_mode: u8,
    pub damage_mode: u8,
    pub status: u8,
    pub _reserved: [u8; 26],
}

impl Session {
    /// Size on the wire.
    pub const BYTES: usize = 208;
}

impl Record for Session {
    open spec fn size() -> nat {
        208
    }

    open spec fn decodes(self, b: Seq<u8>, at: int) -> bool {
        &&& self.track_id@ == b.subrange(at, at + 64)
        &&& self.track_name@ == b.subrange(at + 64, at + 160)
        &&& self.track_length == wire::f32_at(b, at + 160)
        &&& self.laps == wire::i16_at(b, at + 164)
        &&& self.event_length == wire::i16_at(b, at + 166)
        &&& self.grid_size == b[at + 168]
        &&& self.grid_size_remaining == b[at + 169]
        &&& self.sector_count == b[at + 170]
        &&& self.sector_fract1 == wire::f32_at(b, at + 171)
        &&& self.sector_fract2 == wire::f32_at(b, at + 175)
        &&& self.game_mode == b[at + 179]
        &&& self.damage_mode == b[at + 180]
        &&& self.status == b[at + 181]
        &&& self._reserved@ == b.subrange(at + 182, at + 208)
    }

    fn read(buf: &[u8], at: usize) -> (r: Self) {
        Session {
            track_id: wire::read_bytes::<TRACK_ID_LEN>(buf, at),
            track_name: wire::read_bytes::<TRACK_NAME_LEN>(buf, at + 64),
            track_length: wire::read_f32(buf, at + 160),
            laps: wire::read_i16(buf, at + 164),
            event_length: wire::read_i16(buf, at + 166),
            grid_size: wire::read_u8(buf, at + 168),
            grid_size_remaining: wire::read_u8(buf, at + 169),
            sector_count: wire::read_u8(buf, at + 170),
            sector_fract1: wire::read_f32(buf, at + 171),
            sector_fract2: wire::read_f32(buf, at + 175),
            game_mode: wire::read_u8(buf, at + 179),
            damage_mode: wire::read_u8(buf, at + 180),
            status: wire::read_u8(buf, at + 181),
            _reserved: wire::read_bytes::<26>(buf, at + 182),
        }
    }
}

impl Dense for Session {
    proof fn lemma_faithful(self, a: Seq<u8>, i: int, b: Seq<u8>, j: int) {
        assert(wire::agree(a, i, b, j, 64));
        assert(wire::agree(a, i + 64, b, j + 64, 96));
        wire::lemma_agree_join(a, i, b, j, 64, 96);
        wire::lemma_u32_agree(a, i + 160, b, j + 160);
        wire::lemma_agree_join(a, i, b, j, 160, 4);
        wire::lemma_u16_agree(a, i + 164, b, j + 164);
        wire::lemma_agree_join(a, i, b, j, 164, 2);
        wire::lemma_u16_agree(a, i + 166, b, j + 166);
        wire::lemma_agree_join(a, i, b, j, 166, 2);
        wire::lemma_u8_agree(a, i + 168, b, j + 168);
        wire::lemma_agree_join(a, i, b, j, 168, 1);
        wire::lemma_u8_agree(a, i + 169, b, j + 169);
        wire::lemma_agree_join(a, i, b, j, 169, 1);
        wire::lemma_u8_agree(a, i + 170, b, j + 170);
        wire::lemma_agree_join(a, i, b, j, 170, 1);
        wire::lemma_u32_agree(a, i + 171, b, j + 171);
        wire::lemma_agree_join(a, i, b, j, 171, 4);
        wire::lemma_u32_agree(a, i + 175, b, j + 175);
        wire::lemma_agree_join(a, i, b, j, 175, 4);
        wire::lemma_u8_agree(a, i + 179, b, j + 179);
        wire::lemma_agree_join(a, i, b, j, 179, 1);
        wire::lemma_u8_agree(a, i + 180, b, j + 180);
        wire::lemma_agree_join(a, i, b, j, 180, 1);
        wire::lemma_u8_agree(a, i + 181, b, j + 181);
        wire::lemma_agree_join(a, i, b, j, 181, 1);
        assert(wire::agree(a, i + 182, b, j + 182, 26));
        wire::lemma_agree_join(a, i, b, j, 182, 26);
    }
}

/// Where something is and how it is turned.
#[derive(Debug, Clone, Copy)]
pub struct Orientation {
    pub position_x: Binary32,
    pub position_y: Binary32,
    pub position_z: Binary32,
    pub orientation_quat_x: Binary32,
    pub orientation_quat_y: Binary32,
    pub orientation_quat_z: Binary32,
    pub orientation_quat_w: Binary32,
    pub extents_x: u16,
    pub extents_y: u16,
    pub extents_z: u16,
}

impl Orientation {
    /// Size on the wire.
    pub const BYTES: usize = 34;
}

impl Record for Orientation {
    open spec fn size() -> nat {
        34
    }

    open spec fn decodes(self, b: Seq<u8>, at: int) -> bool {
        &&& self.position_x == wire::f32_at(b, at)
        &&& self.position_y == wire::f32_at(b, at + 4)
        &&& self.position_z == wire::f32_at(b, at + 8)
        &&& self.orientation_quat_x == wire::f32_at(b, at + 12)
        &&& self.orientation_quat_y == wire::f32_at(b, at + 16)
        &&& self.orientation_quat_z == wire::f32_at(b, at + 20)
        &&& self.orientation_quat_w == wire::f32_at(b, at + 24)
        &&& self.extents_x == wire::u16_at(b, at + 28)
        &&& self.extents_y == wire::u16_at(b, at + 30)
        &&& self.extents_z == wire::u16_at(b, at + 32)
    }

    fn read(buf: &[u8], at: usize) -> (r: Self) {
        Orientation {
            position_x: wire::read_f32(buf, at),
            position_y: wire::read_f32(buf, at + 4),
            position_z: wire::read_f32(buf, at + 8),
            orientation_quat_x: wire::read_f32(buf, at + 12),
            orientation_quat_y: wire::read_f32(buf, at + 16),
            orientation_quat_z: wire::read_f32(buf, at + 20),
            orientation_quat_w: wire::read_f32(buf, at + 24),
            extents_x: wire::read_u16(buf, at + 28),
            extents_y: wire::read_u16(buf, at + 30),
            extents_z: wire::read_u16(buf, at + 32),
        }
    }
}

impl Dense for Orientation {
    proof fn lemma_faithful(self, a: Seq<u8>, i: int, b: Seq<u8>, j: int) {
        wire::lemma_u32_agree(a, i, b, j);
        wire::lemma_u32_agree(a, i + 4, b, j + 4);
        wire::lemma_agree_join(a, i, b, j, 4, 4);
        wire::lemma_u32_agree(a, i + 8, b, j + 8);
        wire::lemma_agree_join(a, i, b, j, 8, 4);
        wire::lemma_u32_agree(a, i + 12, b, j + 12);
        wire::lemma_agree_join(a, i, b, j, 12, 4);
        wire::lemma_u32_agree(a, i + 16, b, j + 16);
        wire::lemma_agree_join(a, i, b, j, 16, 4);
        wire::lemma_u32_agree(a, i + 20, b, j + 20);
        wire::lemma_agree_join(a, i, b, j, 20, 4);
        wire::lemma_u32_agree(a, i + 24, b, j + 24);
        wire::lemma_agree_join(a, i, b, j, 24, 4);
        wire::lemma_u16_agree(a, i + 28, b, j + 28);
        wire::lemma_agree_join(a, i, b, j, 28, 2);
        wire::lemma_u16_agree(a, i + 30, b, j + 30);
        wire::lemma_agree_join(a, i, b, j, 30, 2);
        wire::lemma_u16_agree(a, i + 32, b, j + 32);
        wire::lemma_agree_join(a, i, b, j, 32, 2);
    }
}

/// How a car moves.
#[derive(Debug, Clone, Copy)]
pub struct Velocity {
    pub velocity_local_x: Binary32,
    pub velocity_local_y: Binary32,
    pub velocity_local_z: Binary32,
    pub angular_velocity_x: Binary32,
    pub angular_velocity_y: Binary32,
    pub angular_velocity_z: Binary32,
    pub acceleration_local_x: Binary32,
    pub acceleration_local_y: Binary32,
    pub acceleration_local_z: Binary32,
}

impl Velocity {
    /// Size on the wire.
    pub const BYTES: usize = 36;
}

impl Record for Velocity {
    open spec fn size() -> nat {
        36
    }

    open spec fn decodes(self, b: Seq<u8>, at: int) -> bool {
        &&& self.velocity_local_x == wire::f32_at(b, at)
        &&& self.velocity_local_y == wire::f32_at(b, at + 4)
        &&& self.velocity_local_z == wire::f32_at(b, at + 8)
        &&& self.angular_velocity_x == wire::f32_at(b, at + 12)
        &&& self.angular_velocity_y == wire::f32_at(b, at + 16)
        &&& self.angular_velocity_z == wire::f32_at(b, at + 20)
        &&& self.acceleration_local_x == wire::f32_at(b, at + 24)
        &&& self.acceleration_local_y == wire::f32_at(b, at + 28)
        &&& self.acceleration_local_z == wire::f32_at(b, at + 32)
    }

    fn read(buf: &[u8], at: usize) -> (r: Self) {
        Velocity {
            velocity_local_x: wire::read_f32(buf, at),
            velocity_local_y: wire::read_f32(buf, at + 4),
            velocity_local_z: wire::read_f32(buf, at + 8),
            angular_velocity_x: wire::read_f32(buf, at + 12),
            angular_velocity_y: wire::read_f32(buf, at + 16),
            angular_velocity_z: wire::read_f32(buf, at + 20),
            acceleration_local_x: wire::read_f32(buf, at + 24),
            acceleration_local_y: wire::read_f32(buf, at + 28),
            acceleration_local_z: wire::read_f32(buf, at + 32),
        }
    }
}

impl Dense for Velocity {
    proof fn lemma_faithful(self, a: Seq<u8>, i: int, b: Seq<u8>, j: int) {
        wire::lemma_u32_agree(a, i, b, j);
        wire::lemma_u32_agree(a, i + 4, b, j + 4);
        wire::lemma_agree_join(a, i, b, j, 4, 4);
        wire::lemma_u32_agree(a, i + 8, b, j + 8);
        wire::lemma_agree_join(a, i, b, j, 8, 4);
        wire::lemma_u32_agree(a, i + 12, b, j + 12);
        wire::lemma_agree_join(a, i, b, j, 12, 4);
        wire::lemma_u32_agree(a, i + 16, b, j + 16);
        wire::lemma_agree_join(a, i, b, j, 16, 4);
        wire::lemma_u32_agree(a, i + 20, b, j + 20);
        wire::lemma_agree_join(a, i, b, j, 20, 4);
        wire::lemma_u32_agree(a, i + 24, b, j + 24);
        wire::lemma_agree_join(a, i, b, j, 24, 4);
        wire::lemma_u32_agree(a, i + 28, b, j + 28);
        wire::lemma_agree_join(a, i, b, j, 28, 4);
        wire::lemma_u32_agree(a, i + 32, b, j + 32);
        wire::lemma_agree_join(a, i, b, j, 32, 4);
    }
}

/// How fast a participant moves.
#[derive(Debug, Clone, Copy)]
pub struct VelocityEssential {
    pub velocity_magnitude: Binary32,
}

impl VelocityEssential {
    /// Size on the wire.
    pub const BYTES: usize = 4;
}

impl Record for VelocityEssential {
    open spec fn size() -> nat {
        4
    }

    open spec fn decodes(self, b: Seq<u8>, at: int) -> bool {
        &&& self.velocity_magnitude == wire::f32_at(b, at)
    }

    fn read(buf: &[u8], at: usize) -> (r: Self) {
        VelocityEssential {
            velocity_magnitude: wire::read_f32(buf, at),
        }
    }
}

impl Dense for VelocityEssential {
    proof fn lemma_faithful(self, a: Seq<u8>, i: int, b: Seq<u8>, j: int) {
        wire::lemma_u32_agree(a, i, b, j);
    }
}

/// Driving aids.
#[derive(Debug, Clone, Copy)]
pub struct Assists {
    pub flags: u8,
    pub assist_gearbox: u8,
    pub level_abs: u8,
    pub level_tcs: u8,
    pub level_esc: u8,
    pub _reserved: [u8; 3],
}

impl Assists {
    /// Size on the wire.
    pub const BYTES: usize = 8;
}

impl Record for Assists {
    open spec fn size() -> nat {
        8
    }

    open spec fn decodes(self, b: Seq<u8>, at: int) -> bool {
        &&& self.flags == b[at]
        &&& self.assist_gearbox == b[at + 1]
        &&& self.level_abs == b[at + 2]
        &&& self.level_tcs == b[at + 3]
        &&& self.level_esc == b[at + 4]
        &&& self._reserved@ == b.subrange(at + 5, at + 8)
    }

    fn read(buf: &[u8], at: usize) -> (r: Self) {
        Assists {
            flags: wire::read_u8(buf, at),
            assist_gearbox: wire::read_u8(buf, at + 1),
            level_abs: wire::read_u8(buf, at + 2),
            level_tcs: wire::read_u8(buf, at + 3),
            level_esc: wire::read_u8(buf, at + 4),
            _reserved: wire::read_bytes::<3>(buf, at + 5),
        }
    }
}

impl Dense for Assists {
    proof fn lemma_faithful(self, a: Seq<u8>, i: int, b: Seq<u8>, j: int) {
        wire::lemma_u8_agree(a, i, b, j);
        wire::lemma_u8_agree(a, i + 1, b, j + 1);
        wire::lemma_agree_join(a, i, b, j, 1, 1);
        wire::lemma_u8_agree(a, i + 2, b, j + 2);
        wire::lemma_agree_join(a, i, b, j, 2, 1);
        wire::lemma_u8_agree(a, i + 3, b, j + 3);
        wire::lemma_agree_join(a, i, b, j, 3, 1);
        wire::lemma_u8_agree(a, i + 4, b, j + 4);
        wire::lemma_agree_join(a, i, b, j, 4, 1);
        assert(wire::agree(a, i + 5, b, j + 5, 3));
        wire::lemma_agree_join(a, i, b, j, 5, 3);
    }
}

/// The dimensions of a car.
#[derive(Debug, Clone, Copy)]
pub struct Chassis {
    pub track_width_front: Binary32,
    pub track_width_rear: Binary32,
    pub wheel_base: Binary32,
    pub steering_wheel_lock_to_lock: i32,
    pub steering_lock: Binary32,
    pub corner_weight_fl: Binary32,
    pub corner_weight_fr: Binary32,
    pub corner_weight_rl: Binary32,
    pub corner_weight_rr: Binary32,
    pub _reserved: [u8; 16],
}

impl Chassis {
    /// Size on the wire.
    pub const BYTES: usize = 52;
}

impl Record for Chassis {
    open spec fn size() -> nat {
        52
    }

    open spec fn decodes(self, b: Seq<u8>, at: int) -> bool {
        &&& self.track_width_front == wire::f32_at(b, at)
        &&& self.track_width_rear == wire::f32_at(b, at + 4)
        &&& self.wheel_base == wire::f32_at(b, at + 8)
        &&& self.steering_wheel_lock_to_lock == wire::i32_at(b, at + 12)
        &&& self.steering_lock == wire::f32_at(b, at + 16)
        &&& self.corner_weight_fl == wire::f32_at(b, at + 20)
        &&& self.corner_weight_fr == wire::f32_at(b, at + 24)
        &&& self.corner_weight_rl == wire::f32_at(b, at + 28)
        &&& self.corner_weight_rr == wire::f32_at(b, at + 32)
        &&& self._reserved@ == b.subrange(at + 36, at + 52)
    }

    fn read(buf: &[u8], at: usize) -> (r: Self) {
        Chassis {
            track_width_front: wire::read_f32(buf, at),
            track_width_rear: wire::read_f32(buf, at + 4),
            wheel_base: wire::read_f32(buf, at + 8),
            steering_wheel_lock_to_lock: wire::read_i32(buf, at + 12),
            steering_lock: wire::read_f32(buf, at + 16),
            corner_weight_fl: wire::read_f32(buf, at + 20),
            corner_weight_fr: wire::read_f32(buf, at + 24),
            corner_weight_rl: wire::read_f32(buf, at + 28),
            corner_weight_rr: wire::read_f32(buf, at + 32),
            _reserved: wire::read_bytes::<16>(buf, at + 36),
        }
    }
}

impl Dense for Chassis {
    proof fn lemma_faithful(self, a: Seq<u8>, i: int, b: Seq<u8>, j: int) {
        wire::lemma_u32_agree(a, i, b, j);
        wire::lemma_u32_agree(a, i + 4, b, j + 4);
        wire::lemma_agree_join(a, i, b, j, 4, 4);
        wire::lemma_u32_agree(a, i + 8, b, j + 8);
        wire::lemma_agree_join(a, i, b, j, 8, 4);
        wire::lemma_u32_agree(a, i + 12, b, j + 12);
        wire::lemma_agree_join(a, i, b, j, 12, 4);
        wire::lemma_u32_agree(a, i + 16, b, j + 16);
        wire::lemma_agree_join(a, i, b, j, 16, 4);
        wire::lemma_u32_agree(a, i + 20, b, j + 20);
        wire::lemma_agree_join(a, i, b, j, 20, 4);
        wire::lemma_u32_agree(a, i + 24, b, j + 24);
        wire::lemma_agree_join(a, i, b, j, 24, 4);
        wire::lemma_u32_agree(a, i + 28, b, j + 28);
        wire::lemma_agree_join(a, i, b, j, 28, 4);
        wire::lemma_u32_agree(a, i + 32, b, j + 32);
        wire::lemma_agree_join(a, i, b, j, 32, 4);
        assert(wire::agree(a, i + 36, b, j + 36, 16));
        wire::lemma_agree_join(a, i, b, j, 36, 16);
    }
}

/// Gearbox and driven wheels.
#[derive(Debug, Clone, Copy)]
pub struct Driveline {
    pub driveline_type: u8,
    /// 0 = R, 1 = N, 2 = 1st, ...
    pub gear: u8,
    pub gear_max: u8,
    /// M/s.
    pub speed: Binary32,
    pub _reserved: [u8; 17],
}

impl Driveline {
    /// Size on the wire.
    pub const BYTES: usize = 24;
}

impl Record for Driveline {
    open spec fn size() -> nat {
        24
    }

    open spec fn decodes(self, b: Seq<u8>, at: int) -> bool {
        &&& self.driveline_type == b[at]
        &&& self.gear == b[at + 1]
        &&& self.gear_max == b[at + 2]
        &&& self.speed == wire::f32_at(b, at + 3)
        &&& self._reserved@ == b.subrange(at + 7, at + 24)
    }

    fn read(buf: &[u8], at: usize) -> (r: Self) {
        Driveline {
            driveline_type: wire::read_u8(buf, at),
            gear: wire::read_u8(buf, at + 1),
            gear_max: wire::read_u8(buf, at + 2),
            speed: wire::read_f32(buf, at + 3),
            _reserved: wire::read_bytes::<17>(buf, at + 7),
        }
    }
}

impl Dense for Driveline {
    proof fn lemma_faithful(self, a: Seq<u8>, i: int, b: Seq<u8>, j: int) {
        wire::lemma_u8_agree(a, i, b, j);
        wire::lemma_u8_agree(a, i + 1, b, j + 1);
        wire::lemma_agree_join(a, i, b, j, 1, 1);
        wire::lemma_u8_agree(a, i + 2, b, j + 2);
        wire::lemma_agree_join(a, i, b, j, 2, 1);
        wire::lemma_u32_agree(a, i + 3, b, j + 3);
        wire::lemma_agree_join(a, i, b, j, 3, 4);
        assert(wire::agree(a, i + 7, b, j + 7, 17));
        wire::lemma_agree_join(a, i, b, j, 7, 17);
    }
}

/// The engine of the player's car.
#[derive(Debug, Clone, Copy)]
pub struct Engine {
    pub flags: u8,
    pub rpm: i32,
    /// Limiter.
    pub rpm_max: i32,
    /// Upshift.
    pub rpm_redline: i32,
    pub rpm_idle: i32,
    /// Nm.
    pub torque: Binary32,
    /// W.
    pub power: Binary32,
    /// K.
    pub temp_block: Binary32,
    /// K.
    pub temp_water: Binary32,
    /// KPa.
    pub pressure_manifold: Binary32,
    /// KPa.
    pub pressure_oil: Binary32,
    pub _reserved: [u8; 15],
}

impl Engine {
    /// Size on the wire.
    pub const BYTES: usize = 56;
}

impl Record for Engine {
    open spec fn size() -> nat {
        56
    }

    open spec fn decodes(self, b: Seq<u8>, at: int) -> bool {
        &&& self.flags == b[at]
        &&& self.rpm == wire::i32_at(b, at + 1)
        &&& self.rpm_max == wire::i32_at(b, at + 5)
        &&& self.rpm_redline == wire::i32_at(b, at + 9)
        &&& self.rpm_idle == wire::i32_at(b, at + 13)
        &&& self.torque == wire::f32_at(b, at + 17)
        &&& self.power == wire::f32_at(b, at + 21)
        &&& self.temp_block == wire::f32_at(b, at + 25)
        &&& self.temp_water == wire::f32_at(b, at + 29)
        &&& self.pressure_manifold == wire::f32_at(b, at + 33)
        &&& self.pressure_oil == wire::f32_at(b, at + 37)
        &&& self._reserved@ == b.subrange(at + 41, at + 56)
    }

    fn read(buf: &[u8], at: usize) -> (r: Self) {
        Engine {
            flags: wire::read_u8(buf, at),
            rpm: wire::read_i32(buf, at + 1),
            rpm_max: wire::read_i32(buf, at + 5),
            rpm_redline: wire::read_i32(buf, at + 9),
            rpm_idle: wire::read_i32(buf, at + 13),
            torque: wire::read_f32(buf, at + 17),
            power: wire::read_f32(buf, at + 21),
            temp_block: wire::read_f32(buf, at + 25),
            temp_water: wire::read_f32(buf, at + 29),
            pressure_manifold: wire::read_f32(buf, at + 33),
            pressure_oil: wire::read_f32(buf, at + 37),
            _reserved: wire::read_bytes::<15>(buf, at + 41),
        }
    }
}

impl Dense for Engine {
    proof fn lemma_faithful(self, a: Seq<u8>, i: int, b: Seq<u8>, j: int) {
        wire::lemma_u8_agree(a, i, b, j);
        wire::lemma_u32_agree(a, i + 1, b, j + 1);
        wire::lemma_agree_join(a, i, b, j, 1, 4);
        wire::lemma_u32_agree(a, i + 5, b, j + 5);
        wire::lemma_agree_join(a, i, b, j, 5, 4);
        wire::lemma_u32_agree(a, i + 9, b, j + 9);
        wire::lemma_agree_join(a, i, b, j, 9, 4);
        wire::lemma_u32_agree(a, i + 13, b, j + 13);
        wire::lemma_agree_join(a, i, b, j, 13, 4);
        wire::lemma_u32_agree(a, i + 17, b, j + 17);
        wire::lemma_agree_join(a, i, b, j, 17, 4);
        wire::lemma_u32_agree(a, i + 21, b, j + 21);
        wire::lemma_agree_join(a, i, b, j, 21, 4);
        wire::lemma_u32_agree(a, i + 25, b, j + 25);
        wire::lemma_agree_join(a, i, b, j, 25, 4);
        wire::lemma_u32_agree(a, i + 29, b, j + 29);
        wire::lemma_agree_join(a, i, b, j, 29, 4);
        wire::lemma_u32_agree(a, i + 33, b, j + 33);
        wire::lemma_agree_join(a, i, b, j, 33, 4);
        wire::lemma_u32_agree(a, i + 37, b, j + 37);
        wire::lemma_agree_join(a, i, b, j, 37, 4);
        assert(wire::agree(a, i + 41, b, j + 41, 15));
        wire::lemma_agree_join(a, i, b, j, 41, 15);
    }
}

/// Pedals and steering.
#[derive(Debug, Clone, Copy)]
pub struct Input {
    pub throttle: Binary32,
    pub brake: Binary32,
    pub clutch: Binary32,
    pub handbrake: Binary32,
    pub steering: Binary32,
}

impl Input {
    /// Size on the wire.
    pub const BYTES: usize = 20;
}

impl Record for Input {
    open spec fn size() -> nat {
        20
    }

    open spec fn decodes(self, b: Seq<u8>, at: int) -> bool {
        &&& self.throttle == wire::f32_at(b, at)
        &&& self.brake == wire::f32_at(b, at + 4)
        &&& self.clutch == wire::f32_at(b, at + 8)
        &&& self.handbrake == wire::f32_at(b, at + 12)
        &&& self.steering == wire::f32_at(b, at + 16)
    }

    fn read(buf: &[u8], at: usize) -> (r: Self) {
        Input {
            throttle: wire::read_f32(buf, at),
            brake: wire::read_f32(buf, at + 4),
            clutch: wire::read_f32(buf, at + 8),
            handbrake: wire::read_f32(buf, at + 12),
            steering: wire::read_f32(buf, at + 16),
        }
    }
}

impl Dense for Input {
    proof fn lemma_faithful(self, a: Seq<u8>, i: int, b: Seq<u8>, j: int) {
        wire::lemma_u32_agree(a, i, b, j);
        wire::lemma_u32_agree(a, i + 4, b, j + 4);
        wire::lemma_agree_join(a, i, b, j, 4, 4);
        wire::lemma_u32_agree(a, i + 8, b, j + 8);
        wire::lemma_agree_join(a, i, b, j, 8, 4);
        wire::lemma_u32_agree(a, i + 12, b, j + 12);
        wire::lemma_agree_join(a, i, b, j, 12, 4);
        wire::lemma_u32_agree(a, i + 16, b, j + 16);
        wire::lemma_agree_join(a, i, b, j, 16, 4);
    }
}

/// One wheel of the player's car.
#[derive(Debug, Clone, Copy)]
pub struct Tire {
    pub rps: Binary32,
    pub camber: Binary32,
    pub slip_ratio: Binary32,
    pub slip_angle: Binary32,
    pub radius_unloaded: Binary32,
    pub load_vertical: Binary32,
    pub force_lat: Binary32,
    pub force_long: Binary32,
    pub temperature_inner: Binary32,
    pub temperature_tread: Binary32,
    pub suspension_velocity: Binary32,
    pub suspension_displacement: Binary32,
    pub suspension_disp_norm: Binary32,
    pub position_vertical: Binary32,
    pub surface_type: u8,
    pub _reserved: [u8; 15],
}

impl Tire {
    /// Size on the wire.
    pub const BYTES: usize = 72;
}

impl Record for Tire {
    open spec fn size() -> nat {
        72
    }

    open spec fn decodes(self, b: Seq<u8>, at: int) -> bool {
        &&& self.rps == wire::f32_at(b, at)
        &&& self.camber == wire::f32_at(b, at + 4)
        &&& self.slip_ratio == wire::f32_at(b, at + 8)
        &&& self.slip_angle == wire::f32_at(b, at + 12)
        &&& self.radius_unloaded == wire::f32_at(b, at + 16)
        &&& self.load_vertical == wire::f32_at(b, at + 20)
        &&& self.force_lat == wire::f32_at(b, at + 24)
        &&& self.force_long == wire::f32_at(b, at + 28)
        &&& self.temperature_inner == wire::f32_at(b, at + 32)
        &&& self.temperature_tread == wire::f32_at(b, at + 36)
        &&& self.suspension_velocity == wire::f32_at(b, at + 40)
        &&& self.suspension_displacement == wire::f32_at(b, at + 44)
        &&& self.suspension_disp_norm == wire::f32_at(b, at + 48)
        &&& self.position_vertical == wire::f32_at(b, at + 52)
        &&& self.surface_type == b[at + 56]
        &&& self._reserved@ == b.subrange(at + 57, at + 72)
    }

    fn read(buf: &[u8], at: usize) -> (r: Self) {
        Tire {
            rps: wire::read_f32(buf, at),
            camber: wire::read_f32(buf, at + 4),
            slip_ratio: wire::read_f32(buf, at + 8),
            slip_angle: wire::read_f32(buf, at + 12),
            radius_unloaded: wire::read_f32(buf, at + 16),
            load_vertical: wire::read_f32(buf, at + 20),
            force_lat: wire::read_f32(buf, at + 24),
            force_long: wire::read_f32(buf, at + 28),
            temperature_inner: wire::read_f32(buf, at + 32),
            temperature_tread: wire::read_f32(buf, at + 36),
            suspension_velocity: wire::read_f32(buf, at + 40),
            suspension_displacement: wire::read_f32(buf, at + 44),
            suspension_disp_norm: wire::read_f32(buf, at + 48),
            position_vertical: wire::read_f32(buf, at + 52),
            surface_type: wire::read_u8(buf, at + 56),
            _reserved: wire::read_bytes::<15>(buf, at + 57),
        }
    }
}

impl Dense for Tire {
    proof fn lemma_faithful(self, a: Seq<u8>, i: int, b: Seq<u8>, j: int) {
        wire::lemma_u32_agree(a, i, b, j);
        wire::lemma_u32_agree(a, i + 4, b, j + 4);
        wire::lemma_agree_join(a, i, b, j, 4, 4);
        wire::lemma_u32_agree(a, i + 8, b, j + 8);
        wire::lemma_agree_join(a, i, b, j, 8, 4);
        wire::lemma_u32_agree(a, i + 12, b, j + 12);
        wire::lemma_agree_join(a, i, b, j, 12, 4);
        wire::lemma_u32_agree(a, i + 16, b, j + 16);
        wire::lemma_agree_join(a, i, b, j, 16, 4);
        wire::lemma_u32_agree(a, i + 20, b, j + 20);
        wire::lemma_agree_join(a, i, b, j, 20, 4);
        wire::lemma_u32_agree(a, i + 24, b, j + 24);
        wire::lemma_agree_join(a, i, b, j, 24, 4);
        wire::lemma_u32_agree(a, i + 28, b, j + 28);
        wire::lemma_agree_join(a, i, b, j, 28, 4);
        wire::lemma_u32_agree(a, i + 32, b, j + 32);
        wire::lemma_agree_join(a, i, b, j, 32, 4);
        wire::lemma_u32_agree(a, i + 36, b, j + 36);
        wire::lemma_agree_join(a, i, b, j, 36, 4);
        wire::lemma_u32_agree(a, i + 40, b, j + 40);
        wire::lemma_agree_join(a, i, b, j, 40, 4);
        wire::lemma_u32_agree(a, i + 44, b, j + 44);
        wire::lemma_agree_join(a, i, b, j, 44, 4);
        wire::lemma_u32_agree(a, i + 48, b, j + 48);
        wire::lemma_agree_join(a, i, b, j, 48, 4);
        wire::lemma_u32_agree(a, i + 52, b, j + 52);
        wire::lemma_agree_join(a, i, b, j, 52, 4);
        wire::lemma_u8_agree(a, i + 56, b, j + 56);
        wire::lemma_agree_join(a, i, b, j, 56, 1);
        assert(wire::agree(a, i + 57, b, j + 57, 15));
        wire::lemma_agree_join(a, i, b, j, 57, 15);
    }
}

/// All there is about the player's car.
#[derive(Debug, Clone, Copy)]
pub struct CarFull {
    pub assists: Assists,
    pub chassis: Chassis,
    pub driveline: Driveline,
    pub engine: Engine,
    pub input: Input,
    pub orientation: Orientation,
    pub velocity: Velocity,
    /// Indexed by the `TIRE_LOC_*` constants.
    pub tires: [Tire; 4],
    pub _reserved: [u8; 14],
}

impl CarFull {
    /// Size on the wire.
    pub const BYTES: usize = 532;
}

impl Record for CarFull {
    open spec fn size() -> nat {
        532
    }

    open spec fn decodes(self, b: Seq<u8>, at: int) -> bool {
        &&& self.assists.decodes(b, at)
        &&& self.chassis.decodes(b, at + 8)
        &&& self.driveline.decodes(b, at + 60)
        &&& self.engine.decodes(b, at + 84)
        &&& self.input.decodes(b, at + 140)
        &&& self.orientation.decodes(b, at + 160)
        &&& self.velocity.decodes(b, at + 194)
        &&& forall|k: int|
            0 <= k < 4 ==> (#[trigger] self.tires@[k]).decodes(b, at + 230 + 72 * k)
        &&& self._reserved@ == b.subrange(at + 518, at + 532)
    }

    fn read(buf: &[u8], at: usize) -> (r: Self) {
        CarFull {
            assists: Assists::read(buf, at),
            chassis: Chassis::read(buf, at + 8),
            driveline: Driveline::read(buf, at + 60),
            engine: Engine::read(buf, at + 84),
            input: Input::read(buf, at + 140),
            orientation: Orientation::read(buf, at + 160),
            velocity: Velocity::read(buf, at + 194),
            tires: wire::read_records::<Tire, 4>(buf, at + 230, Tire::BYTES),
            _reserved: wire::read_bytes::<14>(buf, at + 518),
        }
    }
}

impl Dense for CarFull {
    proof fn lemma_faithful(self, a: Seq<u8>, i: int, b: Seq<u8>, j: int) {
        self.assists.lemma_faithful(a, i, b, j);
        self.chassis.lemma_faithful(a, i + 8, b, j + 8);
        wire::lemma_agree_join(a, i, b, j, 8, 52);
        self.driveline.lemma_faithful(a, i + 60, b, j + 60);
        wire::lemma_agree_join(a, i, b, j, 60, 24);
        self.engine.lemma_faithful(a, i + 84, b, j + 84);
        wire::lemma_agree_join(a, i, b, j, 84, 56);
        self.input.lemma_faithful(a, i + 140, b, j + 140);
        wire::lemma_agree_join(a, i, b, j, 140, 20);
        self.orientation.lemma_faithful(a, i + 160, b, j + 160);
        wire::lemma_agree_join(a, i, b, j, 160, 34);
        self.velocity.lemma_faithful(a, i + 194, b, j + 194);
        wire::lemma_agree_join(a, i, b, j, 194, 36);
        wire::lemma_records_agree(self.tires@, a, i + 230, b, j + 230, 72, 4 as int);
        wire::lemma_agree_join(a, i, b, j, 230, 288);
        assert(wire::agree(a, i + 518, b, j + 518, 14));
        wire::lemma_agree_join(a, i, b, j, 518, 14);
    }
}

/// The state of the force feedback.
#[derive(Debug, Clone, Copy)]
pub struct InputExtended {
    pub flags: u8,
    pub ffb_force: Binary32,
    pub _reserved: [u8; 15],
}

impl InputExtended {
    /// Size on the wire.
    pub const BYTES: usize = 20;
}

impl Record for InputExtended {
    open spec fn size() -> nat {
        20
    }

    open spec fn decodes(self, b: Seq<u8>, at: int) -> bool {
        &&& self.flags == b[at]
        &&& self.ffb_force == wire::f32_at(b, at + 1)
        &&& self._reserved@ == b.subrange(at + 5, at + 20)
    }

    fn read(buf: &[u8], at: usize) -> (r: Self) {
        InputExtended {
            flags: wire::read_u8(buf, at),
            ffb_force: wire::read_f32(buf, at + 1),
            _reserved: wire::read_bytes::<15>(buf, at + 5),
        }
    }
}

impl Dense for InputExtended {
    proof fn lemma_faithful(self, a: Seq<u8>, i: int, b: Seq<u8>, j: int) {
        wire::lemma_u8_agree(a, i, b, j);
        wire::lemma_u32_agree(a, i + 1, b, j + 1);
        wire::lemma_agree_join(a, i, b, j, 1, 4);
        assert(wire::agree(a, i + 5, b, j + 5, 15));
        wire::lemma_agree_join(a, i, b, j, 5, 15);
    }
}

/// One row of the leaderboard.
#[derive(Debug, Clone, Copy)]
pub struct Leaderboard {
    pub status: u8,
    pub track_status: u8,
    pub lap_current: u16,
    pub position: u8,
    pub health: u8,
    pub wrecks: u16,
    pub frags: u16,
    pub assists: u16,
    pub score: i32,
    pub points: i32,
    /// Ms.
    pub delta_leader: i32,
    pub lap_timing: u16,
    pub _reserved: [u8; 6],
}

impl Leaderboard {
    /// Size on the wire.
    pub const BYTES: usize = 32;
}

impl Record for Leaderboard {
    open spec fn size() -> nat {
        32
    }

    open spec fn decodes(self, b: Seq<u8>, at: int) -> bool {
        &&& self.status == b[at]
        &&& self.track_status == b[at + 1]
        &&& self.lap_current == wire::u16_at(b, at + 2)
        &&& self.position == b[at + 4]
        &&& self.health == b[at + 5]
        &&& self.wrecks == wire::u16_at(b, at + 6)
        &&& self.frags == wire::u16_at(b, at + 8)
        &&& self.assists == wire::u16_at(b, at + 10)
        &&& self.score == wire::i32_at(b, at + 12)
        &&& self.points == wire::i32_at(b, at + 16)
        &&& self.delta_leader == wire::i32_at(b, at + 20)
        &&& self.lap_timing == wire::u16_at(b, at + 24)
        &&& self._reserved@ == b.subrange(at + 26, at + 32)
    }

    fn read(buf: &[u8], at: usize) -> (r: Self) {
        Leaderboard {
            status: wire::read_u8(buf, at),
            track_status: wire::read_u8(buf, at + 1),
            lap_current: wire::read_u16(buf, at + 2),
            position: wire::read_u8(buf, at + 4),
            health: wire::read_u8(buf, at + 5),
            wrecks: wire::read_u16(buf, at + 6),
            frags: wire::read_u16(buf, at + 8),
            assists: wire::read_u16(buf, at + 10),
            score: wire::read_i32(buf, at + 12),
            points: wire::read_i32(buf, at + 16),
            delta_leader: wire::read_i32(buf, at + 20),
            lap_timing: wire::read_u16(buf, at + 24),
            _reserved: wire::read_bytes::<6>(buf, at + 26),
        }
    }
}

impl Dense for Leaderboard {
    proof fn lemma_faithful(self, a: Seq<u8>, i: int, b: Seq<u8>, j: int) {
        wire::lemma_u8_agree(a, i, b, j);
        wire::lemma_u8_agree(a, i + 1, b, j + 1);
        wire::lemma_agree_join(a, i, b, j, 1, 1);
        wire::lemma_u16_agree(a, i + 2, b, j + 2);
        wire::lemma_agree_join(a, i, b, j, 2, 2);
        wire::lemma_u8_agree(a, i + 4, b, j + 4);
        wire::lemma_agree_join(a, i, b, j, 4, 1);
        wire::lemma_u8_agree(a, i + 5, b, j + 5);
        wire::lemma_agree_join(a, i, b, j, 5, 1);
        wire::lemma_u16_agree(a, i + 6, b, j + 6);
        wire::lemma_agree_join(a, i, b, j, 6, 2);
        wire::lemma_u16_agree(a, i + 8, b, j + 8);
        wire::lemma_agree_join(a, i, b, j, 8, 2);
        wire::lemma_u16_agree(a, i + 10, b, j + 10);
        wire::lemma_agree_join(a, i, b, j, 10, 2);
        wire::lemma_u32_agree(a, i + 12, b, j + 12);
        wire::lemma_agree_join(a, i, b, j, 12, 4);
        wire::lemma_u32_agree(a, i + 16, b, j + 16);
        wire::lemma_agree_join(a, i, b, j, 16, 4);
        wire::lemma_u32_agree(a, i + 20, b, j + 20);
        wire::lemma_agree_join(a, i, b, j, 20, 4);
        wire::lemma_u16_agree(a, i + 24, b, j + 24);
        wire::lemma_agree_join(a, i, b, j, 24, 2);
        assert(wire::agree(a, i + 26, b, j + 26, 6));
        wire::lemma_agree_join(a, i, b, j, 26, 6);
    }
}

/// The lap times of one participant.
#[derive(Debug, Clone, Copy)]
pub struct Timing {
    /// Ms (with penalty).
    pub lap_time_current: u32,
    /// Ms.
    pub lap_time_penalty_current: u32,
    /// Ms.
    pub lap_time_last: u32,
    /// Ms.
    pub lap_time_best: u32,
    pub lap_best: u8,
    /// Ms, -1 = N/A.
    pub delta_ahead: i32,
    /// Ms, -1 = N/A.
    pub delta_behind: i32,
    /// 0..=1.
    pub lap_progress: Binary32,
    pub _reserved: [u8; 3],
}

impl Timing {
    /// Size on the wire.
    pub const BYTES: usize = 32;
}

impl Record for Timing {
    open spec fn size() -> nat {
        32
    }

    open spec fn decodes(self, b: Seq<u8>, at: int) -> bool {
        &&& self.lap_time_current == wire::u32_at(b, at)
        &&& self.lap_time_penalty_current == wire::u32_at(b, at + 4)
        &&& self.lap_time_last == wire::u32_at(b, at + 8)
        &&& self.lap_time_best == wire::u32_at(b, at + 12)
        &&& self.lap_best == b[at + 16]
        &&& self.delta_ahead == wire::i32_at(b, at + 17)
        &&& self.delta_behind == wire::i32_at(b, at + 21)
        &&& self.lap_progress == wire::f32_at(b, at + 25)
        &&& self._reserved@ == b.subrange(at + 29, at + 32)
    }

    fn read(buf: &[u8], at: usize) -> (r: Self) {
        Timing {
            lap_time_current: wire::read_u32(buf, at),
            lap_time_penalty_current: wire::read_u32(buf, at + 4),
            lap_time_last: wire::read_u32(buf, at + 8),
            lap_time_best: wire::read_u32(buf, at + 12),
            lap_best: wire::read_u8(buf, at + 16),
            delta_ahead: wire::read_i32(buf, at + 17),
            delta_behind: wire::read_i32(buf, at + 21),
            lap_progress: wire::read_f32(buf, at + 25),
            _reserved: wire::read_bytes::<3>(buf, at + 29),
        }
    }
}

impl Dense for Timing {
    proof fn lemma_faithful(self, a: Seq<u8>, i: int, b: Seq<u8>, j: int) {
        wire::lemma_u32_agree(a, i, b, j);
        wire::lemma_u32_agree(a, i + 4, b, j + 4);
        wire::lemma_agree_join(a, i, b, j, 4, 4);
        wire::lemma_u32_agree(a, i + 8, b, j + 8);
        wire::lemma_agree_join(a, i, b, j, 8, 4);
        wire::lemma_u32_agree(a, i + 12, b, j + 12);
        wire::lemma_agree_join(a, i, b, j, 12, 4);
        wire::lemma_u8_agree(a, i + 16, b, j + 16);
        wire::lemma_agree_join(a, i, b, j, 16, 1);
        wire::lemma_u32_agree(a, i + 17, b, j + 17);
        wire::lemma_agree_join(a, i, b, j, 17, 4);
        wire::lemma_u32_agree(a, i + 21, b, j + 21);
        wire::lemma_agree_join(a, i, b, j, 21, 4);
        wire::lemma_u32_agree(a, i + 25, b, j + 25);
        wire::lemma_agree_join(a, i, b, j, 25, 4);
        assert(wire::agree(a, i + 29, b, j + 29, 3));
        wire::lemma_agree_join(a, i, b, j, 29, 3);
    }
}

/// The sector times of one participant.
#[derive(Debug, Clone, Copy)]
pub struct TimingSectors {
    pub sector_time_current_lap_1: u32,
    pub sector_time_current_lap_2: u32,
    pub sector_time_last_lap_1: u32,
    pub sector_time_last_lap_2: u32,
    pub sector_time_best_lap_1: u32,
    pub sector_time_best_lap_2: u32,
    pub sector_time_best_1: u32,
    pub sector_time_best_2: u32,
    pub sector_time_best_3: u32,
}

impl TimingSectors {
    /// Size on the wire.
    pub const BYTES: usize = 36;
}

impl Record for TimingSectors {
    open spec fn size() -> nat {
        36
    }

    open spec fn decodes(self, b: Seq<u8>, at: int) -> bool {
        &&& self.sector_time_current_lap_1 == wire::u32_at(b, at)
        &&& self.sector_time_current_lap_2 == wire::u32_at(b, at + 4)
        &&& self.sector_time_last_lap_1 == wire::u32_at(b, at + 8)
        &&& self.sector_time_last_lap_2 == wire::u32_at(b, at + 12)
        &&& self.sector_time_best_lap_1 == wire::u32_at(b, at + 16)
        &&& self.sector_time_best_lap_2 == wire::u32_at(b, at + 20)
        &&& self.sector_time_best_1 == wire::u32_at(b, at + 24)
        &&& self.sector_time_best_2 == wire::u32_at(b, at + 28)
        &&& self.sector_time_best_3 == wire::u32_at(b, at + 32)
    }

    fn read(buf: &[u8], at: usize) -> (r: Self) {
        TimingSectors {
            sector_time_current_lap_1: wire::read_u32(buf, at),
            sector_time_current_lap_2: wire::read_u32(buf, at + 4),
            sector_time_last_lap_1: wire::read_u32(buf, at + 8),
            sector_time_last_lap_2: wire::read_u32(buf, at + 12),
            sector_time_best_lap_1: wire::read_u32(buf, at + 16),
            sector_time_best_lap_2: wire::read_u32(buf, at + 20),
            sector_time_best_1: wire::read_u32(buf, at + 24),
            sector_time_best_2: wire::read_u32(buf, at + 28),
            sector_time_best_3: wire::read_u32(buf, at + 32),
        }
    }
}

impl Dense for TimingSectors {
    proof fn lemma_faithful(self, a: Seq<u8>, i: int, b: Seq<u8>, j: int) {
        wire::lemma_u32_agree(a, i, b, j);
        wire::lemma_u32_agree(a, i + 4, b, j + 4);
        wire::lemma_agree_join(a, i, b, j, 4, 4);
        wire::lemma_u32_agree(a, i + 8, b, j + 8);
        wire::lemma_agree_join(a, i, b, j, 8, 4);
        wire::lemma_u32_agree(a, i + 12, b, j + 12);
        wire::lemma_agree_join(a, i, b, j, 12, 4);
        wire::lemma_u32_agree(a, i + 16, b, j + 16);
        wire::lemma_agree_join(a, i, b, j, 16, 4);
        wire::lemma_u32_agree(a, i + 20, b, j + 20);
        wire::lemma_agree_join(a, i, b, j, 20, 4);
        wire::lemma_u32_agree(a, i + 24, b, j + 24);
        wire::lemma_agree_join(a, i, b, j, 24, 4);
        wire::lemma_u32_agree(a, i + 28, b, j + 28);
        wire::lemma_agree_join(a, i, b, j, 28, 4);
        wire::lemma_u32_agree(a, i + 32, b, j + 32);
        wire::lemma_agree_join(a, i, b, j, 32, 4);
    }
}

/// Where one participant is and how fast they go.
#[derive(Debug, Clone, Copy)]
pub struct ParticipantMotion {
    pub orientation: Orientation,
    pub velocity: VelocityEssential,
}

impl ParticipantMotion {
    /// Size on the wire.
    pub const BYTES: usize = 38;
}

impl Record for ParticipantMotion {
    open spec fn size() -> nat {
        38
    }

    open spec fn decodes(self, b: Seq<u8>, at: int) -> bool {
        &&& self.orientation.decodes(b, at)
        &&& self.velocity.decodes(b, at + 34)
    }

    fn read(buf: &[u8], at: usize) -> (r: Self) {
        ParticipantMotion {
            orientation: Orientation::read(buf, at),
            velocity: VelocityEssential::read(buf, at + 34),
        }
    }
}

impl Dense for ParticipantMotion {
    proof fn lemma_faithful(self, a: Seq<u8>, i: int, b: Seq<u8>, j: int) {
        self.orientation.lemma_faithful(a, i, b, j);
        self.velocity.lemma_faithful(a, i + 34, b, j + 34);
        wire::lemma_agree_join(a, i, b, j, 34, 4);
    }
}

/// The damage of one car.
#[derive(Debug, Clone, Copy)]
pub struct Damage {
    /// Three bits per part, low bits first; see [`Damage::states`].
    pub damage_states: [u8; DAMAGE_BYTES_PER_PARTICIPANT],
}

impl Damage {
    /// Size on the wire.
    pub const BYTES: usize = 21;
}

impl Record for Damage {
    open spec fn size() -> nat {
        21
    }

    open spec fn decodes(self, b: Seq<u8>, at: int) -> bool {
        &&& self.damage_states@ == b.subrange(at, at + 21)
    }

    fn read(buf: &[u8], at: usize) -> (r: Self) {
        Damage {
            damage_states: wire::read_bytes::<DAMAGE_BYTES_PER_PARTICIPANT>(buf, at),
        }
    }
}

impl Dense for Damage {
    proof fn lemma_faithful(self, a: Seq<u8>, i: int, b: Seq<u8>, j: int) {
        assert(wire::agree(a, i, b, j, 21));
    }
}

/// The car and the name of one participant.
#[derive(Debug, Clone, Copy)]
pub struct Info {
    pub car_id: [u8; CAR_ID_LEN],
    pub car_name: [u8; CAR_NAME_LEN],
    pub player_name: [u8; PLAYER_NAME_LEN],
    pub participant_index: u8,
    /// Ms.
    pub last_normal_track_status_time: i32,
    /// Ms.
    pub last_collision_time: i32,
    /// Ms.
    pub last_reset_time: i32,
    pub _reserved: [u8; 16],
}

impl Info {
    /// Size on the wire.
    pub const BYTES: usize = 213;
}

impl Record for Info {
    open spec fn size() -> nat {
        213
    }

    open spec fn decodes(self, b: Seq<u8>, at: int) -> bool {
        &&& self.car_id@ == b.subrange(at, at + 64)
        &&& self.car_name@ == b.subrange(at + 64, at + 160)
        &&& self.player_name@ == b.subrange(at + 160, at + 184)
        &&& self.participant_index == b[at + 184]
        &&& self.last_normal_track_status_time == wire::i32_at(b, at + 185)
        &&& self.last_collision_time == wire::i32_at(b, at + 189)
        &&& self.last_reset_time == wire::i32_at(b, at + 193)
        &&& self._reserved@ == b.subrange(at + 197, at + 213)
    }

    fn read(buf: &[u8], at: usize) -> (r: Self) {
        Info {
            car_id: wire::read_bytes::<CAR_ID_LEN>(buf, at),
            car_name: wire::read_bytes::<CAR_NAME_LEN>(buf, at + 64),
            player_name: wire::read_bytes::<PLAYER_NAME_LEN>(buf, at + 160),
            participant_index: wire::read_u8(buf, at + 184),
            last_normal_track_status_time: wire::read_i32(buf, at + 185),
            last_collision_time: wire::read_i32(buf, at + 189),
            last_reset_time: wire::read_i32(buf, at + 193),
            _reserved: wire::read_bytes::<16>(buf, at + 197),
        }
    }
}

impl Dense for Info {
    proof fn lemma_faithful(self, a: Seq<u8>, i: int, b: Seq<u8>, j: int) {
        assert(wire::agree(a, i, b, j, 64));
        assert(wire::agree(a, i + 64, b, j + 64, 96));
        wire::lemma_agree_join(a, i, b, j, 64, 96);
        assert(wire::agree(a, i + 160, b, j + 160, 24));
        wire::lemma_agree_join(a, i, b, j, 160, 24);
        wire::lemma_u8_agree(a, i + 184, b, j + 184);
        wire::lemma_agree_join(a, i, b, j, 184, 1);
        wire::lemma_u32_agree(a, i + 185, b, j + 185);
        wire::lemma_agree_join(a, i, b, j, 185, 4);
        wire::lemma_u32_agree(a, i + 189, b, j + 189);
        wire::lemma_agree_join(a, i, b, j, 189, 4);
        wire::lemma_u32_agree(a, i + 193, b, j + 193);
        wire::lemma_agree_join(a, i, b, j, 193, 4);
        assert(wire::agree(a, i + 197, b, j + 197, 16));
        wire::lemma_agree_join(a, i, b, j, 197, 16);
    }
}

/// The packet about the player.
#[derive(Debug, Clone, Copy)]
pub struct Main {
    pub header: Header,
    pub marshal_flags_player: u16,
    pub leaderboard: Leaderboard,
    pub timing: Timing,
    pub timing_sectors: TimingSectors,
    pub info: Info,
    pub damage: Damage,
    pub car: CarFull,
    pub session: Session,
    pub player_status_flags: u16,
    pub input_extended: InputExtended,
    pub _reserved: [u8; 106],
}

impl Main {
    /// Size on the wire.
    pub const BYTES: usize = 1218;
}

impl Record for Main {
    open spec fn size() -> nat {
        1218
    }

    open spec fn decodes(self, b: Seq<u8>, at: int) -> bool {
        &&& self.header.decodes(b, at)
        &&& self.marshal_flags_player == wire::u16_at(b, at + 14)
        &&& self.leaderboard.decodes(b, at + 16)
        &&& self.timing.decodes(b, at + 48)
        &&& self.timing_sectors.decodes(b, at + 80)
        &&& self.info.decodes(b, at + 116)
        &&& self.damage.decodes(b, at + 329)
        &&& self.car.decodes(b, at + 350)
        &&& self.session.decodes(b, at + 882)
        &&& self.player_status_flags == wire::u16_at(b, at + 1090)
        &&& self.input_extended.decodes(b, at + 1092)
        &&& self._reserved@ == b.subrange(at + 1112, at + 1218)
    }

    fn read(buf: &[u8], at: usize) -> (r: Self) {
        Main {
            header: Header::read(buf, at),
            marshal_flags_player: wire::read_u16(buf, at + 14),
            leaderboard: Leaderboard::read(buf, at + 16),
            timing: Timing::read(buf, at + 48),
            timing_sectors: TimingSectors::read(buf, at + 80),
            info: Info::read(buf, at + 116),
            damage: Damage::read(buf, at + 329),
            car: CarFull::read(buf, at + 350),
            session: Session::read(buf, at + 882),
            player_status_flags: wire::read_u16(buf, at + 1090),
            input_extended: InputExtended::read(buf, at + 1092),
            _reserved: wire::read_bytes::<106>(buf, at + 1112),
        }
    }
}

impl Dense for Main {
    proof fn lemma_faithful(self, a: Seq<u8>, i: int, b: Seq<u8>, j: int) {
        self.header.lemma_faithful(a, i, b, j);
        wire::lemma_u16_agree(a, i + 14, b, j + 14);
        wire::lemma_agree_join(a, i, b, j, 14, 2);
        self.leaderboard.lemma_faithful(a, i + 16, b, j + 16);
        wire::lemma_agree_join(a, i, b, j, 16, 32);
        self.timing.lemma_faithful(a, i + 48, b, j + 48);
        wire::lemma_agree_join(a, i, b, j, 48, 32);
        self.timing_sectors.lemma_faithful(a, i + 80, b, j + 80);
        wire::lemma_agree_join(a, i, b, j, 80, 36);
        self.info.lemma_faithful(a, i + 116, b, j + 116);
        wire::lemma_agree_join(a, i, b, j, 116, 213);
        self.damage.lemma_faithful(a, i + 329, b, j + 329);
        wire::lemma_agree_join(a, i, b, j, 329, 21);
        self.car.lemma_faithful(a, i + 350, b, j + 350);
        wire::lemma_agree_join(a, i, b, j, 350, 532);
        self.session.lemma_faithful(a, i + 882, b, j + 882);
        wire::lemma_agree_join(a, i, b, j, 882, 208);
        wire::lemma_u16_agree(a, i + 1090, b, j + 1090);
        wire::lemma_agree_join(a, i, b, j, 1090, 2);
        self.input_extended.lemma_faithful(a, i + 1092, b, j + 1092);
        wire::lemma_agree_join(a, i, b, j, 1092, 20);
        assert(wire::agree(a, i + 1112, b, j + 1112, 106));
        wire::lemma_agree_join(a, i, b, j, 1112, 106);
    }
}

/// The leaderboard of all participants.
#[derive(Debug, Clone, Copy)]
pub struct ParticipantsLeaderboard {
    pub header: Header,
    pub participant_visibility: u8,
    pub participants: [Leaderboard; PARTICIPANTS_MAX],
    pub _reserved: [u8; 64],
}

impl ParticipantsLeaderboard {
    /// Size on the wire.
    pub const BYTES: usize = 1231;
}

impl Record for ParticipantsLeaderboard {
    open spec fn size() -> nat {
        1231
    }

    open spec fn decodes(self, b: Seq<u8>, at: int) -> bool {
        &&& self.header.decodes(b, at)
        &&& self.participant_visibility == b[at + 14]
        &&& forall|k: int|
            0 <= k < PARTICIPANTS_MAX ==> (#[trigger] self.participants@[k]).decodes(b, at + 15 + 32 * k)
        &&& self._reserved@ == b.subrange(at + 1167, at + 1231)
    }

    fn read(buf: &[u8], at: usize) -> (r: Self) {
        ParticipantsLeaderboard {
            header: Header::read(buf, at),
            participant_visibility: wire::read_u8(buf, at + 14),
            participants: wire::read_records::<Leaderboard, PARTICIPANTS_MAX>(buf, at + 15, Leaderboard::BYTES),
            _reserved: wire::read_bytes::<64>(buf, at + 1167),
        }
    }
}

impl Dense for ParticipantsLeaderboard {
    proof fn lemma_faithful(self, a: Seq<u8>, i: int, b: Seq<u8>, j: int) {
        self.header.lemma_faithful(a, i, b, j);
        wire::lemma_u8_agree(a, i + 14, b, j + 14);
        wire::lemma_agree_join(a, i, b, j, 14, 1);
        wire::lemma_records_agree(self.participants@, a, i + 15, b, j + 15, 32, PARTICIPANTS_MAX as int);
        wire::lemma_agree_join(a, i, b, j, 15, 1152);
        assert(wire::agree(a, i + 1167, b, j + 1167, 64));
        wire::lemma_agree_join(a, i, b, j, 1167, 64);
    }
}

/// The lap times of all participants.
#[derive(Debug, Clone, Copy)]
pub struct ParticipantsTiming {
    pub header: Header,
    pub participant_visibility: u8,
    pub participants: [Timing; PARTICIPANTS_MAX],
    pub _reserved: [u8; 64],
}

impl ParticipantsTiming {
    /// Size on the wire.
    pub const BYTES: usize = 1231;
}

impl Record for ParticipantsTiming {
    open spec fn size() -> nat {
        1231
    }

    open spec fn decodes(self, b: Seq<u8>, at: int) -> bool {
        &&& self.header.decodes(b, at)
        &&& self.participant_visibility == b[at + 14]
        &&& forall|k: int|
            0 <= k < PARTICIPANTS_MAX ==> (#[trigger] self.participants@[k]).decodes(b, at + 15 + 32 * k)
        &&& self._reserved@ == b.subrange(at + 1167, at + 1231)
    }

    fn read(buf: &[u8], at: usize) -> (r: Self) {
        ParticipantsTiming {
            header: Header::read(buf, at),
            participant_visibility: wire::read_u8(buf, at + 14),
            participants: wire::read_records::<Timing, PARTICIPANTS_MAX>(buf, at + 15, Timing::BYTES),
            _reserved: wire::read_bytes::<64>(buf, at + 1167),
        }
    }
}

impl Dense for ParticipantsTiming {
    proof fn lemma_faithful(self, a: Seq<u8>, i: int, b: Seq<u8>, j: int) {
        self.header.lemma_faithful(a, i, b, j);
        wire::lemma_u8_agree(a, i + 14, b, j + 14);
        wire::lemma_agree_join(a, i, b, j, 14, 1);
        wire::lemma_records_agree(self.participants@, a, i + 15, b, j + 15, 32, PARTICIPANTS_MAX as int);
        wire::lemma_agree_join(a, i, b, j, 15, 1152);
        assert(wire::agree(a, i + 1167, b, j + 1167, 64));
        wire::lemma_agree_join(a, i, b, j, 1167, 64);
    }
}

/// The sector times of all participants.
#[derive(Debug, Clone, Copy)]
pub struct ParticipantsTimingSectors {
    pub header: Header,
    pub participant_visibility: u8,
    pub participants: [TimingSectors; PARTICIPANTS_MAX],
    pub _reserved: [u8; 64],
}

impl ParticipantsTimingSectors {
    /// Size on the wire.
    pub const BYTES: usize = 1375;
}

impl Record for ParticipantsTimingSectors {
    open spec fn size() -> nat {
        1375
    }

    open spec fn decodes(self, b: Seq<u8>, at: int) -> bool {
        &&& self.header.decodes(b, at)
        &&& self.participant_visibility == b[at + 14]
        &&& forall|k: int|
            0 <= k < PARTICIPANTS_MAX ==> (#[trigger] self.participants@[k]).decodes(b, at + 15 + 36 * k)
        &&& self._reserved@ == b.subrange(at + 1311, at + 1375)
    }

    fn read(buf: &[u8], at: usize) -> (r: Self) {
        ParticipantsTimingSectors {
            header: Header::read(buf, at),
            participant_visibility: wire::read_u8(buf, at + 14),
            participants: wire::read_records::<TimingSectors, PARTICIPANTS_MAX>(buf, at + 15, TimingSectors::BYTES),
            _reserved: wire::read_bytes::<64>(buf, at + 1311),
        }
    }
}

impl Dense for ParticipantsTimingSectors {
    proof fn lemma_faithful(self, a: Seq<u8>, i: int, b: Seq<u8>, j: int) {
        self.header.lemma_faithful(a, i, b, j);
        wire::lemma_u8_agree(a, i + 14, b, j + 14);
        wire::lemma_agree_join(a, i, b, j, 14, 1);
        wire::lemma_records_agree(self.participants@, a, i + 15, b, j + 15, 36, PARTICIPANTS_MAX as int);
        wire::lemma_agree_join(a, i, b, j, 15, 1296);
        assert(wire::agree(a, i + 1311, b, j + 1311, 64));
        wire::lemma_agree_join(a, i, b, j, 1311, 64);
    }
}

/// The motion of all participants.
#[derive(Debug, Clone, Copy)]
pub struct ParticipantsMotion {
    pub header: Header,
    pub participant_visibility: u8,
    pub participants: [ParticipantMotion; PARTICIPANTS_MAX],
}

impl ParticipantsMotion {
    /// Size on the wire.
    pub const BYTES: usize = 1383;
}

impl Record for ParticipantsMotion {
    open spec fn size() -> nat {
        1383
    }

    open spec fn decodes(self, b: Seq<u8>, at: int) -> bool {
        &&& self.header.decodes(b, at)
        &&& self.participant_visibility == b[at + 14]
        &&& forall|k: int|
            0 <= k < PARTICIPANTS_MAX ==> (#[trigger] self.participants@[k]).decodes(b, at + 15 + 38 * k)
    }

    fn read(buf: &[u8], at: usize) -> (r: Self) {
        ParticipantsMotion {
            header: Header::read(buf, at),
            participant_visibility: wire::read_u8(buf, at + 14),
            participants: wire::read_records::<ParticipantMotion, PARTICIPANTS_MAX>(buf, at + 15, ParticipantMotion::BYTES),
        }
    }
}

impl Dense for ParticipantsMotion {
    proof fn lemma_faithful(self, a: Seq<u8>, i: int, b: Seq<u8>, j: int) {
        self.header.lemma_faithful(a, i, b, j);
        wire::lemma_u8_agree(a, i + 14, b, j + 14);
        wire::lemma_agree_join(a, i, b, j, 14, 1);
        wire::lemma_records_agree(self.participants@, a, i + 15, b, j + 15, 38, PARTICIPANTS_MAX as int);
        wire::lemma_agree_join(a, i, b, j, 15, 1368);
    }
}

/// The cars and names of all participants.
#[derive(Debug, Clone, Copy)]
pub struct ParticipantsInfo {
    pub header: Header,
    pub participant_visibility: u8,
    pub participants: [Info; PARTICIPANTS_MAX],
    pub _reserved: [u8; 512],
}

impl ParticipantsInfo {
    /// Size on the wire.
    pub const BYTES: usize = 8195;
}

impl Record for ParticipantsInfo {
    open spec fn size() -> nat {
        8195
    }

    open spec fn decodes(self, b: Seq<u8>, at: int) -> bool {
        &&& self.header.decodes(b, at)
        &&& self.participant_visibility == b[at + 14]
        &&& forall|k: int|
            0 <= k < PARTICIPANTS_MAX ==> (#[trigger] self.participants@[k]).decodes(b, at + 15 + 213 * k)
        &&& self._reserved@ == b.subrange(at + 7683, at + 8195)
    }

    fn read(buf: &[u8], at: usize) -> (r: Self) {
        ParticipantsInfo {
            header: Header::read(buf, at),
            participant_visibility: wire::read_u8(buf, at + 14),
            participants: wire::read_records::<Info, PARTICIPANTS_MAX>(buf, at + 15, Info::BYTES),
            _reserved: wire::read_bytes::<512>(buf, at + 7683),
        }
    }
}

impl Dense for ParticipantsInfo {
    proof fn lemma_faithful(self, a: Seq<u8>, i: int, b: Seq<u8>, j: int) {
        self.header.lemma_faithful(a, i, b, j);
        wire::lemma_u8_agree(a, i + 14, b, j + 14);
        wire::lemma_agree_join(a, i, b, j, 14, 1);
        wire::lemma_records_agree(self.participants@, a, i + 15, b, j + 15, 213, PARTICIPANTS_MAX as int);
        wire::lemma_agree_join(a, i, b, j, 15, 7668);
        assert(wire::agree(a, i + 7683, b, j + 7683, 512));
        wire::lemma_agree_join(a, i, b, j, 7683, 512);
    }
}

/// The damage of all cars.
#[derive(Debug, Clone, Copy)]
pub struct ParticipantsDamage {
    pub header: Header,
    pub participant_visibility: u8,
    pub participants: [Damage; PARTICIPANTS_MAX],
    pub _reserved: [u8; 256],
}

impl ParticipantsDamage {
    /// Size on the wire.
    pub const BYTES: usize = 1027;
}

impl Record for ParticipantsDamage {
    open spec fn size() -> nat {
        1027
    }

    open spec fn decodes(self, b: Seq<u8>, at: int) -> bool {
        &&& self.header.decodes(b, at)
        &&& self.participant_visibility == b[at + 14]
        &&& forall|k: int|
            0 <= k < PARTICIPANTS_MAX ==> (#[trigger] self.participants@[k]).decodes(b, at + 15 + 21 * k)
        &&& self._reserved@ == b.subrange(at + 771, at + 1027)
    }

    fn read(buf: &[u8], at: usize) -> (r: Self) {
        ParticipantsDamage {
            header: Header::read(buf, at),
            participant_visibility: wire::read_u8(buf, at + 14),
            participants: wire::read_records::<Damage, PARTICIPANTS_MAX>(buf, at + 15, Damage::BYTES),
            _reserved: wire::read_bytes::<256>(buf, at + 771),
        }
    }
}

impl Dense for ParticipantsDamage {
    proof fn lemma_faithful(self, a: Seq<u8>, i: int, b: Seq<u8>, j: int) {
        self.header.lemma_faithful(a, i, b, j);
        wire::lemma_u8_agree(a, i + 14, b, j + 14);
        wire::lemma_agree_join(a, i, b, j, 14, 1);
        wire::lemma_records_agree(self.participants@, a, i + 15, b, j + 15, 21, PARTICIPANTS_MAX as int);
        wire::lemma_agree_join(a, i, b, j, 15, 756);
        assert(wire::agree(a, i + 771, b, j + 771, 256));
        wire::lemma_agree_join(a, i, b, j, 771, 256);
    }
}

/// Bit `i` of a string of bits that runs from the low bit of each byte to its
/// high bit.
pub open spec fn bit_at(b: Seq<u8>, i: int) -> u8 {
    (b[i / 8] >> ((i % 8) as u8)) & 1
}

/// The number in the three bits from bit `3 * part` on.
pub open spec fn packed_state(b: Seq<u8>, part: int) -> int {
    bit_at(b, 3 * part) + 2 * bit_at(b, 3 * part + 1) + 4 * bit_at(b, 3 * part + 2)
}

impl Damage {
    /// The damage state of every part, in the order of [`damage_part`].
    pub fn states(&self) -> (r: [u8; damage_part::COUNT])
        ensures
            forall|p: int|
                0 <= p < damage_part::COUNT ==> #[trigger] r@[p] == packed_state(
                    self.damage_states@,
                    p,
                ),
    {
        let mut out: [u8; damage_part::COUNT] = [0u8;damage_part::COUNT];
        let mut i: usize = 0;
        while i < damage_part::COUNT
            invariant
                i <= damage_part::COUNT,
                forall|p: int|
                    0 <= p < i ==> #[trigger] out@[p] == packed_state(self.damage_states@, p),
            decreases damage_part::COUNT - i,
        {
            let bit_pos: usize = i * DAMAGE_BITS_PER_PART;
            let byte_index: usize = bit_pos / 8;
            let bit_offset: u8 = (bit_pos % 8) as u8;
            let x: u8 = self.damage_states[byte_index];
            let y: u8 = self.damage_states[byte_index + 1];
            let low: u8 = (x >> bit_offset) & 0b111;
            let state: u8 = if bit_offset > 5 {
                low | ((y << (8 - bit_offset)) & 0b111)
            } else {
                low
            };
            proof {
                lemma_three_bits(x, y, bit_offset);
                let b = self.damage_states@;
                assert forall|j: int| 0 <= j < 3 implies #[trigger] bit_at(b, 3 * i + j)
                    == across(x, y, (bit_offset + j) as u8) by {
                    let n = 3 * i + j;
                    if bit_offset + j < 8 {
                        assert(n / 8 == byte_index && n % 8 == bit_offset + j);
                    } else {
                        assert(n / 8 == byte_index + 1 && n % 8 == bit_offset + j - 8);
                    }
                }
                assert(bit_at(b, 3 * i + 0) == across(x, y, bit_offset));
                assert(bit_at(b, 3 * i + 1) == across(x, y, (bit_offset + 1) as u8));
                assert(bit_at(b, 3 * i + 2) == across(x, y, (bit_offset + 2) as u8));
            }
            out[i] = state;
            i = i + 1;
        }
        out
    }
}

/// Bit `i` of two bytes, one after the other.
spec fn across(x: u8, y: u8, i: u8) -> u8 {
    if i < 8 {
        (x >> i) & 1
    } else {
        (y >> ((i - 8) as u8)) & 1
    }
}

proof fn lemma_three_bits(x: u8, y: u8, o: u8)
    requires
        o < 8,
    ensures
        o <= 5 ==> (x >> o) & 0b111 == across(x, y, o) + 2 * across(x, y, (o + 1) as u8) + 4
            * across(x, y, (o + 2) as u8),
        o > 5 ==> ((x >> o) & 0b111) | ((y << ((8 - o) as u8)) & 0b111) == across(x, y, o) + 2
            * across(x, y, (o + 1) as u8) + 4 * across(x, y, (o + 2) as u8),
{
    assert(o <= 5 ==> (x >> o) & 0b111 == ((x >> o) & 1) + 2 * ((x >> ((o + 1) as u8)) & 1) + 4 * ((
    x >> ((o + 2) as u8)) & 1)) by (bit_vector)
        requires
            o < 8,
    ;
    assert(((x >> 6u8) & 0b111) | ((y << 2u8) & 0b111) == ((x >> 6u8) & 1) + 2 * ((x >> 7u8) & 1)
        + 4 * ((y >> 0u8) & 1)) by (bit_vector);
    assert(((x >> 7u8) & 0b111) | ((y << 1u8) & 0b111) == ((x >> 7u8) & 1) + 2 * ((y >> 0u8) & 1)
        + 4 * ((y >> 1u8) & 1)) by (bit_vector);
}

/// States below eight that were packed three bits each, low bits first, are
/// what unpacking gives back.
pub proof fn lemma_packed_states_recovered(b: Seq<u8>, states: Seq<u8>, part: int)
    requires
        0 <= part < states.len(),
        states[part] < 8,
        bit_at(b, 3 * part) == states[part] & 1,
        bit_at(b, 3 * part + 1) == (states[part] >> 1u8) & 1,
        bit_at(b, 3 * part + 2) == (states[part] >> 2u8) & 1,
    ensures
        packed_state(b, part) == states[part],
{
    let s = states[part];
    assert((s & 1) + 2 * ((s >> 1u8) & 1) + 4 * ((s >> 2u8) & 1) == s) by (bit_vector)
        requires
            s < 8,
    ;
}

impl Header {
    pub fn packet_type(&self) -> (r: Option<PacketType>)
        ensures
            r matches Some(v) ==> v.code() == self.packet_type,
            r is None ==> forall|v: PacketType| #[trigger] v.code() != self.packet_type,
    {
        PacketType::from_u8(self.packet_type)
    }

    pub fn status_flags(&self) -> (r: GameStatusFlags)
        ensures
            r.0 == self.status_flags,
    {
        GameStatusFlags(self.status_flags)
    }
}

impl Session {
    pub fn game_mode(&self) -> (r: Option<GameMode>)
        ensures
            r matches Some(v) ==> v.code() == self.game_mode,
            r is None ==> forall|v: GameMode| #[trigger] v.code() != self.game_mode,
    {
        GameMode::from_u8(self.game_mode)
    }

    pub fn damage_mode(&self) -> (r: Option<DamageMode>)
        ensures
            r matches Some(v) ==> v.code() == self.damage_mode,
            r is None ==> forall|v: DamageMode| #[trigger] v.code() != self.damage_mode,
    {
        DamageMode::from_u8(self.damage_mode)
    }

    pub fn status(&self) -> (r: Option<SessionStatus>)
        ensures
            r matches Some(v) ==> v.code() == self.status,
            r is None ==> forall|v: SessionStatus| #[trigger] v.code() != self.status,
    {
        SessionStatus::from_u8(self.status)
    }
}

impl Assists {
    pub fn flags(&self) -> (r: AssistFlags)
        ensures
            r.0 == self.flags,
    {
        AssistFlags(self.flags)
    }

    pub fn gearbox(&self) -> (r: Option<AssistGearbox>)
        ensures
            r matches Some(v) ==> v.code() == self.assist_gearbox,
            r is None ==> forall|v: AssistGearbox| #[trigger] v.code() != self.assist_gearbox,
    {
        AssistGearbox::from_u8(self.assist_gearbox)
    }

    pub fn abs(&self) -> (r: Option<AssistLevel>)
        ensures
            r matches Some(v) ==> v.code() == self.level_abs,
            r is None ==> forall|v: AssistLevel| #[trigger] v.code() != self.level_abs,
    {
        AssistLevel::from_u8(self.level_abs)
    }

    pub fn tcs(&self) -> (r: Option<AssistLevel>)
        ensures
            r matches Some(v) ==> v.code() == self.level_tcs,
            r is None ==> forall|v: AssistLevel| #[trigger] v.code() != self.level_tcs,
    {
        AssistLevel::from_u8(self.level_tcs)
    }

    pub fn esc(&self) -> (r: Option<AssistLevel>)
        ensures
            r matches Some(v) ==> v.code() == self.level_esc,
            r is None ==> forall|v: AssistLevel| #[trigger] v.code() != self.level_esc,
    {
        AssistLevel::from_u8(self.level_esc)
    }
}

impl Driveline {
    pub fn driveline_type(&self) -> (r: Option<DrivelineType>)
        ensures
            r matches Some(v) ==> v.code() == self.driveline_type,
            r is None ==> forall|v: DrivelineType| #[trigger] v.code() != self.driveline_type,
    {
        DrivelineType::from_u8(self.driveline_type)
    }
}

impl Engine {
    pub fn flags(&self) -> (r: EngineFlags)
        ensures
            r.0 == self.flags,
    {
        EngineFlags(self.flags)
    }
}

impl Tire {
    pub fn surface_type(&self) -> (r: Option<SurfaceType>)
        ensures
            r matches Some(v) ==> v.code() == self.surface_type,
            r is None ==> forall|v: SurfaceType| #[trigger] v.code() != self.surface_type,
    {
        SurfaceType::from_u8(self.surface_type)
    }
}

impl InputExtended {
    pub fn flags(&self) -> (r: InputFlags)
        ensures
            r.0 == self.flags,
    {
        InputFlags(self.flags)
    }
}

impl Leaderboard {
    pub fn status(&self) -> (r: Option<ParticipantStatus>)
        ensures
            r matches Some(v) ==> v.code() == self.status,
            r is None ==> forall|v: ParticipantStatus| #[trigger] v.code() != self.status,
    {
        ParticipantStatus::from_u8(self.status)
    }

    pub fn track_status(&self) -> (r: Option<TrackStatus>)
        ensures
            r matches Some(v) ==> v.code() == self.track_status,
            r is None ==> forall|v: TrackStatus| #[trigger] v.code() != self.track_status,
    {
        TrackStatus::from_u8(self.track_status)
    }
}

impl Main {
    pub fn marshal_flags(&self) -> (r: MarshalFlags)
        ensures
            r.0 == self.marshal_flags_player,
    {
        MarshalFlags(self.marshal_flags_player)
    }

    pub fn player_status(&self) -> (r: PlayerStatusFlags)
        ensures
            r.0 == self.player_status_flags,
    {
        PlayerStatusFlags(self.player_status_flags)
    }
}

/// A packet of any kind: an owned copy of what the bytes hold.
#[derive(Debug, Clone, Copy)]
pub enum Packet {
    Main(Main),
    ParticipantsLeaderboard(ParticipantsLeaderboard),
    ParticipantsTiming(ParticipantsTiming),
    ParticipantsTimingSectors(ParticipantsTimingSectors),
    ParticipantsMotion(ParticipantsMotion),
    ParticipantsInfo(ParticipantsInfo),
    ParticipantsDamage(ParticipantsDamage),
}

impl Packet {
    /// Which record the packet holds.
    pub open spec fn kind(self) -> PacketType {
        match self {
            Packet::Main(_) => PacketType::Main,
            Packet::ParticipantsLeaderboard(_) => PacketType::ParticipantsLeaderboard,
            Packet::ParticipantsTiming(_) => PacketType::ParticipantsTiming,
            Packet::ParticipantsTimingSectors(_) => PacketType::ParticipantsTimingSectors,
            Packet::ParticipantsMotion(_) => PacketType::ParticipantsMotion,
            Packet::ParticipantsInfo(_) => PacketType::ParticipantsInfo,
            Packet::ParticipantsDamage(_) => PacketType::ParticipantsDamage,
        }
    }

    /// Whether the packet is what the bytes hold.
    pub open spec fn decodes(self, b: Seq<u8>) -> bool {
        match self {
            Packet::Main(p) => p.decodes(b, 0),
            Packet::ParticipantsLeaderboard(p) => p.decodes(b, 0),
            Packet::ParticipantsTiming(p) => p.decodes(b, 0),
            Packet::ParticipantsTimingSectors(p) => p.decodes(b, 0),
            Packet::ParticipantsMotion(p) => p.decodes(b, 0),
            Packet::ParticipantsInfo(p) => p.decodes(b, 0),
            Packet::ParticipantsDamage(p) => p.decodes(b, 0),
        }
    }

    pub open spec fn spec_header(self) -> Header {
        match self {
            Packet::Main(p) => p.header,
            Packet::ParticipantsLeaderboard(p) => p.header,
            Packet::ParticipantsTiming(p) => p.header,
            Packet::ParticipantsTimingSectors(p) => p.header,
            Packet::ParticipantsMotion(p) => p.header,
            Packet::ParticipantsInfo(p) => p.header,
            Packet::ParticipantsDamage(p) => p.header,
        }
    }

    pub fn header(&self) -> (r: Header)
        ensures
            r == self.spec_header(),
    {
        match self {
            Packet::Main(p) => p.header,
            Packet::ParticipantsLeaderboard(p) => p.header,
            Packet::ParticipantsTiming(p) => p.header,
            Packet::ParticipantsTimingSectors(p) => p.header,
            Packet::ParticipantsMotion(p) => p.header,
            Packet::ParticipantsInfo(p) => p.header,
            Packet::ParticipantsDamage(p) => p.header,
        }
    }
}

/// How many bytes a packet of the given kind takes.
pub open spec fn packet_size(kind: PacketType) -> nat {
    match kind {
        PacketType::Main => Main::size(),
        PacketType::ParticipantsLeaderboard => ParticipantsLeaderboard::size(),
        PacketType::ParticipantsTiming => ParticipantsTiming::size(),
        PacketType::ParticipantsTimingSectors => ParticipantsTimingSectors::size(),
        PacketType::ParticipantsMotion => ParticipantsMotion::size(),
        PacketType::ParticipantsInfo => ParticipantsInfo::size(),
        PacketType::ParticipantsDamage => ParticipantsDamage::size(),
    }
}

/// Whether the bytes hold a packet of the given kind.
pub open spec fn holds(b: Seq<u8>, kind: PacketType) -> bool {
    &&& b.len() >= packet_size(kind)
    &&& wire::u32_at(b, 0) == SIGNATURE
    &&& b[4] == kind.code()
}

/// A packet is a byte-for-byte copy: datagrams that hold the same packet hold
/// the same bytes, as far as the packet reaches.
pub proof fn lemma_packet_is_a_copy(p: Packet, a: Seq<u8>, b: Seq<u8>)
    requires
        holds(a, p.kind()),
        holds(b, p.kind()),
        p.decodes(a),
        p.decodes(b),
    ensures
        a.take(packet_size(p.kind()) as int) == b.take(packet_size(p.kind()) as int),
{
    match p {
        Packet::Main(q) => q.lemma_faithful(a, 0, b, 0),
        Packet::ParticipantsLeaderboard(q) => q.lemma_faithful(a, 0, b, 0),
        Packet::ParticipantsTiming(q) => q.lemma_faithful(a, 0, b, 0),
        Packet::ParticipantsTimingSectors(q) => q.lemma_faithful(a, 0, b, 0),
        Packet::ParticipantsMotion(q) => q.lemma_faithful(a, 0, b, 0),
        Packet::ParticipantsInfo(q) => q.lemma_faithful(a, 0, b, 0),
        Packet::ParticipantsDamage(q) => q.lemma_faithful(a, 0, b, 0),
    }
}

fn read_if_long_enough<T: Record>(buf: &[u8], size: usize) -> (r: Option<T>)
    requires
        size == T::size(),
    ensures
        r is Some <==> buf.len() >= size,
        r matches Some(v) ==> v.decodes(buf@, 0),
{
    if buf.len() < size {
        return None;
    }
    Some(T::read(buf, 0))
}

/// Parses any packet. There is none where the bytes are too few for the header
/// or for the packet that it announces, where the signature differs, or where
/// the packet type is unknown.
pub fn parse(buf: &[u8]) -> (r: Option<Packet>)
    ensures
        r matches Some(p) ==> holds(buf@, p.kind()) && p.decodes(buf@),
        r is None ==> forall|kind: PacketType| !#[trigger] holds(buf@, kind),
        forall|sent: Packet| #[trigger]
            layout::wreckfest::arrives(sent, buf@) ==> r == Some(sent),
{
    let r: Option<Packet> = parse_announced(buf);
    proof {
        assert forall|sent: Packet| #[trigger] layout::wreckfest::arrives(sent, buf@) implies r
            == Some(sent) by {
            layout::wreckfest::lemma_packet_read_back(sent, r, buf@);
        }
    }
    r
}

/// The packet that the header announces.
fn parse_announced(buf: &[u8]) -> (r: Option<Packet>)
    ensures
        r matches Some(p) ==> holds(buf@, p.kind()) && p.decodes(buf@),
        r is None ==> forall|kind: PacketType| !#[trigger] holds(buf@, kind),
{
    let header: Header = match read_if_long_enough::<Header>(buf, Header::BYTES) {
        Some(h) => h,
        None => {
            return None;
        },
    };
    if header.signature != SIGNATURE {
        return None;
    }
    let kind: PacketType = match header.packet_type() {
        Some(k) => k,
        None => {
            return None;
        },
    };
    let r: Option<Packet> = match kind {
        PacketType::Main => match read_if_long_enough::<Main>(buf, Main::BYTES) {
            Some(p) => Some(Packet::Main(p)),
            None => None,
        },
        PacketType::ParticipantsLeaderboard => match read_if_long_enough::<ParticipantsLeaderboard>(
            buf,
            ParticipantsLeaderboard::BYTES,
        ) {
            Some(p) => Some(Packet::ParticipantsLeaderboard(p)),
            None => None,
        },
        PacketType::ParticipantsTiming => match read_if_long_enough::<ParticipantsTiming>(
            buf,
            ParticipantsTiming::BYTES,
        ) {
            Some(p) => Some(Packet::ParticipantsTiming(p)),
            None => None,
        },
        PacketType::ParticipantsTimingSectors => match read_if_long_enough::<
            ParticipantsTimingSectors,
        >(buf, ParticipantsTimingSectors::BYTES) {
            Some(p) => Some(Packet::ParticipantsTimingSectors(p)),
            None => None,
        },
        PacketType::ParticipantsMotion => match read_if_long_enough::<ParticipantsMotion>(
            buf,
            ParticipantsMotion::BYTES,
        ) {
            Some(p) => Some(Packet::ParticipantsMotion(p)),
            None => None,
        },
        PacketType::ParticipantsInfo => match read_if_long_enough::<ParticipantsInfo>(
            buf,
            ParticipantsInfo::BYTES,
        ) {
            Some(p) => Some(Packet::ParticipantsInfo(p)),
            None => None,
        },
        PacketType::ParticipantsDamage => match read_if_long_enough::<ParticipantsDamage>(
            buf,
            ParticipantsDamage::BYTES,
        ) {
            Some(p) => Some(Packet::ParticipantsDamage(p)),
            None => None,
        },
    };
    proof {
        assert forall|k: PacketType| r is None implies !#[trigger] holds(buf@, k) by {
            if k.code() == kind.code() {
                assert(k == kind);
            }
        }
    }
    r
}

/// Three bytes hold the states of eight parts: as one number, the low byte first,
/// they have the state of the first part as their lowest octal digit, that of the
/// second as the next one, and so on.
pub proof fn lemma_three_bytes_hold_eight_states(b: Seq<u8>, group: int)
    requires
        0 <= group,
        3 * group + 3 <= b.len(),
    ensures
        ({
            let n = b[3 * group] + 0x100 * b[3 * group + 1] + 0x1_0000 * b[3 * group + 2];
            let p = 8 * group;
            &&& packed_state(b, p) == n % 8
            &&& packed_state(b, p + 1) == (n / 8) % 8
            &&& packed_state(b, p + 2) == (n / 0x40) % 8
            &&& packed_state(b, p + 3) == (n / 0x200) % 8
            &&& packed_state(b, p + 4) == (n / 0x1000) % 8
            &&& packed_state(b, p + 5) == (n / 0x8000) % 8
            &&& packed_state(b, p + 6) == (n / 0x4_0000) % 8
            &&& packed_state(b, p + 7) == (n / 0x20_0000) % 8
        }),
{
    let x = b[3 * group];
    let y = b[3 * group + 1];
    let z = b[3 * group + 2];
    lemma_octal_digits(x, y, z);
    assert forall|k: int| 0 <= k < 24 implies #[trigger] bit_at(b, 24 * group + k) == if k < 8 {
        (x >> (k as u8)) & 1
    } else if k < 16 {
        (y >> ((k - 8) as u8)) & 1
    } else {
        (z >> ((k - 16) as u8)) & 1
    } by {
        let i = 24 * group + k;
        if k < 8 {
            assert(i / 8 == 3 * group && i % 8 == k);
        } else if k < 16 {
            assert(i / 8 == 3 * group + 1 && i % 8 == k - 8);
        } else {
            assert(i / 8 == 3 * group + 2 && i % 8 == k - 16);
        }
    }
    let o = 24 * group;
    assert(bit_at(b, o + 0) == bit_at(b, o));
}

/// The octal digits of a number of three bytes, bit by bit.
proof fn lemma_octal_digits(x: u8, y: u8, z: u8)
    ensures
        ({
            let n = x + 0x100 * y + 0x1_0000 * z;
            &&& n % 8 == ((x >> 0u8) & 1) + 2 * ((x >> 1u8) & 1) + 4 * ((x >> 2u8) & 1)
            &&& (n / 8) % 8 == ((x >> 3u8) & 1) + 2 * ((x >> 4u8) & 1) + 4 * ((x >> 5u8) & 1)
            &&& (n / 0x40) % 8 == ((x >> 6u8) & 1) + 2 * ((x >> 7u8) & 1) + 4 * ((y >> 0u8) & 1)
            &&& (n / 0x200) % 8 == ((y >> 1u8) & 1) + 2 * ((y >> 2u8) & 1) + 4 * ((y >> 3u8) & 1)
            &&& (n / 0x1000) % 8 == ((y >> 4u8) & 1) + 2 * ((y >> 5u8) & 1) + 4 * ((y >> 6u8) & 1)
            &&& (n / 0x8000) % 8 == ((y >> 7u8) & 1) + 2 * ((z >> 0u8) & 1) + 4 * ((z >> 1u8) & 1)
            &&& (n / 0x4_0000) % 8 == ((z >> 2u8) & 1) + 2 * ((z >> 3u8) & 1) + 4 * ((z >> 4u8) & 1)
            &&& (n / 0x20_0000) % 8 == ((z >> 5u8) & 1) + 2 * ((z >> 6u8) & 1) + 4 * ((z >> 7u8)
                & 1)
        }),
{
    let n: u32 = (x + 0x100 * y + 0x1_0000 * z) as u32;
    assert(n % 8 == ((x >> 0u8) & 1) + 2 * ((x >> 1u8) & 1) + 4 * ((x >> 2u8) & 1)
        && (n / 8) % 8 == ((x >> 3u8) & 1) + 2 * ((x >> 4u8) & 1) + 4 * ((x >> 5u8) & 1)) by (bit_vector)
        requires
            n == x + 0x100 * y + 0x1_0000 * z,
    ;
    assert((n / 0x40) % 8 == ((x >> 6u8) & 1) + 2 * ((x >> 7u8) & 1) + 4 * ((y >> 0u8) & 1)
        && (n / 0x200) % 8 == ((y >> 1u8) & 1) + 2 * ((y >> 2u8) & 1) + 4 * ((y >> 3u8) & 1)) by (bit_vector)
        requires
            n == x + 0x100 * y + 0x1_0000 * z,
    ;
    assert((n / 0x1000) % 8 == ((y >> 4u8) & 1) + 2 * ((y >> 5u8) & 1) + 4 * ((y >> 6u8) & 1)
        && (n / 0x8000) % 8 == ((y >> 7u8) & 1) + 2 * ((z >> 0u8) & 1) + 4 * ((z >> 1u8) & 1)) by (bit_vector)
        requires
            n == x + 0x100 * y + 0x1_0000 * z,
    ;
    assert((n / 0x4_0000) % 8 == ((z >> 2u8) & 1) + 2 * ((z >> 3u8) & 1) + 4 * ((z >> 4u8) & 1)
        && (n / 0x20_0000) % 8 == ((z >> 5u8) & 1) + 2 * ((z >> 6u8) & 1) + 4 * ((z >> 7u8) & 1)) by (bit_vector)
        requires
            n == x + 0x100 * y + 0x1_0000 * z,
    ;
}

} // verus!
