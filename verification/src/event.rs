//! Plain data model of the decoded event schema: challenge and stage
//! enumerations, tick-stamped events, and stage NPC records.
//!
//! The binary codec that produces these values is an external collaborator;
//! the host decodes raw blobs and hands the core these plain shapes.

use vstd::prelude::*;

verus! {

/// Enumerated challenge content.
#[derive(Debug, Clone, Copy, PartialEq, Eq, Structural)]
pub enum ChallengeType {
    Tob,
    Cox,
    Toa,
    Colosseum,
    Inferno,
}

/// Enumerated challenge variant.
#[derive(Debug, Clone, Copy, PartialEq, Eq, Structural)]
pub enum ChallengeMode {
    NoMode,
    TobEntry,
    TobRegular,
    TobHard,
}

/// One sub-encounter within a challenge.
#[derive(Debug, Clone, Copy, PartialEq, Eq, Structural)]
pub enum Stage {
    TobMaiden,
    TobBloat,
    TobNylocas,
    TobSotetseg,
    TobXarpus,
    TobVerzik,
    ColosseumWave1,
    ColosseumWave2,
    ColosseumWave3,
    ColosseumWave4,
    ColosseumWave5,
    ColosseumWave6,
    ColosseumWave7,
    ColosseumWave8,
    ColosseumWave9,
    ColosseumWave10,
    ColosseumWave11,
    ColosseumWave12,
}

/// Dense index of a stage, in challenge progression order.
pub open spec fn stage_index(stage: Stage) -> int {
    match stage {
        Stage::TobMaiden => 0,
        Stage::TobBloat => 1,
        Stage::TobNylocas => 2,
        Stage::TobSotetseg => 3,
        Stage::TobXarpus => 4,
        Stage::TobVerzik => 5,
        Stage::ColosseumWave1 => 6,
        Stage::ColosseumWave2 => 7,
        Stage::ColosseumWave3 => 8,
        Stage::ColosseumWave4 => 9,
        Stage::ColosseumWave5 => 10,
        Stage::ColosseumWave6 => 11,
        Stage::ColosseumWave7 => 12,
        Stage::ColosseumWave8 => 13,
        Stage::ColosseumWave9 => 14,
        Stage::ColosseumWave10 => 15,
        Stage::ColosseumWave11 => 16,
        Stage::ColosseumWave12 => 17,
    }
}

/// The stage with dense index `value`, for `value <= 17`.
pub open spec fn spec_stage_from_index(value: int) -> Stage {
    if value == 0 {
        Stage::TobMaiden
    } else if value == 1 {
        Stage::TobBloat
    } else if value == 2 {
        Stage::TobNylocas
    } else if value == 3 {
        Stage::TobSotetseg
    } else if value == 4 {
        Stage::TobXarpus
    } else if value == 5 {
        Stage::TobVerzik
    } else if value == 6 {
        Stage::ColosseumWave1
    } else if value == 7 {
        Stage::ColosseumWave2
    } else if value == 8 {
        Stage::ColosseumWave3
    } else if value == 9 {
        Stage::ColosseumWave4
    } else if value == 10 {
        Stage::ColosseumWave5
    } else if value == 11 {
        Stage::ColosseumWave6
    } else if value == 12 {
        Stage::ColosseumWave7
    } else if value == 13 {
        Stage::ColosseumWave8
    } else if value == 14 {
        Stage::ColosseumWave9
    } else if value == 15 {
        Stage::ColosseumWave10
    } else if value == 16 {
        Stage::ColosseumWave11
    } else {
        Stage::ColosseumWave12
    }
}

impl Stage {
    /// Number of supported stages.
    pub const COUNT: usize = 18;

    /// Dense index of this stage, in `0..18`.
    pub fn index(self) -> (i: usize)
        ensures
            i == stage_index(self),
    {
        match self {
            Stage::TobMaiden => 0,
            Stage::TobBloat => 1,
            Stage::TobNylocas => 2,
            Stage::TobSotetseg => 3,
            Stage::TobXarpus => 4,
            Stage::TobVerzik => 5,
            Stage::ColosseumWave1 => 6,
            Stage::ColosseumWave2 => 7,
            Stage::ColosseumWave3 => 8,
            Stage::ColosseumWave4 => 9,
            Stage::ColosseumWave5 => 10,
            Stage::ColosseumWave6 => 11,
            Stage::ColosseumWave7 => 12,
            Stage::ColosseumWave8 => 13,
            Stage::ColosseumWave9 => 14,
            Stage::ColosseumWave10 => 15,
            Stage::ColosseumWave11 => 16,
            Stage::ColosseumWave12 => 17,
        }
    }

    /// The stage with dense index `value`, if any.
    pub fn from_index(value: usize) -> (r: Option<Stage>)
        ensures
            value <= 17 ==> (r matches Some(s) && s == spec_stage_from_index(value as int)),
            value > 17 ==> r is None,
    {
        if value == 0 {
            Some(Stage::TobMaiden)
        } else if value == 1 {
            Some(Stage::TobBloat)
        } else if value == 2 {
            Some(Stage::TobNylocas)
        } else if value == 3 {
            Some(Stage::TobSotetseg)
        } else if value == 4 {
            Some(Stage::TobXarpus)
        } else if value == 5 {
            Some(Stage::TobVerzik)
        } else if value == 6 {
            Some(Stage::ColosseumWave1)
        } else if value == 7 {
            Some(Stage::ColosseumWave2)
        } else if value == 8 {
            Some(Stage::ColosseumWave3)
        } else if value == 9 {
            Some(Stage::ColosseumWave4)
        } else if value == 10 {
            Some(Stage::ColosseumWave5)
        } else if value == 11 {
            Some(Stage::ColosseumWave6)
        } else if value == 12 {
            Some(Stage::ColosseumWave7)
        } else if value == 13 {
            Some(Stage::ColosseumWave8)
        } else if value == 14 {
            Some(Stage::ColosseumWave9)
        } else if value == 15 {
            Some(Stage::ColosseumWave10)
        } else if value == 16 {
            Some(Stage::ColosseumWave11)
        } else if value == 17 {
            Some(Stage::ColosseumWave12)
        } else {
            None
        }
    }

    /// True when this stage comes strictly before `other` in progression
    /// order.
    pub fn is_before(self, other: Stage) -> (r: bool)
        ensures
            r == (stage_index(self) < stage_index(other)),
    {
        self.index() < other.index()
    }
}

/// Discriminant of an event record.
#[derive(Debug, Clone, Copy, PartialEq, Eq, Structural)]
pub enum EventType {
    PlayerAttack,
    PlayerDeath,
    PlayerUpdate,
    NpcSpawn,
    NpcUpdate,
    NpcDeath,
    NpcAttack,
    Unknown,
}

/// Dense index of an event type, for per-type index tables.
pub open spec fn event_type_index(t: EventType) -> int {
    match t {
        EventType::PlayerAttack => 0,
        EventType::PlayerDeath => 1,
        EventType::PlayerUpdate => 2,
        EventType::NpcSpawn => 3,
        EventType::NpcUpdate => 4,
        EventType::NpcDeath => 5,
        EventType::NpcAttack => 6,
        EventType::Unknown => 7,
    }
}

impl EventType {
    /// Number of event types.
    pub const COUNT: usize = 8;

    /// Dense index of this event type, in `0..8`.
    pub fn index(self) -> (i: usize)
        ensures
            i == event_type_index(self),
    {
        match self {
            EventType::PlayerAttack => 0,
            EventType::PlayerDeath => 1,
            EventType::PlayerUpdate => 2,
            EventType::NpcSpawn => 3,
            EventType::NpcUpdate => 4,
            EventType::NpcDeath => 5,
            EventType::NpcAttack => 6,
            EventType::Unknown => 7,
        }
    }
}

/// Kinds of attacks a player can perform.
#[derive(Debug, Clone, Copy, PartialEq, Eq, Structural)]
pub enum PlayerAttack {
    BgsSmack,
    BgsSpec,
    Blowpipe,
    BlowpipeSpec,
    Bowfa,
    ChallySwipe,
    ChallySpec,
    ChinBlack,
    ChinGrey,
    ChinRed,
    ClawScratch,
    ClawSpec,
    DawnSpec,
    DinhsBash,
    DinhsSpec,
    DualMacuahuitl,
    Fang,
    HammerBop,
    HammerSpec,
    HamJoint,
    KodaiBarrage,
    KodaiBash,
    NmStaffBarrage,
    NmStaffBash,
    Saeldor,
    Sang,
    SangBarrage,
    SceptreBarrage,
    Scythe,
    ScytheUncharged,
    Shadow,
    ShadowBarrage,
    SotdBarrage,
    StaffOfLightBarrage,
    StaffOfLightSwipe,
    SwiftBlade,
    TentWhip,
    ToxicTrident,
    ToxicTridentBarrage,
    ToxicStaffBarrage,
    ToxicStaffSwipe,
    Trident,
    TridentBarrage,
    TwistedBow,
    Zcb,
    UnknownBow,
    UnknownBarrage,
    UnknownPoweredStaff,
    Unknown,
}

/// True when the attack is any ice-barrage cast.
pub open spec fn spec_is_barrage(attack: PlayerAttack) -> bool {
    ||| attack == PlayerAttack::UnknownBarrage
    ||| attack == PlayerAttack::KodaiBarrage
    ||| attack == PlayerAttack::NmStaffBarrage
    ||| attack == PlayerAttack::SangBarrage
    ||| attack == PlayerAttack::SceptreBarrage
    ||| attack == PlayerAttack::ShadowBarrage
    ||| attack == PlayerAttack::SotdBarrage
    ||| attack == PlayerAttack::ToxicTridentBarrage
    ||| attack == PlayerAttack::ToxicStaffBarrage
    ||| attack == PlayerAttack::TridentBarrage
}

/// True when the attack throws chinchompas.
pub open spec fn spec_is_chin(attack: PlayerAttack) -> bool {
    ||| attack == PlayerAttack::ChinBlack
    ||| attack == PlayerAttack::ChinGrey
    ||| attack == PlayerAttack::ChinRed
}

/// Classification helpers on attack kinds.
pub trait PlayerAttackExt {
    /// True when the attack is any ice-barrage cast.
    fn is_barrage(&self) -> bool;

    /// True when the attack throws chinchompas.
    fn is_chin(&self) -> bool;
}

impl PlayerAttackExt for PlayerAttack {
    fn is_barrage(&self) -> (r: bool)
        ensures
            r == spec_is_barrage(*self),
    {
        match self {
            PlayerAttack::UnknownBarrage
            | PlayerAttack::KodaiBarrage
            | PlayerAttack::NmStaffBarrage
            | PlayerAttack::SangBarrage
            | PlayerAttack::SceptreBarrage
            | PlayerAttack::ShadowBarrage
            | PlayerAttack::SotdBarrage
            | PlayerAttack::ToxicTridentBarrage
            | PlayerAttack::ToxicStaffBarrage
            | PlayerAttack::TridentBarrage => true,
            _ => false,
        }
    }

    fn is_chin(&self) -> (r: bool)
        ensures
            r == spec_is_chin(*self),
    {
        match self {
            PlayerAttack::ChinBlack | PlayerAttack::ChinGrey | PlayerAttack::ChinRed => true,
            _ => false,
        }
    }
}

/// A map position.
#[derive(Debug, Clone, Copy, PartialEq, Eq, Structural)]
pub struct Coords {
    pub x: i32,
    pub y: i32,
}

/// Reference to an NPC carried inside an attack event.
#[derive(Debug, Clone, Copy, PartialEq, Eq, Structural)]
pub struct EventNpc {
    pub id: u32,
    pub room_id: u64,
}

/// Attack payload of a `PlayerAttack` event.
#[derive(Debug, Clone, Copy, PartialEq, Eq, Structural)]
pub struct EventAttack {
    pub attack: PlayerAttack,
    pub target: Option<EventNpc>,
}

/// Player payload of a player-scoped event.
#[derive(Debug, Clone, PartialEq, Eq)]
pub struct EventPlayer {
    /// Position of the player within the stage's party list.
    pub party_index: u32,
    /// Active-prayer bitset at this tick.
    pub active_prayers: u64,
    /// First tick at which the player may attack again.
    pub off_cooldown_tick: u32,
    /// Packed skill levels, present only when the event re-asserts them.
    pub attack: Option<u32>,
    pub defence: Option<u32>,
    pub strength: Option<u32>,
    pub hitpoints: Option<u32>,
    pub ranged: Option<u32>,
    pub prayer: Option<u32>,
    pub magic: Option<u32>,
    /// Packed equipment deltas applied at this tick.
    pub equipment_deltas: Vec<u64>,
}

/// One tick-stamped event of a stage's log.
#[derive(Debug, Clone, PartialEq, Eq)]
pub struct Event {
    pub event_type: EventType,
    pub tick: u32,
    pub x_coord: i32,
    pub y_coord: i32,
    pub player: Option<EventPlayer>,
    pub player_attack: Option<EventAttack>,
}

/// The decoded event log of one stage: the stage, the stage-local party
/// order, and the raw (unsorted) event list.
#[derive(Debug, Clone, PartialEq, Eq)]
pub struct ChallengeEvents {
    pub stage: Stage,
    pub party_names: Vec<String>,
    pub events: Vec<Event>,
}

/// Positions in which a crab can spawn at the first boss.
#[derive(Debug, Clone, Copy, PartialEq, Eq, Structural)]
pub enum MaidenCrabPosition {
    N1,
    N2,
    N3,
    N4Inner,
    N4Outer,
    S1,
    S2,
    S3,
    S4Inner,
    S4Outer,
}

/// True for the south-side crab positions.
pub open spec fn spec_is_south_crab(p: MaidenCrabPosition) -> bool {
    ||| p == MaidenCrabPosition::S1
    ||| p == MaidenCrabPosition::S2
    ||| p == MaidenCrabPosition::S3
    ||| p == MaidenCrabPosition::S4Inner
    ||| p == MaidenCrabPosition::S4Outer
}

/// Sides on which a nylo can spawn.
#[derive(Debug, Clone, Copy, PartialEq, Eq, Structural)]
pub enum NyloSpawnType {
    West,
    East,
    South,
    Split,
}

/// Spawn attributes of a nylo.
#[derive(Debug, Clone, Copy, PartialEq, Eq, Structural)]
pub struct NyloSpawn {
    pub wave: u32,
    pub big: bool,
    pub spawn_type: NyloSpawnType,
}

/// Stage-specific attributes of an NPC record.
#[derive(Debug, Clone, Copy, PartialEq, Eq, Structural)]
pub enum NpcType {
    Basic,
    MaidenCrab(MaidenCrabPosition),
    Nylo(NyloSpawn),
}

/// A stage-scoped NPC record, assigned at spawn.
#[derive(Debug, Clone, Copy, PartialEq, Eq, Structural)]
pub struct StageNpc {
    /// Per-room NPC id, unique within a stage.
    pub room_id: u64,
    /// Game id of the spawned NPC.
    pub spawn_npc_id: u32,
    /// Tick at which the NPC spawned.
    pub spawn_tick: u32,
    /// Stage-specific attributes.
    pub npc_type: NpcType,
}

/// The NPC table of one room or wave.
#[derive(Debug, Clone, PartialEq, Eq)]
pub struct RoomNpcs {
    pub npcs: Vec<StageNpc>,
}

/// Per-room NPC tables of a multi-room challenge.
#[derive(Debug, Clone, PartialEq, Eq)]
pub struct TobRooms {
    pub maiden: Option<RoomNpcs>,
    pub bloat: Option<RoomNpcs>,
    pub nylocas: Option<RoomNpcs>,
    pub sotetseg: Option<RoomNpcs>,
    pub xarpus: Option<RoomNpcs>,
    pub verzik: Option<RoomNpcs>,
}

/// Per-wave NPC tables of a wave-based challenge.
#[derive(Debug, Clone, PartialEq, Eq)]
pub struct ColosseumData {
    pub waves: Vec<RoomNpcs>,
}

/// The stage-data variants of a challenge-data blob.
#[derive(Debug, Clone, PartialEq, Eq)]
pub enum StageData {
    TobRooms(TobRooms),
    Colosseum(ColosseumData),
}

/// Decoded challenge-wide data.
#[derive(Debug, Clone, PartialEq, Eq)]
pub struct ChallengeData {
    pub stage_data: Option<StageData>,
}

/// The NPC table recorded for `stage`, as a spec-level sequence; empty when
/// the data holds none.
pub open spec fn spec_npcs_for_stage(data: ChallengeData, stage: Stage) -> Seq<StageNpc> {
    match data.stage_data {
        Some(StageData::TobRooms(rooms)) => {
            let room = match stage {
                Stage::TobMaiden => rooms.maiden,
                Stage::TobBloat => rooms.bloat,
                Stage::TobNylocas => rooms.nylocas,
                Stage::TobSotetseg => rooms.sotetseg,
                Stage::TobXarpus => rooms.xarpus,
                Stage::TobVerzik => rooms.verzik,
                _ => None,
            };
            match room {
                Some(r) => r.npcs@,
                None => Seq::empty(),
            }
        },
        Some(StageData::Colosseum(colo)) => {
            let w = stage_index(stage) - stage_index(Stage::ColosseumWave1);
            if 0 <= w < colo.waves@.len() && stage_index(stage) >= stage_index(
                Stage::ColosseumWave1,
            ) {
                colo.waves@[w].npcs@
            } else {
                Seq::empty()
            }
        },
        None => Seq::empty(),
    }
}

/// Copies an NPC table.
fn copy_npcs(npcs: &Vec<StageNpc>) -> (r: Vec<StageNpc>)
    ensures
        r@ == npcs@,
{
    let mut out: Vec<StageNpc> = Vec::new();
    let n = npcs.len();
    let mut i: usize = 0;
    while i < n
        invariant
            i <= n,
            n == npcs@.len(),
            out@ == npcs@.subrange(0, i as int),
        decreases n - i,
    {
        out.push(npcs[i]);
        proof {
            assert(out@ =~= npcs@.subrange(0, i + 1 as int));
        }
        i = i + 1;
    }
    proof {
        assert(out@ =~= npcs@);
    }
    out
}

/// Extracts the NPC table recorded for `stage` from the challenge-wide data.
pub fn npcs_for_stage(data: &ChallengeData, stage: Stage) -> (r: Vec<StageNpc>)
    ensures
        r@ == spec_npcs_for_stage(*data, stage),
{
    match &data.stage_data {
        Some(StageData::TobRooms(rooms)) => {
            let room = match stage {
                Stage::TobMaiden => &rooms.maiden,
                Stage::TobBloat => &rooms.bloat,
                Stage::TobNylocas => &rooms.nylocas,
                Stage::TobSotetseg => &rooms.sotetseg,
                Stage::TobXarpus => &rooms.xarpus,
                Stage::TobVerzik => &rooms.verzik,
                _ => &None,
            };
            match room {
                Some(r) => copy_npcs(&r.npcs),
                None => Vec::new(),
            }
        },
        Some(StageData::Colosseum(colo)) => {
            let si = stage.index();
            let first = Stage::ColosseumWave1.index();
            if si >= first && si - first < colo.waves.len() {
                copy_npcs(&colo.waves[si - first].npcs)
            } else {
                Vec::new()
            }
        },
        None => Vec::new(),
    }
}

} // verus!
