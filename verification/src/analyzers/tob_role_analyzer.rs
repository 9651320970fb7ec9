//! The role analyzer attempts to determine the role of every player within a
//! multi-room challenge of the first supported type.
//!
//! Runs that reach the third room can be analyzed with a high degree of
//! accuracy; runs that end earlier are analyzed from first-room behaviour.
//! The analyzer assumes the roles of the current meta, and takes an
//! all-or-nothing approach: if it cannot assign a role to every player, it
//! fails outright.

use vstd::prelude::*;

use crate::analysis::{AnalyzerImpl, AnalyzerOutput, Context};
use crate::challenge::{challenge_wf, Challenge};
use crate::error::Error;
use crate::event::{
    event_type_index, spec_is_barrage, spec_is_chin, ChallengeMode, ChallengeType, PlayerAttack,
    PlayerAttackExt, Stage,
};
use crate::item;
use crate::npc::{spec_is_maiden_matomenos, NpcExt};
use crate::player::PlayerAttacked;
use vstd::multiset::Multiset;
use crate::stage::{
    spec_attacks, spec_party_index, stage_player_states, stage_wf, PlayerStates, StageInfo,
};

use super::gear_analyzer::{
    self, spec_has, spec_has_in_challenge, spec_player_gear_index, PlayerGear,
};

verus! {

broadcast use {
    vstd::multiset::group_multiset_axioms,
    vstd::seq_lib::group_to_multiset_ensures,
    vstd::seq_lib::lemma_multiset_commutative,
};

/// A well-defined meta role for a player.
#[derive(Debug, Clone, Copy, PartialEq, Eq, Structural)]
pub enum Role {
    Solo,
    DuoMage,
    DuoRanger,
    Mage,
    Ranger,
    Melee,
    MeleeFreeze,
}

/// True for the roles responsible for freezing.
pub open spec fn spec_is_freezer(role: Role) -> bool {
    ||| role == Role::Mage
    ||| role == Role::MeleeFreeze
    ||| role == Role::DuoMage
}

impl Role {
    /// Returns whether the role is responsible for freezing.
    pub fn is_freezer(self) -> (r: bool)
        ensures
            r == spec_is_freezer(self),
    {
        match self {
            Role::Mage | Role::MeleeFreeze | Role::DuoMage => true,
            _ => false,
        }
    }
}

/// A role responsibility within one room.
#[derive(Debug, Clone, Copy, PartialEq, Eq, Structural)]
pub enum SubRole {
    MaidenSoloFreezer,
    MaidenNorthFreezer,
    MaidenSouthFreezer,
    MaidenChinner,
    NyloWestMage,
    NyloEastMage,
    NyloWestMelee,
    NyloEastMelee,
}

/// The roles assigned to one player: the primary role and any room
/// sub-roles.
#[derive(Debug)]
pub struct PlayerRoles(pub Role, pub Vec<SubRole>);

impl PlayerRoles {
    /// The player's primary role.
    pub fn role(&self) -> (r: Role)
        ensures
            r == self.0,
    {
        self.0
    }

    /// Returns whether the player carries the given sub-role.
    pub fn has_sub_role(&self, sub_role: SubRole) -> (r: bool)
        ensures
            r == self.1@.contains(sub_role),
    {
        let n = self.1.len();
        let mut i: usize = 0;
        while i < n
            invariant
                i <= n,
                n == self.1@.len(),
                forall|j: int| 0 <= j < i ==> (#[trigger] self.1@[j]) != sub_role,
            decreases n - i,
        {
            if self.1[i] == sub_role {
                return true;
            }
            i = i + 1;
        }
        false
    }
}

/// How certainly a player's observed behaviour matches a candidate role.
#[derive(Debug, Clone, Copy, PartialEq, Eq, Structural)]
pub enum MatchCertainty {
    Strong,
    Weak,
    NoMatch,
}

/// True when the attack targets a red crab at the first boss.
pub open spec fn spec_targets_matomenos(a: PlayerAttacked) -> bool {
    a.target matches Some(t) && spec_is_maiden_matomenos(t.spawn_npc_id)
}

/// True when the player ever barraged a red crab at the first boss.
pub open spec fn spec_has_barraged_crabs(attacks: Seq<(u32, PlayerAttacked)>) -> bool {
    exists|i: int|
        0 <= i < attacks.len() && spec_is_barrage((#[trigger] attacks[i]).1.attack)
            && spec_targets_matomenos(attacks[i].1)
}

/// True when the player ever chinned a red crab at the first boss.
pub open spec fn spec_has_chinned_crabs(attacks: Seq<(u32, PlayerAttacked)>) -> bool {
    exists|i: int|
        0 <= i < attacks.len() && spec_is_chin((#[trigger] attacks[i]).1.attack)
            && spec_targets_matomenos(attacks[i].1)
}

/// True when the attack is one of the two bulwark attacks.
pub open spec fn spec_is_dinhs_attack(a: PlayerAttack) -> bool {
    a == PlayerAttack::DinhsSpec || a == PlayerAttack::DinhsBash
}

/// True when the player ever used a bulwark attack on a red crab at the first
/// boss.
pub open spec fn spec_has_dinhs_attack(attacks: Seq<(u32, PlayerAttacked)>) -> bool {
    exists|i: int|
        0 <= i < attacks.len() && spec_is_dinhs_attack((#[trigger] attacks[i]).1.attack)
            && spec_targets_matomenos(attacks[i].1)
}

/// Behavioural evidence gathered from first-room data.
pub ghost struct PreNyloEvidence {
    pub has_barraged: bool,
    pub has_chinned: bool,
    pub has_dinhs: bool,
    pub has_melee_weapon: bool,
}

/// The first-room evidence of a player: crab barrages, crab chins, bulwark
/// use (by attack or carried bulwark), and a third-room melee weapon carried
/// anywhere in the challenge.
pub open spec fn spec_pre_nylo_evidence(
    attacks: Seq<(u32, PlayerAttacked)>,
    gear: gear_analyzer::GearInfo,
) -> PreNyloEvidence {
    PreNyloEvidence {
        has_barraged: spec_has_barraged_crabs(attacks),
        has_chinned: spec_has_chinned_crabs(attacks),
        has_dinhs: spec_has_dinhs_attack(attacks) || spec_has(
            gear,
            Stage::TobMaiden,
            item::Id::DINHS_BULWARK,
        ) || spec_has(gear, Stage::TobMaiden, item::Id::DINHS_BLAZING_BULWARK),
        has_melee_weapon: spec_has_in_challenge(gear, item::Id::SWIFT_BLADE)
            || spec_has_in_challenge(gear, item::Id::HAM_JOINT) || spec_has_in_challenge(
            gear,
            item::Id::DUAL_MACUAHUITL,
        ),
    }
}

/// The first-room match table: how certainly the evidence matches a role.
pub open spec fn spec_match_pre_nylo(
    role: Role,
    mode: ChallengeMode,
    scale: int,
    ev: PreNyloEvidence,
) -> MatchCertainty {
    let is_hmt = mode == ChallengeMode::TobHard;
    match role {
        Role::DuoMage => if ev.has_barraged || ev.has_melee_weapon {
            MatchCertainty::Strong
        } else {
            MatchCertainty::NoMatch
        },
        Role::DuoRanger => if ev.has_chinned {
            MatchCertainty::Strong
        } else if !ev.has_barraged {
            MatchCertainty::Weak
        } else {
            MatchCertainty::NoMatch
        },
        Role::Mage => if ev.has_barraged {
            if ev.has_chinned || (scale == 3 && !is_hmt) || scale == 5 {
                MatchCertainty::Strong
            } else if !ev.has_melee_weapon {
                MatchCertainty::Weak
            } else {
                MatchCertainty::NoMatch
            }
        } else {
            MatchCertainty::NoMatch
        },
        Role::Ranger => if ev.has_chinned && !ev.has_barraged {
            MatchCertainty::Weak
        } else {
            MatchCertainty::NoMatch
        },
        Role::Melee => if ev.has_dinhs || (ev.has_melee_weapon && !ev.has_barraged) {
            MatchCertainty::Strong
        } else if is_hmt && ev.has_melee_weapon && ev.has_barraged {
            MatchCertainty::Weak
        } else {
            MatchCertainty::NoMatch
        },
        Role::MeleeFreeze => if ev.has_barraged && ev.has_melee_weapon {
            MatchCertainty::Strong
        } else {
            MatchCertainty::NoMatch
        },
        Role::Solo => MatchCertainty::Strong,
    }
}

/// Behavioural evidence gathered from third-room data.
pub ghost struct NyloEvidence {
    pub num_swifts: int,
    pub num_pipes: int,
    pub num_4t_melees: int,
    pub has_barraged: bool,
    pub has_chinned: bool,
    pub has_paint_cannon: bool,
}

/// True when the attack uses one of the third-room melee mainhand weapons.
pub open spec fn spec_is_swift_attack(a: PlayerAttack) -> bool {
    a == PlayerAttack::SwiftBlade || a == PlayerAttack::HamJoint || a == PlayerAttack::DualMacuahuitl
}

/// True when the attack is a 4-tick melee filler.
pub open spec fn spec_is_4t_melee(a: PlayerAttack) -> bool {
    a == PlayerAttack::ClawScratch || a == PlayerAttack::TentWhip
}

/// True when the attack uses a blowpipe.
pub open spec fn spec_is_pipe_attack(a: PlayerAttack) -> bool {
    a == PlayerAttack::Blowpipe || a == PlayerAttack::BlowpipeSpec
}

/// The third-room evidence of a player: attack-kind counts, barrage and chin
/// use, and a carried paint cannon.
pub open spec fn spec_nylo_evidence(
    attacks: Seq<(u32, PlayerAttacked)>,
    gear: gear_analyzer::GearInfo,
) -> NyloEvidence {
    NyloEvidence {
        num_swifts: attacks.filter(|a: (u32, PlayerAttacked)| spec_is_swift_attack(a.1.attack)).len() as int,
        num_pipes: attacks.filter(|a: (u32, PlayerAttacked)| spec_is_pipe_attack(a.1.attack)).len() as int,
        num_4t_melees: attacks.filter(
            |a: (u32, PlayerAttacked)| spec_is_4t_melee(a.1.attack),
        ).len() as int,
        has_barraged: exists|i: int|
            0 <= i < attacks.len() && spec_is_barrage((#[trigger] attacks[i]).1.attack)
                && !spec_is_swift_attack(attacks[i].1.attack) && !spec_is_4t_melee(
                attacks[i].1.attack,
            ) && !spec_is_pipe_attack(attacks[i].1.attack),
        has_chinned: exists|i: int|
            0 <= i < attacks.len() && spec_is_chin((#[trigger] attacks[i]).1.attack)
                && !spec_is_swift_attack(attacks[i].1.attack) && !spec_is_4t_melee(
                attacks[i].1.attack,
            ) && !spec_is_pipe_attack(attacks[i].1.attack),
        has_paint_cannon: spec_has(gear, Stage::TobNylocas, item::Id::GOBLIN_PAINT_CANNON),
    }
}

/// The threshold for the number of 4-tick melees a player must have to be
/// considered a meleer using a 4-tick mainhand weapon. Set high to avoid
/// false positives from other roles that fill ticks with such attacks.
pub const MELEE_4T_THRESHOLD: u32 = 12;

/// True when the third-room evidence shows dedicated melee behaviour.
pub open spec fn spec_has_meleed(ev: NyloEvidence) -> bool {
    ev.num_swifts > 1 || ev.num_4t_melees > MELEE_4T_THRESHOLD
}

/// The third-room match table: how certainly the evidence matches a role.
pub open spec fn spec_match_nylo(role: Role, scale: int, ev: NyloEvidence) -> MatchCertainty {
    let has_meleed = spec_has_meleed(ev);
    match role {
        Role::Solo => MatchCertainty::Strong,
        Role::DuoMage => if ev.has_barraged || has_meleed {
            MatchCertainty::Strong
        } else {
            MatchCertainty::NoMatch
        },
        Role::DuoRanger => if ev.num_pipes > 30 {
            MatchCertainty::Strong
        } else if !has_meleed {
            MatchCertainty::Weak
        } else {
            MatchCertainty::NoMatch
        },
        Role::Mage => if ev.has_barraged {
            if scale == 4 {
                MatchCertainty::Weak
            } else {
                MatchCertainty::Strong
            }
        } else {
            MatchCertainty::NoMatch
        },
        Role::MeleeFreeze => if scale == 4 && ev.has_barraged {
            if has_meleed {
                MatchCertainty::Strong
            } else if ev.has_paint_cannon {
                MatchCertainty::Weak
            } else {
                MatchCertainty::NoMatch
            }
        } else {
            MatchCertainty::NoMatch
        },
        Role::Ranger => if ev.has_chinned {
            MatchCertainty::Strong
        } else if ev.num_pipes > 20 {
            MatchCertainty::Weak
        } else {
            MatchCertainty::NoMatch
        },
        Role::Melee => if has_meleed || ev.has_paint_cannon {
            MatchCertainty::Weak
        } else {
            MatchCertainty::NoMatch
        },
    }
}

/// The role analyzer; it takes no configuration.
#[derive(Debug)]
pub struct TobRoleAnalyzer {}

impl TobRoleAnalyzer {
    /// Builds the analyzer.
    pub fn new() -> TobRoleAnalyzer {
        TobRoleAnalyzer {}
    }
}

/// Gathers a player's first-room evidence from their attacks and gear.
fn gather_pre_nylo_evidence(
    attacks: &Vec<(u32, PlayerAttacked)>,
    player_gear: &gear_analyzer::Player,
) -> (r: (bool, bool, bool, bool))
    ensures
        ({
            let ev = spec_pre_nylo_evidence(attacks@, *player_gear.gear);
            r.0 == ev.has_barraged && r.1 == ev.has_chinned && r.2 == ev.has_dinhs && r.3
                == ev.has_melee_weapon
        }),
{
    let n = attacks.len();
    let mut has_barraged = false;
    let mut has_chinned = false;
    let mut has_dinhs = false;
    let mut i: usize = 0;
    while i < n
        invariant
            i <= n,
            n == attacks@.len(),
            has_barraged == exists|j: int|
                0 <= j < i && spec_is_barrage((#[trigger] attacks@[j]).1.attack)
                    && spec_targets_matomenos(attacks@[j].1),
            has_chinned == exists|j: int|
                0 <= j < i && spec_is_chin((#[trigger] attacks@[j]).1.attack)
                    && spec_targets_matomenos(attacks@[j].1),
            has_dinhs == exists|j: int|
                0 <= j < i && spec_is_dinhs_attack((#[trigger] attacks@[j]).1.attack)
                    && spec_targets_matomenos(attacks@[j].1),
        decreases n - i,
    {
        let (_, atk) = attacks[i];
        let on_crab = match &atk.target {
            Some(t) => t.is_maiden_matomenos(),
            None => false,
        };
        if on_crab {
            if atk.attack.is_barrage() {
                has_barraged = true;
            } else if atk.attack.is_chin() {
                has_chinned = true;
            } else if atk.attack == PlayerAttack::DinhsSpec || atk.attack == PlayerAttack::DinhsBash {
                has_dinhs = true;
            }
        }
        i = i + 1;
    }
    let has_melee_weapon = player_gear.has_in_challenge(item::Id::SWIFT_BLADE)
        || player_gear.has_in_challenge(item::Id::HAM_JOINT) || player_gear.has_in_challenge(
        item::Id::DUAL_MACUAHUITL,
    );
    let has_dinhs = has_dinhs || player_gear.has(Stage::TobMaiden, item::Id::DINHS_BULWARK)
        || player_gear.has(Stage::TobMaiden, item::Id::DINHS_BLAZING_BULWARK);
    (has_barraged, has_chinned, has_dinhs, has_melee_weapon)
}

/// Judges how certainly a player's first-room behaviour matches a candidate
/// role.
fn try_match_role_pre_nylo(
    role: Role,
    mode: ChallengeMode,
    scale: usize,
    attacks: &Vec<(u32, PlayerAttacked)>,
    player_gear: &gear_analyzer::Player,
) -> (r: MatchCertainty)
    ensures
        r == spec_match_pre_nylo(
            role,
            mode,
            scale as int,
            spec_pre_nylo_evidence(attacks@, *player_gear.gear),
        ),
{
    let (has_barraged, has_chinned, has_dinhs, has_melee_weapon) = gather_pre_nylo_evidence(
        attacks,
        player_gear,
    );
    let is_hmt = mode == ChallengeMode::TobHard;

    match role {
        Role::DuoMage => {
            if has_barraged || has_melee_weapon {
                MatchCertainty::Strong
            } else {
                MatchCertainty::NoMatch
            }
        },
        Role::DuoRanger => {
            if has_chinned {
                MatchCertainty::Strong
            } else if !has_barraged {
                MatchCertainty::Weak
            } else {
                MatchCertainty::NoMatch
            }
        },
        Role::Mage => {
            if has_barraged {
                if has_chinned || (scale == 3 && !is_hmt) || scale == 5 {
                    MatchCertainty::Strong
                } else if !has_melee_weapon {
                    MatchCertainty::Weak
                } else {
                    MatchCertainty::NoMatch
                }
            } else {
                MatchCertainty::NoMatch
            }
        },
        Role::Ranger => {
            if has_chinned && !has_barraged {
                MatchCertainty::Weak
            } else {
                MatchCertainty::NoMatch
            }
        },
        Role::Melee => {
            if has_dinhs || (has_melee_weapon && !has_barraged) {
                MatchCertainty::Strong
            } else if is_hmt && has_melee_weapon && has_barraged {
                // Hard-mode trios typically have the meleer freeze at the
                // first boss as well.
                MatchCertainty::Weak
            } else {
                MatchCertainty::NoMatch
            }
        },
        Role::MeleeFreeze => {
            if has_barraged && has_melee_weapon {
                MatchCertainty::Strong
            } else {
                MatchCertainty::NoMatch
            }
        },
        Role::Solo => MatchCertainty::Strong,
    }
}

/// Judges how certainly a player's third-room behaviour matches a candidate
/// role.
fn try_match_role_nylo(
    role: Role,
    scale: usize,
    attacks: &Vec<(u32, PlayerAttacked)>,
    player_gear: &gear_analyzer::Player,
) -> (r: MatchCertainty)
    ensures
        r == spec_match_nylo(role, scale as int, spec_nylo_evidence(attacks@, *player_gear.gear)),
{
    let n = attacks.len();
    let mut num_swifts: usize = 0;
    let mut num_pipes: usize = 0;
    let mut num_4t_melees: usize = 0;
    let mut has_barraged = false;
    let mut has_chinned = false;
    let swift_pred = Ghost(|a: (u32, PlayerAttacked)| spec_is_swift_attack(a.1.attack));
    let pipe_pred = Ghost(|a: (u32, PlayerAttacked)| spec_is_pipe_attack(a.1.attack));
    let melee4t_pred = Ghost(|a: (u32, PlayerAttacked)| spec_is_4t_melee(a.1.attack));
    let mut i: usize = 0;
    while i < n
        invariant
            i <= n,
            n == attacks@.len(),
            swift_pred@ == (|a: (u32, PlayerAttacked)| spec_is_swift_attack(a.1.attack)),
            pipe_pred@ == (|a: (u32, PlayerAttacked)| spec_is_pipe_attack(a.1.attack)),
            melee4t_pred@ == (|a: (u32, PlayerAttacked)| spec_is_4t_melee(a.1.attack)),
            num_swifts == attacks@.subrange(0, i as int).filter(swift_pred@).len(),
            num_pipes == attacks@.subrange(0, i as int).filter(pipe_pred@).len(),
            num_4t_melees == attacks@.subrange(0, i as int).filter(melee4t_pred@).len(),
            has_barraged == exists|j: int|
                0 <= j < i && spec_is_barrage((#[trigger] attacks@[j]).1.attack)
                    && !spec_is_swift_attack(attacks@[j].1.attack) && !spec_is_4t_melee(
                    attacks@[j].1.attack,
                ) && !spec_is_pipe_attack(attacks@[j].1.attack),
            has_chinned == exists|j: int|
                0 <= j < i && spec_is_chin((#[trigger] attacks@[j]).1.attack)
                    && !spec_is_swift_attack(attacks@[j].1.attack) && !spec_is_4t_melee(
                    attacks@[j].1.attack,
                ) && !spec_is_pipe_attack(attacks@[j].1.attack),
        decreases n - i,
    {
        let ghost pre = attacks@.subrange(0, i as int);
        let (_, atk) = attacks[i];
        match atk.attack {
            PlayerAttack::SwiftBlade | PlayerAttack::HamJoint | PlayerAttack::DualMacuahuitl => {
                num_swifts = num_swifts + 1;
            },
            PlayerAttack::ClawScratch | PlayerAttack::TentWhip => {
                num_4t_melees = num_4t_melees + 1;
            },
            PlayerAttack::Blowpipe | PlayerAttack::BlowpipeSpec => {
                num_pipes = num_pipes + 1;
            },
            other => {
                if other.is_barrage() {
                    has_barraged = true;
                } else if other.is_chin() {
                    has_chinned = true;
                }
            },
        }
        proof {
            let cur = attacks@.subrange(0, i + 1);
            assert(cur =~= pre.push(attacks@[i as int]));
            pre.lemma_filter_push(attacks@[i as int], swift_pred@);
            pre.lemma_filter_push(attacks@[i as int], pipe_pred@);
            pre.lemma_filter_push(attacks@[i as int], melee4t_pred@);
            pre.lemma_filter_len(swift_pred@);
            pre.lemma_filter_len(pipe_pred@);
            pre.lemma_filter_len(melee4t_pred@);
        }
        i = i + 1;
    }
    proof {
        assert(attacks@.subrange(0, n as int) =~= attacks@);
    }

    let has_meleed = num_swifts > 1 || num_4t_melees > MELEE_4T_THRESHOLD as usize;
    let has_paint_cannon = player_gear.has(Stage::TobNylocas, item::Id::GOBLIN_PAINT_CANNON);

    match role {
        Role::Solo => MatchCertainty::Strong,
        Role::DuoMage => {
            if has_barraged || has_meleed {
                MatchCertainty::Strong
            } else {
                MatchCertainty::NoMatch
            }
        },
        Role::DuoRanger => {
            if num_pipes > 30 {
                MatchCertainty::Strong
            } else if !has_meleed {
                MatchCertainty::Weak
            } else {
                MatchCertainty::NoMatch
            }
        },
        Role::Mage => {
            if has_barraged {
                if scale == 4 {
                    MatchCertainty::Weak
                } else {
                    MatchCertainty::Strong
                }
            } else {
                MatchCertainty::NoMatch
            }
        },
        Role::MeleeFreeze => {
            if scale == 4 && has_barraged {
                if has_meleed {
                    MatchCertainty::Strong
                } else if has_paint_cannon {
                    MatchCertainty::Weak
                } else {
                    MatchCertainty::NoMatch
                }
            } else {
                MatchCertainty::NoMatch
            }
        },
        Role::Ranger => {
            if has_chinned {
                MatchCertainty::Strong
            } else if num_pipes > 20 {
                MatchCertainty::Weak
            } else {
                MatchCertainty::NoMatch
            }
        },
        Role::Melee => {
            if has_meleed || has_paint_cannon {
                MatchCertainty::Weak
            } else {
                MatchCertainty::NoMatch
            }
        },
    }
}

/// The candidate role pool for a party of the given scale.
pub open spec fn spec_scale_roles(scale: int) -> Seq<Role> {
    if scale == 2 {
        seq![Role::DuoMage, Role::DuoRanger]
    } else if scale == 3 {
        seq![Role::Mage, Role::Ranger, Role::Melee]
    } else if scale == 4 {
        seq![Role::Mage, Role::MeleeFreeze, Role::Ranger, Role::Melee]
    } else if scale == 5 {
        seq![Role::Mage, Role::Mage, Role::Ranger, Role::Melee, Role::Melee]
    } else {
        Seq::empty()
    }
}

/// Builds the candidate role pool for the given scale; `None` for
/// unsupported scales.
fn scale_roles(scale: usize) -> (r: Option<Vec<Role>>)
    ensures
        2 <= scale <= 5 ==> (r matches Some(v) && v@ == spec_scale_roles(scale as int)),
        !(2 <= scale <= 5) ==> r is None,
{
    let mut v: Vec<Role> = Vec::new();
    if scale == 2 {
        v.push(Role::DuoMage);
        v.push(Role::DuoRanger);
        proof {
            assert(v@ =~= spec_scale_roles(2));
        }
        Some(v)
    } else if scale == 3 {
        v.push(Role::Mage);
        v.push(Role::Ranger);
        v.push(Role::Melee);
        proof {
            assert(v@ =~= spec_scale_roles(3));
        }
        Some(v)
    } else if scale == 4 {
        v.push(Role::Mage);
        v.push(Role::MeleeFreeze);
        v.push(Role::Ranger);
        v.push(Role::Melee);
        proof {
            assert(v@ =~= spec_scale_roles(4));
        }
        Some(v)
    } else if scale == 5 {
        v.push(Role::Mage);
        v.push(Role::Mage);
        v.push(Role::Ranger);
        v.push(Role::Melee);
        v.push(Role::Melee);
        proof {
            assert(v@ =~= spec_scale_roles(5));
        }
        Some(v)
    } else {
        None
    }
}

/// The name views of a list of name-keyed pairs.
pub open spec fn spec_pair_names<T>(v: Seq<(String, T)>) -> Seq<Seq<char>> {
    v.map_values(|e: (String, T)| e.0@)
}

/// The name views of a party list.
pub open spec fn spec_name_views(party: Seq<String>) -> Seq<Seq<char>> {
    party.map_values(|s: String| s@)
}

/// The roles of a list of name-keyed assignments.
pub open spec fn spec_pair_roles(v: Seq<(String, Role)>) -> Seq<Role> {
    v.map_values(|e: (String, Role)| e.1)
}

/// Appending an assignment appends its role.
proof fn lemma_pair_roles_push(v: Seq<(String, Role)>, e: (String, Role))
    ensures
        spec_pair_roles(v.push(e)) == spec_pair_roles(v).push(e.1),
{
    assert(spec_pair_roles(v.push(e)) =~= spec_pair_roles(v).push(e.1));
}

/// Copies a role list.
fn copy_roles(v: &Vec<Role>) -> (r: Vec<Role>)
    ensures
        r@ == v@,
{
    let mut out: Vec<Role> = Vec::new();
    let n = v.len();
    let mut i: usize = 0;
    while i < n
        invariant
            i <= n,
            n == v@.len(),
            out@ == v@.subrange(0, i as int),
        decreases n - i,
    {
        out.push(v[i]);
        proof {
            assert(out@ =~= v@.subrange(0, i + 1));
        }
        i = i + 1;
    }
    proof {
        assert(out@ =~= v@);
    }
    out
}

/// Returns whether a role list contains `role`.
fn contains_role(v: &Vec<Role>, role: Role) -> (r: bool)
    ensures
        r == v@.contains(role),
{
    let n = v.len();
    let mut i: usize = 0;
    while i < n
        invariant
            i <= n,
            n == v@.len(),
            forall|j: int| 0 <= j < i ==> (#[trigger] v@[j]) != role,
        decreases n - i,
    {
        if v[i] == role {
            return true;
        }
        i = i + 1;
    }
    false
}

/// Removes the first occurrence of `role`, if any.
fn remove_first_role(v: &mut Vec<Role>, role: Role) -> (r: bool)
    ensures
        r == old(v)@.contains(role),
        r ==> exists|i: int|
            0 <= i < old(v)@.len() && old(v)@[i] == role && final(v)@ == old(v)@.remove(i),
        !r ==> final(v)@ == old(v)@,
{
    let n = v.len();
    let mut i: usize = 0;
    while i < n
        invariant
            i <= n,
            n == v@.len(),
            v@ == old(v)@,
            forall|j: int| 0 <= j < i ==> (#[trigger] v@[j]) != role,
        decreases n - i,
    {
        if v[i] == role {
            v.remove(i);
            return true;
        }
        i = i + 1;
    }
    false
}

/// Removes the first entry whose name reads `name`, if any.
fn remove_first_by_name(v: &mut Vec<(String, usize)>, name: &String) -> (r: Option<(String, usize)>)
    ensures
        match r {
            Some(e) => e.0@ == name@ && exists|i: int|
                0 <= i < old(v)@.len() && old(v)@[i] == e && final(v)@ == old(v)@.remove(i),
            None => final(v)@ == old(v)@ && (forall|j: int|
                0 <= j < old(v)@.len() ==> (#[trigger] old(v)@[j]).0@ != name@),
        },
{
    let n = v.len();
    let mut i: usize = 0;
    while i < n
        invariant
            i <= n,
            n == v@.len(),
            v@ == old(v)@,
            forall|j: int| 0 <= j < i ==> (#[trigger] v@[j]).0@ != name@,
        decreases n - i,
    {
        if v[i].0 == *name {
            let e = v.remove(i);
            return Some(e);
        }
        i = i + 1;
    }
    None
}

/// Returns whether an entry with the given name exists.
fn contains_by_name(v: &Vec<(String, usize)>, name: &String) -> (r: bool)
    ensures
        r == exists|j: int| 0 <= j < v@.len() && (#[trigger] v@[j]).0@ == name@,
{
    let n = v.len();
    let mut i: usize = 0;
    while i < n
        invariant
            i <= n,
            n == v@.len(),
            forall|j: int| 0 <= j < i ==> (#[trigger] v@[j]).0@ != name@,
        decreases n - i,
    {
        if v[i].0 == *name {
            return true;
        }
        i = i + 1;
    }
    false
}

/// Records that `player` weakly matches `role`.
fn add_weak(weak: &mut Vec<(Role, Vec<String>)>, role: Role, player: &String) {
    let n = weak.len();
    let mut i: usize = 0;
    while i < n
        invariant
            i <= n,
            n <= weak@.len(),
        decreases n - i,
    {
        if weak[i].0 == role {
            weak[i].1.push(player.clone());
            return ;
        }
        i = i + 1;
    }
    let mut players: Vec<String> = Vec::new();
    players.push(player.clone());
    weak.push((role, players));
}

/// True when `name` was recorded as weakly matching `role`.
pub open spec fn spec_weak_contains(
    weak: Seq<(Role, Vec<String>)>,
    role: Role,
    name: Seq<char>,
) -> bool {
    exists|i: int, j: int|
        0 <= i < weak.len() && weak[i].0 == role && 0 <= j < weak[i].1@.len() && (
        #[trigger] weak[i].1@[j])@ == name
}

/// Returns whether `player` was recorded as weakly matching `role`.
fn weak_contains(weak: &Vec<(Role, Vec<String>)>, role: Role, player: &String) -> (r: bool)
    ensures
        r == spec_weak_contains(weak@, role, player@),
{
    let n = weak.len();
    let mut i: usize = 0;
    while i < n
        invariant
            i <= n,
            n == weak@.len(),
            forall|a: int, b: int|
                0 <= a < i && weak@[a].0 == role && 0 <= b < weak@[a].1@.len() ==> (
                #[trigger] weak@[a].1@[b])@ != player@,
        decreases n - i,
    {
        if weak[i].0 == role {
            let list = &weak[i].1;
            let m = list.len();
            let mut j: usize = 0;
            while j < m
                invariant
                    j <= m,
                    m == list@.len(),
                    list@ == weak@[i as int].1@,
                    forall|b: int| 0 <= b < j ==> (#[trigger] weak@[i as int].1@[b])@ != player@,
                decreases m - j,
            {
                if list[j] == *player {
                    return true;
                }
                j = j + 1;
            }
        }
        i = i + 1;
    }
    false
}

/// Appending a pair appends its name view.
proof fn lemma_pair_names_push<T>(v: Seq<(String, T)>, e: (String, T))
    ensures
        spec_pair_names(v.push(e)) == spec_pair_names(v).push(e.0@),
{
    assert(spec_pair_names(v.push(e)) =~= spec_pair_names(v).push(e.0@));
}

/// Removing a pair removes its name view.
proof fn lemma_pair_names_remove<T>(v: Seq<(String, T)>, i: int)
    requires
        0 <= i < v.len(),
    ensures
        spec_pair_names(v.remove(i)) == spec_pair_names(v).remove(i),
{
    assert(spec_pair_names(v.remove(i)) =~= spec_pair_names(v).remove(i));
}

/// Appending a name appends its view.
proof fn lemma_name_views_push(v: Seq<String>, s: String)
    ensures
        spec_name_views(v.push(s)) == spec_name_views(v).push(s@),
{
    assert(spec_name_views(v.push(s)) =~= spec_name_views(v).push(s@));
}

/// The names of the strong and unassigned pools together are exactly the
/// party's names.
pub open spec fn spec_names_partition(
    strong: Seq<(String, Role)>,
    unassigned: Seq<(String, usize)>,
    party: Seq<String>,
) -> bool {
    spec_pair_names(strong).to_multiset().add(spec_pair_names(unassigned).to_multiset())
        == spec_name_views(party).to_multiset()
}

/// Bookkeeping state of a role assignment in progress.
pub struct AssignmentContext {
    /// Roles yet to be assigned.
    pub roles_to_assign: Vec<Role>,
    /// Players definitively matched to a role.
    pub strong: Vec<(String, Role)>,
    /// Players yet to be assigned a role, each with the number of roles they
    /// could potentially match.
    pub unassigned: Vec<(String, usize)>,
    /// Roles with potential matches that are not definitively assigned.
    pub weak: Vec<(Role, Vec<String>)>,
    /// Players who do not match any role due to insufficient information.
    pub not_matching: Vec<String>,
}

/// An event of the indexed type always appears in the per-type index list.
proof fn lemma_type_index_complete(
    all: Seq<crate::event::Event>,
    idxs: Seq<usize>,
    k: int,
    j: int,
)
    requires
        crate::stage::spec_type_indices_ok(all, all.len() as int, k, idxs),
        0 <= j < all.len(),
        event_type_index(all[j].event_type) == k,
    ensures
        idxs.contains(j as usize),
{
}

/// A distinct list of freezing party indices, collected over the complete
/// per-type index of player attacks, counts exactly the stage's freezer set.
#[verifier::rlimit(30)]
proof fn lemma_freezer_count(
    all: Seq<crate::event::Event>,
    idxs: Seq<usize>,
    freezers: Seq<u32>,
)
    requires
        crate::stage::spec_type_indices_ok(
            all,
            all.len() as int,
            event_type_index(crate::event::EventType::PlayerAttack),
            idxs,
        ),
        all.len() <= usize::MAX,
        forall|w: int| 0 <= w < idxs.len() ==> (#[trigger] idxs[w]) < all.len(),
        freezers.no_duplicates(),
        forall|x: u32|
            #[trigger] freezers.contains(x) <==> exists|w: int|
                0 <= w < idxs.len() && spec_is_crab_freeze_event(
                    #[trigger] all[idxs[w] as int],
                ) && all[idxs[w] as int].player->Some_0.party_index == x,
    ensures
        freezers.len() == spec_freezer_indices(all).len(),
{
    assert forall|x: u32|
        #[trigger] freezers.contains(x) <==> spec_freezer_indices(all).contains(x) by {
        if freezers.contains(x) {
            let w = choose|w: int|
                0 <= w < idxs.len() && spec_is_crab_freeze_event(
                    #[trigger] all[idxs[w] as int],
                ) && all[idxs[w] as int].player->Some_0.party_index == x;
            assert((idxs[w] as int) < all.len());
            assert(spec_is_crab_freeze_event(all[idxs[w] as int]));
        }
        if spec_freezer_indices(all).contains(x) {
            let j = choose|j: int|
                0 <= j < all.len() && spec_is_crab_freeze_event(#[trigger] all[j])
                    && all[j].player->Some_0.party_index == x;
            assert(event_type_index(all[j].event_type) == event_type_index(
                crate::event::EventType::PlayerAttack,
            ));
            lemma_type_index_complete(
                all,
                idxs,
                event_type_index(crate::event::EventType::PlayerAttack),
                j,
            );
            assert(idxs.contains(j as usize));
            let v = choose|v: int| 0 <= v <= idxs.len() - 1 && idxs[v] == (j as usize);
            assert((j as usize) as int == j);
            assert(idxs[v] as int == j);
            assert(spec_is_crab_freeze_event(all[idxs[v] as int]));
            assert(exists|w: int|
                0 <= w < idxs.len() && spec_is_crab_freeze_event(
                    #[trigger] all[idxs[w] as int],
                ) && all[idxs[w] as int].player->Some_0.party_index == x);
            assert(freezers.contains(x));
        }
    }
    freezers.unique_seq_to_set();
    assert(freezers.to_set() =~= spec_freezer_indices(all));
}

/// True when the event records a crab freeze in the first room: a player
/// attack whose payload barrages a red crab.
pub open spec fn spec_is_crab_freeze_event(e: crate::event::Event) -> bool {
    &&& e.event_type == crate::event::EventType::PlayerAttack
    &&& e.player is Some
    &&& e.player_attack matches Some(atk) && spec_is_barrage(atk.attack) && (atk.target matches
        Some(t) && spec_is_maiden_matomenos(t.id))
}

/// The party indices seen freezing crabs anywhere in the stage's event log.
pub open spec fn spec_freezer_indices(all: Seq<crate::event::Event>) -> Set<u32> {
    Set::new(
        |pi: u32|
            exists|j: int|
                0 <= j < all.len() && spec_is_crab_freeze_event(#[trigger] all[j])
                    && all[j].player->Some_0.party_index == pi,
    )
}

/// The stage whose evidence the role matcher reads: the third room when the
/// challenge reached it, the first room otherwise.
pub open spec fn spec_evidence_stage(c: Challenge) -> Stage {
    if crate::event::stage_index(c.spec_stage()) >= crate::event::stage_index(
        Stage::TobNylocas,
    ) {
        Stage::TobNylocas
    } else {
        Stage::TobMaiden
    }
}

/// True when evidence gathering must fail: the evidence stage's data is
/// absent, or some party member has no state in it, or no gear information.
pub open spec fn spec_evidence_missing(c: Challenge, gear: PlayerGear) -> bool {
    let st = spec_evidence_stage(c);
    ||| forall|i: int| 0 <= i < c.spec_stages().len() ==> (#[trigger] c.spec_stages()[i]).stage != st
    ||| exists|i: int, p: int|
        0 <= i < c.spec_stages().len() && (#[trigger] c.spec_stages()[i]).stage == st && 0 <= p
            < c.spec_party().len() && (spec_party_index(
            c.spec_stages()[i].party@,
            (#[trigger] c.spec_party()[p])@,
            c.spec_stages()[i].party@.len() as int,
        ) < 0 || spec_player_gear_index(
            gear.players@,
            c.spec_party()[p]@,
            gear.players@.len() as int,
        ) < 0)
}

/// Distinct positions of a challenge's stage list never repeat a stage.
proof fn lemma_stages_distinct(c: Challenge, i: int, j: int)
    requires
        challenge_wf(c),
        0 <= i < j < c.spec_stages().len(),
    ensures
        c.spec_stages()[i].stage != c.spec_stages()[j].stage,
{
    let stages = c.spec_stages().map_values(|s: StageInfo| s.stage);
    let range = crate::challenge::spec_stage_range(c.spec_type(), c.spec_stage());
    let first = crate::challenge::spec_first_stage(c.spec_type())->Some_0;
    let lo = crate::event::stage_index(first);
    let hi = crate::event::stage_index(c.spec_stage());
    assert(stages[i] == range[i] && stages[j] == range[j]);
    assert(range.len() > 0);
    assert(lo <= hi);
    assert(range[i] == crate::event::spec_stage_from_index(lo + i));
    assert(range[j] == crate::event::spec_stage_from_index(lo + j));
    assert(0 <= lo + j <= hi <= 17);
    assert(crate::event::stage_index(crate::event::spec_stage_from_index(lo + i)) == lo + i);
    assert(crate::event::stage_index(crate::event::spec_stage_from_index(lo + j)) == lo + j);
}

/// True when the assignment pair is a strong match under the evidence-stage
/// matcher: the player's attacks in the evidence stage and their gear judge
/// the role `Strong` in the appropriate match table.
pub open spec fn spec_strong_match(
    c: Challenge,
    gear: PlayerGear,
    pair: (String, Role),
) -> bool {
    let st = spec_evidence_stage(c);
    exists|i: int|
        0 <= i < c.spec_stages().len() && (#[trigger] c.spec_stages()[i]).stage == st && {
            let info = c.spec_stages()[i];
            let pidx = spec_party_index(info.party@, pair.0@, info.party@.len() as int);
            let gidx = spec_player_gear_index(gear.players@, pair.0@, gear.players@.len() as int);
            &&& pidx >= 0
            &&& gidx >= 0
            &&& if st == Stage::TobNylocas {
                spec_match_nylo(
                    pair.1,
                    c.spec_party().len() as int,
                    spec_nylo_evidence(
                        spec_attacks(info.player_state@[pidx]@),
                        gear.players@[gidx].1,
                    ),
                ) == MatchCertainty::Strong
            } else {
                spec_match_pre_nylo(
                    pair.1,
                    c.spec_mode(),
                    c.spec_party().len() as int,
                    spec_pre_nylo_evidence(
                        spec_attacks(info.player_state@[pidx]@),
                        gear.players@[gidx].1,
                    ),
                ) == MatchCertainty::Strong
            }
        }
}

/// Evaluates every party member against the remaining candidate roles,
/// using third-room evidence when the challenge reached it and first-room
/// evidence otherwise. The first strong match of a player consumes a role;
/// players without a strong match collect their weak matches, or land in the
/// unmatched bucket.
fn find_role_matches(
    challenge: &Challenge,
    player_gear: &PlayerGear,
    pool: Vec<Role>,
) -> (r: Result<AssignmentContext, Error>)
    requires
        challenge_wf(*challenge),
        pool@.len() == challenge.spec_party().len(),
    ensures
        match r {
            Ok(ctx) => {
                &&& spec_names_partition(ctx.strong@, ctx.unassigned@, challenge.spec_party())
                &&& ctx.roles_to_assign@.len() + ctx.strong@.len() == pool@.len()
                &&& ctx.unassigned@.len() + ctx.strong@.len() == challenge.spec_party().len()
                &&& spec_pair_roles(ctx.strong@).to_multiset().add(
                    ctx.roles_to_assign@.to_multiset(),
                ) == pool@.to_multiset()
                &&& forall|j: int|
                    0 <= j < ctx.roles_to_assign@.len() ==> pool@.contains(
                        #[trigger] ctx.roles_to_assign@[j],
                    )
                &&& forall|j: int|
                    0 <= j < ctx.strong@.len() ==> pool@.contains(
                        (#[trigger] ctx.strong@[j]).1,
                    )
                &&& forall|j: int|
                    0 <= j < ctx.strong@.len() ==> spec_strong_match(
                        *challenge,
                        *player_gear,
                        #[trigger] ctx.strong@[j],
                    )
            },
            Err(e) => e == Error::IncompleteData,
        },
        r is Err <==> spec_evidence_missing(*challenge, *player_gear),
{
    let use_nylo = !challenge.stage().is_before(Stage::TobNylocas);
    let evidence_stage = if use_nylo {
        Stage::TobNylocas
    } else {
        Stage::TobMaiden
    };
    proof {
        assert(evidence_stage == spec_evidence_stage(*challenge));
    }
    let stage_data = match challenge.stage_info(evidence_stage) {
        Some(info) => info,
        None => {
            return Err(Error::IncompleteData);
        },
    };
    let ghost info_index = choose|i: int|
        0 <= i < challenge.spec_stages().len() && challenge.spec_stages()[i] == *stage_data && (
        #[trigger] challenge.spec_stages()[i]).stage == evidence_stage;
    let mode = challenge.mode();
    let party = challenge.party();
    let scale = party.len();
    let num_players = party.len();

    let mut roles = pool;
    let ghost pool0 = roles@;
    let mut strong: Vec<(String, Role)> = Vec::new();
    let mut unassigned: Vec<(String, usize)> = Vec::new();
    let mut weak: Vec<(Role, Vec<String>)> = Vec::new();
    let mut not_matching: Vec<String> = Vec::new();

    let mut p: usize = 0;
    while p < num_players
        invariant
            p <= num_players,
            num_players == challenge.spec_party().len(),
            party@ == challenge.spec_party(),
            challenge_wf(*challenge),
            stage_wf(*stage_data),
            spec_pair_names(strong@).to_multiset().add(spec_pair_names(unassigned@).to_multiset())
                == spec_name_views(party@.subrange(0, p as int)).to_multiset(),
            spec_pair_roles(strong@).to_multiset().add(roles@.to_multiset())
                == pool0.to_multiset(),
            roles@.len() + strong@.len() == pool0.len(),
            unassigned@.len() + strong@.len() == p,
            forall|j: int| 0 <= j < roles@.len() ==> pool0.contains(#[trigger] roles@[j]),
            forall|j: int| 0 <= j < strong@.len() ==> pool0.contains((#[trigger] strong@[j]).1),
            forall|j: int|
                0 <= j < strong@.len() ==> spec_strong_match(
                    *challenge,
                    *player_gear,
                    #[trigger] strong@[j],
                ),
            0 <= info_index < challenge.spec_stages().len(),
            challenge.spec_stages()[info_index] == *stage_data,
            challenge.spec_stages()[info_index].stage == spec_evidence_stage(*challenge),
            forall|q: int|
                0 <= q < p ==> spec_party_index(
                    stage_data.party@,
                    (#[trigger] challenge.spec_party()[q])@,
                    stage_data.party@.len() as int,
                ) >= 0 && spec_player_gear_index(
                    player_gear.players@,
                    challenge.spec_party()[q]@,
                    player_gear.players@.len() as int,
                ) >= 0,
        decreases num_players - p,
    {
        let username = &party[p];
        let states = match stage_player_states(stage_data, username) {
            Some(states) => states,
            None => {
                proof {
                    assert(spec_evidence_missing(*challenge, *player_gear)) by {
                        assert(0 <= info_index < challenge.spec_stages().len() && (
                        #[trigger] challenge.spec_stages()[info_index]).stage
                            == spec_evidence_stage(*challenge) && 0 <= p
                            < challenge.spec_party().len() && spec_party_index(
                            challenge.spec_stages()[info_index].party@,
                            (#[trigger] challenge.spec_party()[p as int])@,
                            challenge.spec_stages()[info_index].party@.len() as int,
                        ) < 0);
                    }
                }
                return Err(Error::IncompleteData);
            },
        };
        let gear = match player_gear.player(username) {
            Some(gear) => gear,
            None => {
                proof {
                    assert(spec_evidence_missing(*challenge, *player_gear)) by {
                        assert(0 <= info_index < challenge.spec_stages().len() && (
                        #[trigger] challenge.spec_stages()[info_index]).stage
                            == spec_evidence_stage(*challenge) && 0 <= p
                            < challenge.spec_party().len() && spec_player_gear_index(
                            player_gear.players@,
                            (#[trigger] challenge.spec_party()[p as int])@,
                            player_gear.players@.len() as int,
                        ) < 0);
                    }
                }
                return Err(Error::IncompleteData);
            },
        };
        let attacks = (PlayerStates { states }).attacks();
        let ghost pidx = spec_party_index(
            stage_data.party@,
            username@,
            stage_data.party@.len() as int,
        );
        let ghost gidx = spec_player_gear_index(
            player_gear.players@,
            username@,
            player_gear.players@.len() as int,
        );

        let mut player_weak: Vec<Role> = Vec::new();
        let mut strong_index: Option<usize> = None;
        let nr = roles.len();
        let mut i: usize = 0;
        while i < nr && strong_index.is_none()
            invariant
                i <= nr,
                nr == roles@.len(),
                strong_index matches Some(k) ==> k < nr && (if use_nylo {
                    spec_match_nylo(
                        roles@[k as int],
                        scale as int,
                        spec_nylo_evidence(attacks@, *gear.gear),
                    ) == MatchCertainty::Strong
                } else {
                    spec_match_pre_nylo(
                        roles@[k as int],
                        mode,
                        scale as int,
                        spec_pre_nylo_evidence(attacks@, *gear.gear),
                    ) == MatchCertainty::Strong
                }),
            decreases nr - i,
        {
            let certainty = if use_nylo {
                try_match_role_nylo(roles[i], scale, &attacks, &gear)
            } else {
                try_match_role_pre_nylo(roles[i], mode, scale, &attacks, &gear)
            };
            match certainty {
                MatchCertainty::Strong => {
                    strong_index = Some(i);
                },
                MatchCertainty::Weak => {
                    player_weak.push(roles[i]);
                },
                MatchCertainty::NoMatch => {},
            }
            i = i + 1;
        }

        let ghost strong0 = strong@;
        let ghost unassigned0 = unassigned@;
        match strong_index {
            Some(k) => {
                let ghost roles_before = roles@;
                let role = roles.remove(k);
                strong.push((username.clone(), role));
                proof {
                    // The pushed pair is a strong match under the
                    // evidence-stage table: witness the evidence stage.
                    let pair = strong@.last();
                    assert(pair.0@ == username@ && pair.1 == roles_before[k as int]);
                    assert(0 <= info_index < challenge.spec_stages().len() && (
                    #[trigger] challenge.spec_stages()[info_index]).stage == spec_evidence_stage(
                        *challenge,
                    ) && {
                        let info = challenge.spec_stages()[info_index];
                        let spidx = spec_party_index(info.party@, pair.0@, info.party@.len() as int);
                        let sgidx = spec_player_gear_index(
                            player_gear.players@,
                            pair.0@,
                            player_gear.players@.len() as int,
                        );
                        &&& spidx >= 0
                        &&& sgidx >= 0
                        &&& if spec_evidence_stage(*challenge) == Stage::TobNylocas {
                            spec_match_nylo(
                                pair.1,
                                challenge.spec_party().len() as int,
                                spec_nylo_evidence(
                                    spec_attacks(info.player_state@[spidx]@),
                                    player_gear.players@[sgidx].1,
                                ),
                            ) == MatchCertainty::Strong
                        } else {
                            spec_match_pre_nylo(
                                pair.1,
                                challenge.spec_mode(),
                                challenge.spec_party().len() as int,
                                spec_pre_nylo_evidence(
                                    spec_attacks(info.player_state@[spidx]@),
                                    player_gear.players@[sgidx].1,
                                ),
                            ) == MatchCertainty::Strong
                        }
                    });
                    assert(spec_strong_match(*challenge, *player_gear, pair));
                    lemma_pair_names_push(strong0, strong@.last());
                    lemma_pair_roles_push(strong0, strong@.last());
                    assert(spec_pair_roles(strong@).to_multiset().add(roles@.to_multiset())
                        =~= spec_pair_roles(strong0).to_multiset().add(
                        roles_before.to_multiset(),
                    ));
                    assert forall|j: int| 0 <= j < roles@.len() implies pool0.contains(
                        #[trigger] roles@[j],
                    ) by {
                        if j < k {
                            assert(roles@[j] == roles_before[j]);
                        } else {
                            assert(roles@[j] == roles_before[j + 1]);
                        }
                    }
                }
            },
            None => {
                if player_weak.len() == 0 {
                    not_matching.push(username.clone());
                } else {
                    let nw = player_weak.len();
                    let mut w: usize = 0;
                    while w < nw
                        invariant
                            w <= nw,
                            nw == player_weak@.len(),
                        decreases nw - w,
                    {
                        add_weak(&mut weak, player_weak[w], username);
                        w = w + 1;
                    }
                }
                unassigned.push((username.clone(), player_weak.len()));
                proof {
                    lemma_pair_names_push(unassigned0, unassigned@.last());
                }
            },
        }
        proof {
            assert(party@.subrange(0, p + 1) =~= party@.subrange(0, p as int).push(
                party@[p as int],
            ));
            lemma_name_views_push(party@.subrange(0, p as int), party@[p as int]);
            assert(spec_pair_names(strong@).to_multiset().add(
                spec_pair_names(unassigned@).to_multiset(),
            ) =~= spec_name_views(party@.subrange(0, p + 1)).to_multiset());
        }
        p = p + 1;
    }
    proof {
        assert(party@.subrange(0, num_players as int) =~= party@);
        // No evidence is missing: the evidence stage exists, and every party
        // member resolves in its party and in the gear output. The stage
        // list never repeats a stage, so the witnessed stage is the only
        // candidate.
        assert(!spec_evidence_missing(*challenge, *player_gear)) by {
            let st = spec_evidence_stage(*challenge);
            if exists|i: int, q: int|
                0 <= i < challenge.spec_stages().len() && (#[trigger] challenge.spec_stages()[i]).stage
                    == st && 0 <= q < challenge.spec_party().len() && (spec_party_index(
                    challenge.spec_stages()[i].party@,
                    (#[trigger] challenge.spec_party()[q])@,
                    challenge.spec_stages()[i].party@.len() as int,
                ) < 0 || spec_player_gear_index(
                    player_gear.players@,
                    challenge.spec_party()[q]@,
                    player_gear.players@.len() as int,
                ) < 0) {
                let (i, q) = choose|i: int, q: int|
                    0 <= i < challenge.spec_stages().len() && (
                    #[trigger] challenge.spec_stages()[i]).stage == st && 0 <= q
                        < challenge.spec_party().len() && (spec_party_index(
                        challenge.spec_stages()[i].party@,
                        (#[trigger] challenge.spec_party()[q])@,
                        challenge.spec_stages()[i].party@.len() as int,
                    ) < 0 || spec_player_gear_index(
                        player_gear.players@,
                        challenge.spec_party()[q]@,
                        player_gear.players@.len() as int,
                    ) < 0);
                if i != info_index {
                    if i < info_index {
                        lemma_stages_distinct(*challenge, i, info_index);
                    } else {
                        lemma_stages_distinct(*challenge, info_index, i);
                    }
                }
                assert(challenge.spec_stages()[i] == *stage_data);
                assert(false);
            }
        }
    }
    Ok(
        AssignmentContext {
            roles_to_assign: roles,
            strong,
            unassigned,
            weak,
            not_matching,
        },
    )
}

/// Moves one (player, role) guess from the unassigned pool into the
/// assignment list, consuming one pool role; does nothing unless both the
/// player and the role are available. Names and counts are conserved.
fn assign_one(
    assigned: &mut Vec<(String, Role)>,
    roles: &mut Vec<Role>,
    unassigned: &mut Vec<(String, usize)>,
    name: &String,
    role: Role,
) -> (ok: bool)
    ensures
        spec_pair_names(final(assigned)@).to_multiset().add(
            spec_pair_names(final(unassigned)@).to_multiset(),
        ) == spec_pair_names(old(assigned)@).to_multiset().add(
            spec_pair_names(old(unassigned)@).to_multiset(),
        ),
        spec_pair_roles(final(assigned)@).to_multiset().add(final(roles)@.to_multiset())
            == spec_pair_roles(old(assigned)@).to_multiset().add(old(roles)@.to_multiset()),
        final(roles)@.len() + final(assigned)@.len() == old(roles)@.len() + old(assigned)@.len(),
        forall|j: int|
            0 <= j < final(roles)@.len() ==> old(roles)@.contains(#[trigger] final(roles)@[j]),
        ok ==> final(assigned)@.len() == old(assigned)@.len() + 1 && final(assigned)@.last().1
            == role && final(assigned)@.subrange(0, old(assigned)@.len() as int)
            == old(assigned)@,
        !ok ==> final(assigned)@ == old(assigned)@ && final(roles)@ == old(roles)@
            && final(unassigned)@ == old(unassigned)@,
{
    if contains_by_name(unassigned, name) && contains_role(roles, role) {
        let ghost u0 = unassigned@;
        let ghost a0 = assigned@;
        let removed = remove_first_by_name(unassigned, name);
        match removed {
            Some(entry) => {
                proof {
                    let i = choose|i: int|
                        0 <= i < u0.len() && u0[i] == entry && unassigned@ == u0.remove(i);
                    lemma_pair_names_remove(u0, i);
                }
                let ghost r0 = roles@;
                remove_first_role(roles, role);
                assigned.push((entry.0, role));
                proof {
                    lemma_pair_names_push(a0, assigned@.last());
                    lemma_pair_roles_push(a0, assigned@.last());
                    assert(spec_pair_names(assigned@).to_multiset().add(
                        spec_pair_names(unassigned@).to_multiset(),
                    ) =~= spec_pair_names(a0).to_multiset().add(
                        spec_pair_names(u0).to_multiset(),
                    ));
                    assert(spec_pair_roles(assigned@).to_multiset().add(roles@.to_multiset())
                        =~= spec_pair_roles(a0).to_multiset().add(r0.to_multiset()));
                    assert(assigned@.subrange(0, a0.len() as int) =~= a0);
                }
                true
            },
            None => {
                proof {
                    assert(false);
                }
                false
            },
        }
    } else {
        false
    }
}

/// Attempts to pigeonhole players who match no role, based on the scale and
/// what roles are left to assign: in 4-scale a lone weak mage beside a
/// claimed mage is the melee freezer; in 3- and 4-scale two unmatched
/// players are split into ranger and melee by Void and ranged-armour
/// ownership; in 5-scale, once a ranger is matched, unmatched players are
/// meleers. Every guess consumes one unassigned player and one pool role.
fn try_guess_unmatched_roles(
    scale: usize,
    strong: &Vec<(String, Role)>,
    roles: &mut Vec<Role>,
    unassigned: &mut Vec<(String, usize)>,
    weak: &Vec<(Role, Vec<String>)>,
    not_matching: &mut Vec<String>,
    player_gear: &PlayerGear,
) -> (r: Vec<(String, Role)>)
    ensures
        spec_pair_names(r@).to_multiset().add(spec_pair_names(final(unassigned)@).to_multiset())
            == spec_pair_names(old(unassigned)@).to_multiset(),
        spec_pair_roles(r@).to_multiset().add(final(roles)@.to_multiset())
            == old(roles)@.to_multiset(),
        old(roles)@.len() == final(roles)@.len() + r@.len(),
        forall|j: int|
            0 <= j < final(roles)@.len() ==> old(roles)@.contains(#[trigger] final(roles)@[j]),
        forall|j: int|
            0 <= j < r@.len() ==> spec_scale_roles(scale as int).contains((#[trigger] r@[j]).1),
{
    let mut assigned: Vec<(String, Role)> = Vec::new();
    let ghost u0 = unassigned@;
    let ghost r0 = roles@;
    proof {
        assert(spec_pair_names(assigned@).to_multiset().add(
            spec_pair_names(unassigned@).to_multiset(),
        ) =~= spec_pair_names(u0).to_multiset());
    }

    // In 4-scale, a lone weak mage beside a strong mage must be the melee
    // freezer.
    if scale == 4 && contains_assigned_role(strong, Role::Mage) {
        match lone_weak_mage(weak) {
            Some(player) => {
                let ghost a_pre = assigned@;
                assign_one(&mut assigned, roles, unassigned, &player, Role::MeleeFreeze);
                proof {
                    assert(spec_scale_roles(4)[1] == Role::MeleeFreeze);
                    assert(spec_scale_roles(4).contains(Role::MeleeFreeze));
                    lemma_guessed_roles(a_pre, assigned@, Role::MeleeFreeze, scale as int);
                }
            },
            None => {},
        }
    }

    // Freezing roles always at least weakly match a mage role, so players
    // without matches must be rangers or meleers. With exactly two of them,
    // their roles may be guessable.
    if not_matching.len() == 2 {
        if scale == 3 || scale == 4 {
            // One of the two must be the ranger and the other the melee.
            // Melee setups may drop Void for other ranged gear, whereas
            // rangers rarely do: a Void owner beside a non-owner is the
            // ranger, if the melee owns dedicated ranged armour.
            let first_void = has_void_any(player_gear, &not_matching[0]);
            let second_void = has_void_any(player_gear, &not_matching[1]);
            if first_void != second_void {
                let potential_ranger = if first_void {
                    not_matching[0].clone()
                } else {
                    not_matching[1].clone()
                };
                let potential_melee = if first_void {
                    not_matching[1].clone()
                } else {
                    not_matching[0].clone()
                };
                if has_non_void_ranged_gear(player_gear, &potential_melee) {
                    let ghost a_pre1 = assigned@;
                    let ok1 = assign_one(
                        &mut assigned,
                        roles,
                        unassigned,
                        &potential_ranger,
                        Role::Ranger,
                    );
                    proof {
                        assert(spec_scale_roles(3)[1] == Role::Ranger);
                        assert(spec_scale_roles(4)[2] == Role::Ranger);
                        assert(spec_scale_roles(scale as int).contains(Role::Ranger));
                        lemma_guessed_roles(a_pre1, assigned@, Role::Ranger, scale as int);
                    }
                    let ghost a_pre2 = assigned@;
                    let ok2 = assign_one(
                        &mut assigned,
                        roles,
                        unassigned,
                        &potential_melee,
                        Role::Melee,
                    );
                    proof {
                        assert(spec_scale_roles(3)[2] == Role::Melee);
                        assert(spec_scale_roles(4)[3] == Role::Melee);
                        assert(spec_scale_roles(scale as int).contains(Role::Melee));
                        lemma_guessed_roles(a_pre2, assigned@, Role::Melee, scale as int);
                    }
                    if ok1 && ok2 {
                        not_matching.clear();
                    }
                }
            }
        } else if scale == 5 {
            // With two meleers in 5-scale, a matched ranger forces the two
            // unmatched players to be meleers.
            if contains_assigned_role(strong, Role::Ranger) || weak_has_role(weak, Role::Ranger) {
                let mut k: usize = 0;
                while k < 2
                    invariant
                        k <= 2,
                        not_matching@.len() == 2,
                        scale == 5,
                        spec_pair_names(assigned@).to_multiset().add(
                            spec_pair_names(unassigned@).to_multiset(),
                        ) == spec_pair_names(u0).to_multiset(),
                        spec_pair_roles(assigned@).to_multiset().add(roles@.to_multiset())
                            == r0.to_multiset(),
                        r0.len() == roles@.len() + assigned@.len(),
                        forall|j: int|
                            0 <= j < roles@.len() ==> r0.contains(#[trigger] roles@[j]),
                        forall|j: int|
                            0 <= j < assigned@.len() ==> spec_scale_roles(scale as int).contains(
                                (#[trigger] assigned@[j]).1,
                            ),
                    decreases 2 - k,
                {
                    let ghost a_pre = assigned@;
                    let ghost r_pre = roles@;
                    let name = not_matching[k].clone();
                    assign_one(&mut assigned, roles, unassigned, &name, Role::Melee);
                    proof {
                        assert(spec_scale_roles(5)[3] == Role::Melee);
                        assert(spec_scale_roles(5).contains(Role::Melee));
                        lemma_guessed_roles(a_pre, assigned@, Role::Melee, scale as int);
                        assert forall|j: int|
                            0 <= j < roles@.len() implies r0.contains(#[trigger] roles@[j]) by {
                            assert(r_pre.contains(roles@[j]));
                        }
                    }
                    k = k + 1;
                }
                not_matching.clear();
            }
        }
    }
    assigned
}

/// A guess list extended by one role in the scale's pool keeps every guessed
/// role in the pool.
proof fn lemma_guessed_roles(before: Seq<(String, Role)>, after: Seq<(String, Role)>, role: Role, scale: int)
    requires
        forall|j: int|
            0 <= j < before.len() ==> spec_scale_roles(scale).contains((#[trigger] before[j]).1),
        after == before || (after.len() == before.len() + 1 && after.last().1 == role
            && after.subrange(0, before.len() as int) == before),
        spec_scale_roles(scale).contains(role) || after == before,
    ensures
        forall|j: int|
            0 <= j < after.len() ==> spec_scale_roles(scale).contains((#[trigger] after[j]).1),
{
    if after != before {
        assert forall|j: int|
            0 <= j < after.len() implies spec_scale_roles(scale).contains(
            (#[trigger] after[j]).1,
        ) by {
            if j < before.len() {
                assert(after[j] == after.subrange(0, before.len() as int)[j]);
            }
        }
    }
}

/// Returns whether any strong assignment carries the given role.
fn contains_assigned_role(v: &Vec<(String, Role)>, role: Role) -> bool {
    let n = v.len();
    let mut i: usize = 0;
    while i < n
        invariant
            i <= n,
            n == v@.len(),
        decreases n - i,
    {
        if v[i].1 == role {
            return true;
        }
        i = i + 1;
    }
    false
}

/// Returns whether any player was recorded as weakly matching the role.
fn weak_has_role(weak: &Vec<(Role, Vec<String>)>, role: Role) -> bool {
    let n = weak.len();
    let mut i: usize = 0;
    while i < n
        invariant
            i <= n,
            n == weak@.len(),
        decreases n - i,
    {
        if weak[i].0 == role && weak[i].1.len() > 0 {
            return true;
        }
        i = i + 1;
    }
    false
}

/// The single player weakly matching the mage role, when there is exactly
/// one.
fn lone_weak_mage(weak: &Vec<(Role, Vec<String>)>) -> (r: Option<String>) {
    let n = weak.len();
    let mut i: usize = 0;
    while i < n
        invariant
            i <= n,
            n == weak@.len(),
        decreases n - i,
    {
        if weak[i].0 == Role::Mage {
            if weak[i].1.len() == 1 {
                return Some(weak[i].1[0].clone());
            }
            return None;
        }
        i = i + 1;
    }
    None
}

/// Returns whether the player owns any Void piece, by gear lookup.
fn has_void_any(player_gear: &PlayerGear, name: &String) -> bool {
    match player_gear.player(name) {
        Some(gear) => gear.has_void(item::VoidStyle::Any),
        None => false,
    }
}

/// Returns whether the player owns dedicated non-Void ranged armour.
fn has_non_void_ranged_gear(player_gear: &PlayerGear, name: &String) -> bool {
    match player_gear.player(name) {
        Some(gear) => {
            let mut ids: Vec<i32> = Vec::new();
            ids.push(item::Id::ZARYTE_VAMBRACES);
            ids.push(item::Id::MASORI_MASK);
            ids.push(item::Id::MASORI_BODY);
            ids.push(item::Id::MASORI_CHAPS);
            ids.push(item::Id::MASORI_MASK_F);
            ids.push(item::Id::MASORI_BODY_F);
            ids.push(item::Id::MASORI_CHAPS_F);
            gear.has_any_in_challenge(&ids)
        },
        None => false,
    }
}

/// Reorders the unassigned players by ascending count of weak matches,
/// keeping exactly the same entries.
fn sort_unassigned(v: Vec<(String, usize)>) -> (r: Vec<(String, usize)>)
    ensures
        spec_pair_names(r@).to_multiset() == spec_pair_names(v@).to_multiset(),
        r@.len() == v@.len(),
{
    let ghost orig = v@;
    let mut input = v;
    let mut out: Vec<(String, usize)> = Vec::new();
    while input.len() > 0
        invariant
            spec_pair_names(out@).to_multiset().add(spec_pair_names(input@).to_multiset())
                == spec_pair_names(orig).to_multiset(),
            out@.len() + input@.len() == orig.len(),
        decreases input@.len(),
    {
        let n = input.len();
        let mut min: usize = 0;
        let mut i: usize = 1;
        while i < n
            invariant
                min < i <= n || (i <= n && min == 0),
                min < n,
                n == input@.len(),
            decreases n - i,
        {
            if input[i].1 < input[min].1 {
                min = i;
            }
            i = i + 1;
        }
        let ghost in0 = input@;
        let ghost out0 = out@;
        let entry = input.remove(min);
        out.push(entry);
        proof {
            lemma_pair_names_remove(in0, min as int);
            lemma_pair_names_push(out0, out@.last());
        }
    }
    out
}

/// True when `v` is an acceptable assignment of the remaining `roles` to the
/// remaining players from position `depth` on: one role per player in
/// order, the roles exactly the remaining pool, and every pick but the final
/// one among the player's weak matches.
pub open spec fn spec_assignment_ok(
    v: Seq<(String, Role)>,
    roles: Seq<Role>,
    players: Seq<(String, usize)>,
    depth: int,
    weak: Seq<(Role, Vec<String>)>,
) -> bool {
    &&& v.len() == roles.len()
    &&& forall|i: int| 0 <= i < v.len() ==> (#[trigger] v[i]).0@ == players[depth + i].0@
    &&& spec_pair_roles(v).to_multiset() == roles.to_multiset()
    &&& forall|i: int|
        0 <= i < v.len() - 1 ==> spec_weak_contains(weak, (#[trigger] v[i]).1, players[depth + i].0@)
}

/// Dropping an assignment's first pick leaves an acceptable assignment of
/// the pool less that pick's role.
proof fn lemma_assignment_tail(
    v: Seq<(String, Role)>,
    roles: Seq<Role>,
    players: Seq<(String, usize)>,
    depth: int,
    weak: Seq<(Role, Vec<String>)>,
    i0: int,
)
    requires
        spec_assignment_ok(v, roles, players, depth, weak),
        v.len() >= 1,
        0 <= i0 < roles.len(),
        roles[i0] == v[0].1,
    ensures
        spec_assignment_ok(v.drop_first(), roles.remove(i0), players, depth + 1, weak),
{
    broadcast use vstd::seq_lib::group_to_multiset_ensures;

    let tail = v.drop_first();
    assert(spec_pair_roles(v) =~= spec_pair_roles(tail).insert(0, v[0].1)) by {
        assert forall|k: int| 0 <= k < v.len() implies spec_pair_roles(v)[k] == spec_pair_roles(
            tail,
        ).insert(0, v[0].1)[k] by {
            if k > 0 {
                assert(spec_pair_roles(tail)[k - 1] == tail[k - 1].1);
            }
        }
    }
    assert(spec_pair_roles(tail).insert(0, v[0].1) =~= Seq::<Role>::empty().push(v[0].1)
        + spec_pair_roles(tail));
    vstd::seq_lib::lemma_multiset_commutative(
        Seq::<Role>::empty().push(v[0].1),
        spec_pair_roles(tail),
    );
    assert(spec_pair_roles(tail).to_multiset() =~= roles.to_multiset().remove(v[0].1)) by {
        assert(Seq::<Role>::empty().push(v[0].1).to_multiset() =~= Multiset::<
            Role,
        >::empty().insert(v[0].1));
        assert(spec_pair_roles(v).to_multiset() == spec_pair_roles(tail).to_multiset().insert(
            v[0].1,
        ));
    }
    assert(roles.remove(i0).to_multiset() == roles.to_multiset().remove(roles[i0]));
    assert forall|i: int| 0 <= i < tail.len() implies (#[trigger] tail[i]).0@ == players[depth + 1
        + i].0@ by {
        assert(tail[i] == v[i + 1]);
    }
    assert forall|i: int|
        0 <= i < tail.len() - 1 implies spec_weak_contains(
        weak,
        (#[trigger] tail[i]).1,
        players[depth + 1 + i].0@,
    ) by {
        assert(tail[i] == v[i + 1]);
        assert(spec_weak_contains(weak, v[i + 1].1, players[depth + (i + 1)].0@));
    }
}

/// Recursively attempts to assign a role to every remaining player based on
/// their weak potential matches, backtracking when a choice cannot be
/// completed. The final role is assigned to the final player
/// unconditionally. On success the result pairs the remaining players, in
/// order, with roles drawn from the remaining pool; on failure no acceptable
/// assignment exists at all — the search is exhaustive.
fn try_assign_roles(
    roles: Vec<Role>,
    players: &Vec<(String, usize)>,
    depth: usize,
    weak: &Vec<(Role, Vec<String>)>,
) -> (r: Option<Vec<(String, Role)>>)
    requires
        depth + roles@.len() == players@.len(),
    ensures
        r matches Some(v) ==> {
            &&& v@.len() == roles@.len()
            &&& forall|i: int| 0 <= i < v@.len() ==> (#[trigger] v@[i]).0@ == players@[depth + i].0@
            &&& spec_pair_roles(v@).to_multiset() == roles@.to_multiset()
            &&& forall|i: int|
                0 <= i < v@.len() - 1 ==> spec_weak_contains(
                    weak@,
                    (#[trigger] v@[i]).1,
                    players@[depth + i].0@,
                )
        },
        r is None ==> !exists|v: Seq<(String, Role)>|
            spec_assignment_ok(v, roles@, players@, depth as int, weak@),
    decreases roles@.len(),
{
    if roles.len() == 0 {
        let out: Vec<(String, Role)> = Vec::new();
        proof {
            assert(spec_pair_roles(out@).to_multiset() =~= roles@.to_multiset()) by {
                assert(spec_pair_roles(out@).len() == 0);
                assert forall|x: Role| spec_pair_roles(out@).to_multiset().count(x)
                    == roles@.to_multiset().count(x) by {
                    if spec_pair_roles(out@).to_multiset().count(x) > 0 {
                        assert(spec_pair_roles(out@).contains(x));
                    }
                    if roles@.to_multiset().count(x) > 0 {
                        assert(roles@.contains(x));
                    }
                }
            }
        }
        return Some(out);
    }
    let player = &players[depth];
    if roles.len() == 1 {
        // Only one role left: it goes to the last player unconditionally.
        let mut out: Vec<(String, Role)> = Vec::new();
        out.push((player.0.clone(), roles[0]));
        proof {
            lemma_pair_roles_push(Seq::empty(), out@.last());
            assert(roles@ =~= Seq::empty().push(roles@[0]));
            assert(spec_pair_roles(Seq::<(String, Role)>::empty()).to_multiset()
                =~= Seq::<Role>::empty().to_multiset()) by {
                assert(spec_pair_roles(Seq::<(String, Role)>::empty())
                    =~= Seq::<Role>::empty());
            }
            assert(spec_pair_roles(out@).to_multiset() =~= roles@.to_multiset());
        }
        return Some(out);
    }
    let nr = roles.len();
    let np = players.len();
    let mut i: usize = 0;
    while i < nr
        invariant
            i <= nr,
            nr == roles@.len(),
            nr >= 2,
            np == players@.len(),
            depth + roles@.len() == players@.len(),
            depth < players@.len(),
            forall|ii: int|
                0 <= ii < i ==> !(spec_weak_contains(
                    weak@,
                    #[trigger] roles@[ii],
                    players@[depth as int].0@,
                ) && exists|tv: Seq<(String, Role)>|
                    #[trigger] spec_assignment_ok(tv, roles@.remove(ii), players@, depth + 1, weak@)),
        decreases nr - i,
    {
        let role = roles[i];
        if weak_contains(weak, role, &player.0) {
            let mut rest = copy_roles(&roles);
            rest.remove(i);
            proof {
                assert(rest@ == roles@.remove(i as int));
            }
            match try_assign_roles(rest, players, depth + 1, weak) {
                Some(tail) => {
                    let mut out: Vec<(String, Role)> = Vec::new();
                    out.push((player.0.clone(), role));
                    let ghost out0 = out@;
                    let ghost tail0 = tail@;
                    let mut tail = tail;
                    out.append(&mut tail);
                    proof {
                        assert(out@ =~= out0 + tail0);
                        assert(out0 =~= Seq::empty().push(out0[0]));
                        lemma_pair_roles_push(Seq::empty(), out0[0]);
                        assert(spec_pair_roles(Seq::<(String, Role)>::empty())
                            =~= Seq::<Role>::empty());
                        assert(spec_pair_roles(out@) =~= spec_pair_roles(out0) + spec_pair_roles(
                            tail0,
                        ));
                        vstd::seq_lib::lemma_multiset_commutative(
                            spec_pair_roles(out0),
                            spec_pair_roles(tail0),
                        );
                        assert(spec_pair_roles(out0).to_multiset() =~= Multiset::<
                            Role,
                        >::empty().insert(role));
                        assert(roles@.remove(i as int).to_multiset() == roles@.to_multiset().remove(
                            roles@[i as int],
                        ));
                        assert(spec_pair_roles(out@).to_multiset() =~= roles@.to_multiset());
                        assert forall|j: int|
                            0 <= j < out@.len() - 1 implies spec_weak_contains(
                            weak@,
                            (#[trigger] out@[j]).1,
                            players@[depth + j].0@,
                        ) by {
                            if j > 0 {
                                assert(out@[j] == tail0[j - 1]);
                                assert(spec_weak_contains(
                                    weak@,
                                    tail0[j - 1].1,
                                    players@[depth + 1 + (j - 1)].0@,
                                ));
                            }
                        }
                    }
                    return Some(out);
                },
                None => {},
            }
        }
        i = i + 1;
    }
    proof {
        // The search tried every role the player weakly matches and every
        // continuation failed, so no acceptable assignment exists.
        if exists|v: Seq<(String, Role)>|
            spec_assignment_ok(v, roles@, players@, depth as int, weak@) {
            let v = choose|v: Seq<(String, Role)>|
                spec_assignment_ok(v, roles@, players@, depth as int, weak@);
            assert(v.len() == roles@.len() >= 2);
            assert(spec_pair_roles(v)[0] == v[0].1);
            assert(spec_pair_roles(v).contains(v[0].1));
            assert(spec_pair_roles(v).to_multiset().count(v[0].1) > 0);
            assert(roles@.to_multiset().count(v[0].1) > 0);
            assert(roles@.contains(v[0].1));
            let i0 = choose|i0: int| 0 <= i0 <= roles@.len() - 1 && roles@[i0] == v[0].1;
            assert(spec_weak_contains(weak@, roles@[i0], players@[depth as int].0@));
            lemma_assignment_tail(v, roles@, players@, depth as int, weak@, i0);
            assert(false);
        }
    }
    None
}

/// True when the attack freezes a first-boss crab within 17 ticks of its
/// spawn — how long a scuffed crab takes to walk in; later freezes are
/// damage on the pile.
pub open spec fn spec_is_timely_freeze(a: (u32, PlayerAttacked)) -> bool {
    &&& spec_is_barrage(a.1.attack)
    &&& a.1.target matches Some(t) && a.0 >= t.spawn_tick && a.0 - t.spawn_tick <= 17
}

/// True when the timely freeze hits a south-side crab.
pub open spec fn spec_is_south_freeze(a: (u32, PlayerAttacked)) -> bool {
    &&& spec_is_timely_freeze(a)
    &&& a.1.target matches Some(t) && t.npc_type matches crate::event::NpcType::MaidenCrab(pos)
        && crate::event::spec_is_south_crab(pos)
}

/// True when the timely freeze hits a north-side crab.
pub open spec fn spec_is_north_freeze(a: (u32, PlayerAttacked)) -> bool {
    &&& spec_is_timely_freeze(a)
    &&& a.1.target matches Some(t) && t.npc_type matches crate::event::NpcType::MaidenCrab(pos)
        && !crate::event::spec_is_south_crab(pos)
}

/// The predicate selecting timely north-side freezes.
pub open spec fn north_freeze_pred() -> spec_fn((u32, PlayerAttacked)) -> bool {
    |a: (u32, PlayerAttacked)| spec_is_north_freeze(a)
}

/// The predicate selecting timely south-side freezes.
pub open spec fn south_freeze_pred() -> spec_fn((u32, PlayerAttacked)) -> bool {
    |a: (u32, PlayerAttacked)| spec_is_south_freeze(a)
}

/// Counts how many times a player froze a north or a south first-boss crab
/// within 17 ticks of its spawn.
fn count_north_and_south_freezes(attacks: &Vec<(u32, PlayerAttacked)>) -> (r: (usize, usize))
    ensures
        r.0 == attacks@.filter(north_freeze_pred()).len(),
        r.1 == attacks@.filter(south_freeze_pred()).len(),
{
    let north_pred = Ghost(north_freeze_pred());
    let south_pred = Ghost(south_freeze_pred());
    let n = attacks.len();
    let mut north: usize = 0;
    let mut south: usize = 0;
    let mut i: usize = 0;
    while i < n
        invariant
            i <= n,
            n == attacks@.len(),
            north_pred@ == north_freeze_pred(),
            south_pred@ == south_freeze_pred(),
            north == attacks@.subrange(0, i as int).filter(north_pred@).len(),
            south == attacks@.subrange(0, i as int).filter(south_pred@).len(),
        decreases n - i,
    {
        let ghost pre = attacks@.subrange(0, i as int);
        let (tick, atk) = attacks[i];
        if atk.attack.is_barrage() {
            match &atk.target {
                Some(target) => {
                    if tick >= target.spawn_tick && tick - target.spawn_tick <= 17 {
                        match &target.npc_type {
                            crate::event::NpcType::MaidenCrab(pos) => {
                                let is_south = match pos {
                                    crate::event::MaidenCrabPosition::S1
                                    | crate::event::MaidenCrabPosition::S2
                                    | crate::event::MaidenCrabPosition::S3
                                    | crate::event::MaidenCrabPosition::S4Inner
                                    | crate::event::MaidenCrabPosition::S4Outer => true,
                                    _ => false,
                                };
                                if is_south {
                                    south = south + 1;
                                } else {
                                    north = north + 1;
                                }
                            },
                            _ => {},
                        }
                    }
                },
                None => {},
            }
        }
        proof {
            assert(attacks@.subrange(0, i + 1) =~= pre.push(attacks@[i as int]));
            pre.lemma_filter_push(attacks@[i as int], north_pred@);
            pre.lemma_filter_push(attacks@[i as int], south_pred@);
            pre.lemma_filter_len(north_pred@);
            pre.lemma_filter_len(south_pred@);
        }
        i = i + 1;
    }
    proof {
        assert(attacks@.subrange(0, n as int) =~= attacks@);
    }
    (north, south)
}

/// Determines a player's first-room sub-roles: freezer orientation for
/// freezing roles in parties larger than 2, and the chinner duty. The
/// freezer variant is a heuristic over how many players froze crabs and on
/// which side the player froze.
fn determine_maiden_subroles(
    challenge: &Challenge,
    maiden_data: &StageInfo,
    attacks: &Vec<(u32, PlayerAttacked)>,
    role: Role,
) -> (r: Vec<SubRole>)
    requires
        stage_wf(*maiden_data),
    ensures
        r@.contains(SubRole::MaidenChinner) == spec_has_chinned_crabs(attacks@),
        (exists|j: int|
            0 <= j < r@.len() && ((#[trigger] r@[j]) == SubRole::MaidenSoloFreezer || r@[j]
                == SubRole::MaidenNorthFreezer || r@[j] == SubRole::MaidenSouthFreezer)) == (
        challenge.spec_party().len() > 2 && spec_is_freezer(role)),
        r@.contains(SubRole::MaidenSoloFreezer) == (challenge.spec_party().len() > 2
            && spec_is_freezer(role) && spec_freezer_indices(maiden_data.events.all@).len() == 1),
        r@.contains(SubRole::MaidenNorthFreezer) == (challenge.spec_party().len() > 2
            && spec_is_freezer(role) && spec_freezer_indices(maiden_data.events.all@).len() != 1
            && attacks@.filter(north_freeze_pred()).len() > attacks@.filter(
            south_freeze_pred(),
        ).len()),
        r@.contains(SubRole::MaidenSouthFreezer) == (challenge.spec_party().len() > 2
            && spec_is_freezer(role) && spec_freezer_indices(maiden_data.events.all@).len() != 1
            && !(attacks@.filter(north_freeze_pred()).len() > attacks@.filter(
            south_freeze_pred(),
        ).len())),
        forall|j: int|
            0 <= j < r@.len() ==> ((#[trigger] r@[j]) == SubRole::MaidenSoloFreezer || r@[j]
                == SubRole::MaidenNorthFreezer || r@[j] == SubRole::MaidenSouthFreezer || r@[j]
                == SubRole::MaidenChinner),
{
    let mut subroles: Vec<SubRole> = Vec::new();

    if challenge.scale() > 2 && role.is_freezer() {
        // Count how many players froze crabs in the first room.
        let attack_indices = maiden_data.events_for_type(crate::event::EventType::PlayerAttack);
        let ghost all = maiden_data.events.all@;
        let mut freezers: Vec<u32> = Vec::new();
        let ni = attack_indices.len();
        let mut k: usize = 0;
        while k < ni
            invariant
                k <= ni,
                ni == attack_indices@.len(),
                stage_wf(*maiden_data),
                all == maiden_data.events.all@,
                forall|j: int|
                    0 <= j < attack_indices@.len() ==> (#[trigger] attack_indices@[j]) < all.len(),
                freezers@.no_duplicates(),
                forall|x: u32|
                    #[trigger] freezers@.contains(x) <==> exists|w: int|
                        0 <= w < k && spec_is_crab_freeze_event(
                            #[trigger] all[attack_indices@[w] as int],
                        ) && all[attack_indices@[w] as int].player->Some_0.party_index == x,
            decreases ni - k,
        {
            let ghost f0 = freezers@;
            let ghost idx = attack_indices@[k as int] as int;
            let e = &maiden_data.events.all[attack_indices[k]];
            proof {
                assert(event_type_index(all[idx].event_type) == event_type_index(
                    crate::event::EventType::PlayerAttack,
                ));
                assert(all[idx].event_type == crate::event::EventType::PlayerAttack);
            }
            let qualifies = match (&e.player_attack, &e.player) {
                (Some(atk), Some(_)) => {
                    let on_crab = match &atk.target {
                        Some(t) => t.is_maiden_matomenos(),
                        None => false,
                    };
                    on_crab && atk.attack.is_barrage()
                },
                _ => false,
            };
            proof {
                assert(qualifies == spec_is_crab_freeze_event(all[idx]));
            }
            if qualifies {
                let pidx = match &e.player {
                    Some(pl) => pl.party_index,
                    None => {
                        proof {
                            assert(false);
                        }
                        0
                    },
                };
                proof {
                    assert(pidx == all[idx].player->Some_0.party_index);
                }
                let had = contains_u32(&freezers, pidx);
                if !had {
                    freezers.push(pidx);
                }
                proof {
                    if had {
                        assert(f0.contains(pidx));
                        assert(freezers@ == f0);
                    } else {
                        assert(freezers@ == f0.push(pidx));
                        assert(freezers@[f0.len() as int] == pidx);
                    }
                    assert(freezers@.contains(pidx));
                    assert forall|x: u32| #[trigger] freezers@.contains(x) <==> exists|w: int|
                        0 <= w < k + 1 && spec_is_crab_freeze_event(
                            #[trigger] all[attack_indices@[w] as int],
                        ) && all[attack_indices@[w] as int].player->Some_0.party_index == x by {
                        if freezers@.contains(x) {
                            if f0.contains(x) {
                                let w = choose|w: int|
                                    0 <= w < k && spec_is_crab_freeze_event(
                                        #[trigger] all[attack_indices@[w] as int],
                                    ) && all[attack_indices@[w] as int].player->Some_0.party_index
                                        == x;
                                assert(spec_is_crab_freeze_event(all[attack_indices@[w] as int]));
                            } else {
                                assert(freezers@ == f0.push(x));
                                assert(freezers@.last() == x);
                                assert(x == pidx);
                                assert(spec_is_crab_freeze_event(
                                    all[attack_indices@[k as int] as int],
                                ));
                            }
                        } else {
                            if exists|w: int|
                                0 <= w < k + 1 && spec_is_crab_freeze_event(
                                    #[trigger] all[attack_indices@[w] as int],
                                ) && all[attack_indices@[w] as int].player->Some_0.party_index
                                    == x {
                                let w = choose|w: int|
                                    0 <= w < k + 1 && spec_is_crab_freeze_event(
                                        #[trigger] all[attack_indices@[w] as int],
                                    ) && all[attack_indices@[w] as int].player->Some_0.party_index
                                        == x;
                                if w < k {
                                    assert(f0.contains(x));
                                    let v = choose|v: int| 0 <= v <= f0.len() - 1 && f0[v] == x;
                                    assert(freezers@[v] == x);
                                    assert(freezers@.contains(x));
                                    assert(false);
                                } else {
                                    assert(x == pidx);
                                    assert(false);
                                }
                            }
                        }
                    }
                }
            } else {
                proof {
                    assert forall|x: u32| #[trigger] freezers@.contains(x) <==> exists|w: int|
                        0 <= w < k + 1 && spec_is_crab_freeze_event(
                            #[trigger] all[attack_indices@[w] as int],
                        ) && all[attack_indices@[w] as int].player->Some_0.party_index == x by {
                        if freezers@.contains(x) {
                            let w = choose|w: int|
                                0 <= w < k && spec_is_crab_freeze_event(
                                    #[trigger] all[attack_indices@[w] as int],
                                ) && all[attack_indices@[w] as int].player->Some_0.party_index
                                    == x;
                            assert(spec_is_crab_freeze_event(all[attack_indices@[w] as int]));
                        } else {
                            if exists|w: int|
                                0 <= w < k + 1 && spec_is_crab_freeze_event(
                                    #[trigger] all[attack_indices@[w] as int],
                                ) && all[attack_indices@[w] as int].player->Some_0.party_index
                                    == x {
                                let w = choose|w: int|
                                    0 <= w < k + 1 && spec_is_crab_freeze_event(
                                        #[trigger] all[attack_indices@[w] as int],
                                    ) && all[attack_indices@[w] as int].player->Some_0.party_index
                                        == x;
                                assert(w < k);
                                assert(freezers@.contains(x));
                                assert(false);
                            }
                        }
                    }
                }
            }
            k = k + 1;
        }

        let total_events = maiden_data.events.all.len();
        proof {
            assert(all.len() == total_events);
            lemma_freezer_count(all, attack_indices@, freezers@);
        }

        if freezers.len() == 1 {
            subroles.push(SubRole::MaidenSoloFreezer);
        } else {
            let (north, south) = count_north_and_south_freezes(attacks);
            if north > south {
                subroles.push(SubRole::MaidenNorthFreezer);
            } else {
                subroles.push(SubRole::MaidenSouthFreezer);
            }
        }
    }

    let ghost base = subroles@;
    let ghost card = spec_freezer_indices(maiden_data.events.all@).len();
    let ghost norths = attacks@.filter(north_freeze_pred()).len();
    let ghost souths = attacks@.filter(south_freeze_pred()).len();
    proof {
        assert((challenge.spec_party().len() > 2 && spec_is_freezer(role)) ==> base.len() == 1 && (
        base[0] == SubRole::MaidenSoloFreezer || base[0] == SubRole::MaidenNorthFreezer || base[0]
            == SubRole::MaidenSouthFreezer));
        assert(!(challenge.spec_party().len() > 2 && spec_is_freezer(role)) ==> base.len() == 0);
        assert((challenge.spec_party().len() > 2 && spec_is_freezer(role)) ==> {
            &&& (base[0] == SubRole::MaidenSoloFreezer <==> card == 1)
            &&& (base[0] == SubRole::MaidenNorthFreezer <==> card != 1 && norths > souths)
            &&& (base[0] == SubRole::MaidenSouthFreezer <==> card != 1 && !(norths > souths))
        });
    }
    let mut has_chinned = false;
    let n = attacks.len();
    let mut i: usize = 0;
    while i < n
        invariant
            i <= n,
            n == attacks@.len(),
            subroles@ == base,
            has_chinned == exists|j: int|
                0 <= j < i && spec_is_chin((#[trigger] attacks@[j]).1.attack)
                    && spec_targets_matomenos(attacks@[j].1),
        decreases n - i,
    {
        let (_, atk) = attacks[i];
        let on_crab = match &atk.target {
            Some(t) => t.is_maiden_matomenos(),
            None => false,
        };
        if on_crab && atk.attack.is_chin() {
            has_chinned = true;
        }
        i = i + 1;
    }
    let ghost before_chin = subroles@;
    if has_chinned {
        subroles.push(SubRole::MaidenChinner);
    }
    proof {
        if has_chinned {
            assert(subroles@.last() == SubRole::MaidenChinner);
            assert(subroles@.contains(SubRole::MaidenChinner));
        } else {
            if subroles@.contains(SubRole::MaidenChinner) {
                let j = choose|j: int|
                    0 <= j < subroles@.len() && subroles@[j] == SubRole::MaidenChinner;
                assert(false);
            }
        }
        if challenge.spec_party().len() > 2 && spec_is_freezer(role) {
            assert(subroles@[0] == base[0]);
            assert(exists|j: int|
                0 <= j < subroles@.len() && ((#[trigger] subroles@[j])
                    == SubRole::MaidenSoloFreezer || subroles@[j] == SubRole::MaidenNorthFreezer
                    || subroles@[j] == SubRole::MaidenSouthFreezer));
            if base[0] == SubRole::MaidenSoloFreezer {
                assert(subroles@.contains(SubRole::MaidenSoloFreezer));
            }
            if base[0] == SubRole::MaidenNorthFreezer {
                assert(subroles@.contains(SubRole::MaidenNorthFreezer));
            }
            if base[0] == SubRole::MaidenSouthFreezer {
                assert(subroles@.contains(SubRole::MaidenSouthFreezer));
            }
            if subroles@.contains(SubRole::MaidenSoloFreezer) {
                let j = choose|j: int|
                    0 <= j < subroles@.len() && subroles@[j] == SubRole::MaidenSoloFreezer;
                assert(j == 0);
            }
            if subroles@.contains(SubRole::MaidenNorthFreezer) {
                let j = choose|j: int|
                    0 <= j < subroles@.len() && subroles@[j] == SubRole::MaidenNorthFreezer;
                assert(j == 0);
            }
            if subroles@.contains(SubRole::MaidenSouthFreezer) {
                let j = choose|j: int|
                    0 <= j < subroles@.len() && subroles@[j] == SubRole::MaidenSouthFreezer;
                assert(j == 0);
            }
        } else {
            if exists|j: int|
                0 <= j < subroles@.len() && ((#[trigger] subroles@[j])
                    == SubRole::MaidenSoloFreezer || subroles@[j] == SubRole::MaidenNorthFreezer
                    || subroles@[j] == SubRole::MaidenSouthFreezer) {
                let j = choose|j: int|
                    0 <= j < subroles@.len() && ((#[trigger] subroles@[j])
                        == SubRole::MaidenSoloFreezer || subroles@[j]
                        == SubRole::MaidenNorthFreezer || subroles@[j]
                        == SubRole::MaidenSouthFreezer);
                assert(false);
            }
            assert(!subroles@.contains(SubRole::MaidenSoloFreezer)) by {
                if subroles@.contains(SubRole::MaidenSoloFreezer) {
                    let j = choose|j: int|
                        0 <= j < subroles@.len() && subroles@[j] == SubRole::MaidenSoloFreezer;
                    assert(false);
                }
            }
            assert(!subroles@.contains(SubRole::MaidenNorthFreezer)) by {
                if subroles@.contains(SubRole::MaidenNorthFreezer) {
                    let j = choose|j: int|
                        0 <= j < subroles@.len() && subroles@[j] == SubRole::MaidenNorthFreezer;
                    assert(false);
                }
            }
            assert(!subroles@.contains(SubRole::MaidenSouthFreezer)) by {
                if subroles@.contains(SubRole::MaidenSouthFreezer) {
                    let j = choose|j: int|
                        0 <= j < subroles@.len() && subroles@[j] == SubRole::MaidenSouthFreezer;
                    assert(false);
                }
            }
        }
    }
    subroles
}

/// Returns whether a list contains the given value.
fn contains_u32(v: &Vec<u32>, x: u32) -> (r: bool)
    ensures
        r == v@.contains(x),
{
    let n = v.len();
    let mut i: usize = 0;
    while i < n
        invariant
            i <= n,
            n == v@.len(),
            forall|j: int| 0 <= j < i ==> (#[trigger] v@[j]) != x,
        decreases n - i,
    {
        if v[i] == x {
            return true;
        }
        i = i + 1;
    }
    false
}

/// Determines a player's third-room sub-roles; only 5-scale lane duties are
/// currently recognized. A mage's lane follows which side's important spawns
/// were pre-fired (attacked within 9 ticks of spawning); a melee's lane
/// follows which side's early doubles were scythed.
fn determine_nylo_subroles(challenge: &Challenge, attacks: &Vec<(u32, PlayerAttacked)>, role: Role)
    -> (r: Vec<SubRole>)
    ensures
        challenge.spec_party().len() != 5 ==> r@.len() == 0,
        r@.len() <= 1,
        role == Role::Mage ==> forall|j: int|
            0 <= j < r@.len() ==> ((#[trigger] r@[j]) == SubRole::NyloWestMage || r@[j]
                == SubRole::NyloEastMage),
        role == Role::Melee ==> forall|j: int|
            0 <= j < r@.len() ==> ((#[trigger] r@[j]) == SubRole::NyloWestMelee || r@[j]
                == SubRole::NyloEastMelee),
        !(role == Role::Mage || role == Role::Melee) ==> r@.len() == 0,
{
    let mut subroles: Vec<SubRole> = Vec::new();
    if challenge.scale() != 5 {
        return subroles;
    }
    let is_mage = role == Role::Mage;
    let is_melee = role == Role::Melee;
    if !is_mage && !is_melee {
        return subroles;
    }

    // Every nylo the player pre-fired: attacked within 9 ticks of its
    // spawning, counting each spawn once and ignoring splits.
    let mut counted: Vec<u64> = Vec::new();
    let mut west_prefires: usize = 0;
    let mut east_prefires: usize = 0;
    let n = attacks.len();
    let mut i: usize = 0;
    while i < n
        invariant
            i <= n,
            n == attacks@.len(),
            west_prefires <= i,
            east_prefires <= i,
        decreases n - i,
    {
        let (tick, atk) = attacks[i];
        match &atk.target {
            Some(target) => {
                match &target.npc_type {
                    crate::event::NpcType::Nylo(nylo) => {
                        let already = contains_u64(&counted, target.room_id);
                        let split = nylo.spawn_type == crate::event::NyloSpawnType::Split;
                        if !already && !split && tick >= target.spawn_tick && tick
                            - target.spawn_tick <= 9 {
                            counted.push(target.room_id);
                            let considered = if is_mage {
                                // Important mage pre-fires: the early-wave
                                // side barrages and the late big doubles.
                                ((nylo.wave == 11 || nylo.wave == 21) && atk.attack.is_barrage())
                                    || ((nylo.wave == 26 || nylo.wave == 27) && nylo.big)
                            } else {
                                // Melee pre-fires: the wave-12 doubles,
                                // scythed on spawn.
                                nylo.wave == 12 && (atk.attack == PlayerAttack::Scythe
                                    || atk.attack == PlayerAttack::ScytheUncharged)
                            };
                            if considered {
                                match nylo.spawn_type {
                                    crate::event::NyloSpawnType::West => {
                                        west_prefires = west_prefires + 1;
                                    },
                                    crate::event::NyloSpawnType::East => {
                                        east_prefires = east_prefires + 1;
                                    },
                                    _ => {},
                                }
                            }
                        }
                    },
                    _ => {},
                }
            },
            None => {},
        }
        i = i + 1;
    }

    if west_prefires > east_prefires {
        if is_mage {
            subroles.push(SubRole::NyloWestMage);
        } else {
            subroles.push(SubRole::NyloWestMelee);
        }
    } else if east_prefires > west_prefires {
        if is_mage {
            subroles.push(SubRole::NyloEastMage);
        } else {
            subroles.push(SubRole::NyloEastMelee);
        }
    }
    subroles
}

/// Returns whether a list contains the given value.
fn contains_u64(v: &Vec<u64>, x: u64) -> (r: bool)
    ensures
        r == v@.contains(x),
{
    let n = v.len();
    let mut i: usize = 0;
    while i < n
        invariant
            i <= n,
            n == v@.len(),
            forall|j: int| 0 <= j < i ==> (#[trigger] v@[j]) != x,
        decreases n - i,
    {
        if v[i] == x {
            return true;
        }
        i = i + 1;
    }
    false
}

/// The output of the gear analyzer found among the completed analyzers, if
/// any.
pub open spec fn spec_gear_dependency(
    completed: Seq<crate::analysis::CompletedAnalyzer>,
) -> bool {
    match crate::analysis::spec_dependency_output(
        completed,
        AnalyzerImpl::Gear,
        completed.len() as int,
    ) {
        Some(i) => completed[i].output matches AnalyzerOutput::Gear(_),
        None => false,
    }
}

/// The role analyzer; see the module documentation.
impl TobRoleAnalyzer {
    /// Attempts to assign a primary role and room sub-roles to every player.
    /// If every role is successfully assigned, returns a list pairing each
    /// party member, exactly once, with a role drawn from the
    /// scale-determined pool. Otherwise fails: with a failed precondition
    /// for an unsupported scale, and with incomplete data when the evidence
    /// does not determine every player.
    pub fn determine_roles(challenge: &Challenge, player_gear: &PlayerGear) -> (r: Result<
        Vec<(String, PlayerRoles)>,
        Error,
    >)
        requires
            challenge_wf(*challenge),
        ensures
            match r {
                Ok(v) => {
                    &&& 2 <= challenge.spec_party().len() <= 5
                    &&& v@.len() == challenge.spec_party().len()
                    &&& v@.map_values(|e: (String, PlayerRoles)| e.0@).to_multiset()
                        == spec_name_views(challenge.spec_party()).to_multiset()
                    &&& v@.map_values(|e: (String, PlayerRoles)| e.1.0).to_multiset()
                        == spec_scale_roles(challenge.spec_party().len() as int).to_multiset()
                },
                Err(e) => {
                    &&& (e matches Error::FailedPrecondition(_) <==> !(2
                        <= challenge.spec_party().len() <= 5))
                    &&& (e matches Error::FailedPrecondition(_) || e == Error::IncompleteData)
                },
            },
            2 <= challenge.spec_party().len() <= 5 && spec_evidence_missing(
                *challenge,
                *player_gear,
            ) ==> r == Err::<Vec<(String, PlayerRoles)>, Error>(Error::IncompleteData),
    {
        let scale = challenge.party().len();
        let pool = match scale_roles(scale) {
            Some(pool) => pool,
            None => {
                return Err(Error::FailedPrecondition(String::from_str("Invalid raid scale")));
            },
        };
        let ghost pool0 = pool@;

        let mut ctx = match find_role_matches(challenge, player_gear, pool) {
            Ok(ctx) => ctx,
            Err(_) => {
                return Err(Error::IncompleteData);
            },
        };

        let ghost u1 = ctx.unassigned@;
        let ghost r1 = ctx.roles_to_assign@;
        let guessed = try_guess_unmatched_roles(
            scale,
            &ctx.strong,
            &mut ctx.roles_to_assign,
            &mut ctx.unassigned,
            &ctx.weak,
            &mut ctx.not_matching,
            player_gear,
        );

        if ctx.not_matching.len() > 1 {
            // More than one player matches nothing at all; roles cannot be
            // assigned.
            return Err(Error::IncompleteData);
        }

        let ghost u2 = ctx.unassigned@;
        let ghost r2 = ctx.roles_to_assign@;
        let sorted = sort_unassigned(ctx.unassigned);
        proof {
            // Every stage conserves names, so the remaining roles and the
            // remaining players are equally many.
            assert(spec_pair_names(guessed@).to_multiset().add(
                spec_pair_names(u2).to_multiset(),
            ).len() == spec_pair_names(u1).to_multiset().len());
            assert(r2.len() == u2.len());
            assert(r2.len() == sorted@.len());
        }

        let tail = match try_assign_roles(ctx.roles_to_assign, &sorted, 0, &ctx.weak) {
            Some(tail) => tail,
            None => {
                return Err(Error::IncompleteData);
            },
        };

        // Assemble the full assignment: strong matches, guesses, and the
        // backtracked remainder.
        let mut assigned = ctx.strong;
        let ghost strong0 = assigned@;
        let ghost guessed0 = guessed@;
        let ghost tail0 = tail@;
        let mut guessed = guessed;
        let mut tail = tail;
        assigned.append(&mut guessed);
        assigned.append(&mut tail);
        proof {
            assert(assigned@ =~= strong0 + guessed0 + tail0);
        }

        // Attach room sub-roles to every assignment.
        let maiden_data = challenge.stage_info(Stage::TobMaiden);
        proof {
            match maiden_data {
                Some(info) => {
                    let k = choose|k: int|
                        0 <= k < challenge.spec_stages().len() && challenge.spec_stages()[k]
                            == *info && (#[trigger] challenge.spec_stages()[k]).stage
                            == Stage::TobMaiden;
                    assert(stage_wf(*info));
                },
                None => {},
            }
        }
        let na = assigned.len();
        let mut result: Vec<(String, PlayerRoles)> = Vec::new();
        let mut i: usize = 0;
        while i < na
            invariant
                i <= na,
                na == assigned@.len(),
                challenge_wf(*challenge),
                result@.len() == i,
                forall|j: int|
                    0 <= j < i ==> (#[trigger] result@[j]).0@ == assigned@[j].0@ && result@[j].1.0
                        == assigned@[j].1,
                maiden_data matches Some(info) ==> stage_wf(*info),
            decreases na - i,
        {
            let name = assigned[i].0.clone();
            let role = assigned[i].1;
            let mut subroles: Vec<SubRole> = Vec::new();
            match &maiden_data {
                Some(info) => {
                    match stage_player_states(info, &name) {
                        Some(states) => {
                            let attacks = (PlayerStates { states }).attacks();
                            let mut more = determine_maiden_subroles(
                                challenge,
                                info,
                                &attacks,
                                role,
                            );
                            subroles.append(&mut more);
                        },
                        None => {},
                    }
                },
                None => {},
            }
            match challenge.stage_info(Stage::TobNylocas) {
                Some(info) => {
                    proof {
                        let k = choose|k: int|
                            0 <= k < challenge.spec_stages().len() && challenge.spec_stages()[k]
                                == *info && (#[trigger] challenge.spec_stages()[k]).stage
                                == Stage::TobNylocas;
                        assert(stage_wf(*info));
                    }
                    match stage_player_states(info, &name) {
                        Some(states) => {
                            let attacks = (PlayerStates { states }).attacks();
                            let mut more = determine_nylo_subroles(challenge, &attacks, role);
                            subroles.append(&mut more);
                        },
                        None => {},
                    }
                },
                None => {},
            }
            result.push((name, PlayerRoles(role, subroles)));
            i = i + 1;
        }

        proof {
            assert(result@.map_values(|e: (String, PlayerRoles)| e.0@) =~= spec_pair_names(
                assigned@,
            ));
            assert(spec_pair_names(strong0).to_multiset().add(
                spec_pair_names(guessed0).to_multiset().add(spec_pair_names(sorted@).to_multiset()),
            ) =~= spec_name_views(challenge.spec_party()).to_multiset());
            lemma_concat_names(strong0, guessed0, tail0, sorted@, challenge.spec_party());

            // The assigned roles are exactly the scale's pool: each stage of
            // the pipeline conserved the role multiset.
            assert(result@.map_values(|e: (String, PlayerRoles)| e.1.0) =~= spec_pair_roles(
                assigned@,
            ));
            assert(spec_pair_roles(assigned@) =~= spec_pair_roles(strong0) + spec_pair_roles(
                guessed0,
            ) + spec_pair_roles(tail0));
            vstd::seq_lib::lemma_multiset_commutative(
                spec_pair_roles(strong0) + spec_pair_roles(guessed0),
                spec_pair_roles(tail0),
            );
            vstd::seq_lib::lemma_multiset_commutative(
                spec_pair_roles(strong0),
                spec_pair_roles(guessed0),
            );
            assert(spec_pair_roles(assigned@).to_multiset() =~= pool0.to_multiset());
            assert(pool0 == spec_scale_roles(challenge.spec_party().len() as int));
        }
        Ok(result)
    }

    /// Runs the role analyzer over a challenge: requires the first supported
    /// challenge type, requires the gear analyzer's output among the
    /// completed dependencies, assigns the solo role directly at scale 1,
    /// and otherwise determines roles from the evidence.
    pub fn analyze(&self, context: &Context) -> (r: Result<Vec<(String, PlayerRoles)>, Error>)
        requires
            challenge_wf(context.spec_challenge()),
        ensures
            context.spec_challenge().spec_type() != ChallengeType::Tob ==> (r matches Err(e)
                && e matches Error::FailedPrecondition(_)),
            context.spec_challenge().spec_type() == ChallengeType::Tob
                && !spec_gear_dependency(context.spec_completed()) ==> (r matches Err(e)
                && e matches Error::Dependency(d) && d@ == "GearAnalyzer"@),
            context.spec_challenge().spec_type() == ChallengeType::Tob && spec_gear_dependency(
                context.spec_completed(),
            ) && context.spec_challenge().spec_party().len() == 1 ==> (r matches Ok(v)
                && v@.len() == 1 && v@[0].0@ == context.spec_challenge().spec_party()[0]@
                && v@[0].1.0 == Role::Solo && v@[0].1.1@.len() == 0),
            r matches Ok(v) ==> {
                &&& v@.len() == context.spec_challenge().spec_party().len()
                &&& v@.map_values(|e: (String, PlayerRoles)| e.0@).to_multiset()
                    == spec_name_views(context.spec_challenge().spec_party()).to_multiset()
            },
            r matches Ok(v) ==> (context.spec_challenge().spec_party().len() != 1 ==> {
                &&& 2 <= context.spec_challenge().spec_party().len() <= 5
                &&& v@.map_values(|e: (String, PlayerRoles)| e.1.0).to_multiset()
                    == spec_scale_roles(
                    context.spec_challenge().spec_party().len() as int,
                ).to_multiset()
            }),
    {
        let challenge = context.challenge();
        match challenge.challenge_type() {
            ChallengeType::Tob => {},
            _ => {
                return Err(
                    Error::FailedPrecondition(
                        String::from_str("TobRoleAnalyzer requires a TOB challenge"),
                    ),
                );
            },
        }

        let gear = match context.get_dependency_output(AnalyzerImpl::Gear) {
            Some(output) => match output {
                AnalyzerOutput::Gear(gear) => gear,
                _ => {
                    return Err(Error::Dependency(String::from_str("GearAnalyzer")));
                },
            },
            None => {
                return Err(Error::Dependency(String::from_str("GearAnalyzer")));
            },
        };

        if challenge.scale() == 1 {
            let mut roles: Vec<(String, PlayerRoles)> = Vec::new();
            let party = challenge.party();
            let solo_subroles: Vec<SubRole> = Vec::new();
            roles.push((party[0].clone(), PlayerRoles(Role::Solo, solo_subroles)));
            proof {
                assert(roles@.map_values(|e: (String, PlayerRoles)| e.0@) =~= spec_name_views(
                    challenge.spec_party(),
                ));
            }
            return Ok(roles);
        }

        Self::determine_roles(challenge, gear)
    }
}

/// The concatenation of the three assignment stages carries exactly the
/// party's names.
proof fn lemma_concat_names(
    strong: Seq<(String, Role)>,
    guessed: Seq<(String, Role)>,
    tail: Seq<(String, Role)>,
    sorted: Seq<(String, usize)>,
    party: Seq<String>,
)
    requires
        tail.len() == sorted.len(),
        forall|i: int| 0 <= i < tail.len() ==> (#[trigger] tail[i]).0@ == sorted[i].0@,
        spec_pair_names(strong).to_multiset().add(
            spec_pair_names(guessed).to_multiset().add(spec_pair_names(sorted).to_multiset()),
        ) == spec_name_views(party).to_multiset(),
    ensures
        spec_pair_names(strong + guessed + tail).to_multiset() == spec_name_views(
            party,
        ).to_multiset(),
{
    assert(spec_pair_names(tail) =~= spec_pair_names(sorted));
    assert(spec_pair_names(strong + guessed + tail) =~= spec_pair_names(strong) + spec_pair_names(
        guessed,
    ) + spec_pair_names(tail));
    let a = spec_pair_names(strong);
    let b = spec_pair_names(guessed);
    let c = spec_pair_names(tail);
    vstd::seq_lib::lemma_multiset_commutative(a + b, c);
    vstd::seq_lib::lemma_multiset_commutative(a, b);
    assert((a + b + c).to_multiset() == ((a + b) + c).to_multiset());
    assert(((a + b) + c).to_multiset() == (a + b).to_multiset().add(c.to_multiset()));
    assert((a + b).to_multiset() == a.to_multiset().add(b.to_multiset()));
    assert(a.to_multiset().add(b.to_multiset()).add(c.to_multiset()) =~= a.to_multiset().add(
        b.to_multiset().add(c.to_multiset()),
    ));
}

} // verus!
