//! Per-tick player state: attack and death state, position, stat levels,
//! active prayers, and the 11-slot equipment vector, together with the
//! transition rules that carry a state from one tick to the next.

use vstd::prelude::*;

use crate::delta::{spec_parse, spec_raw_parses, ItemDelta};
use crate::event::{Coords, EventPlayer, PlayerAttack, StageNpc};
use crate::item::{slot_index, spec_zero_stats, EquipmentSlot, Registry, Stats};


verus! {

/// A skill's base and current (boosted or drained) level.
#[derive(Debug, Clone, Copy, PartialEq, Eq, Structural)]
pub struct SkillLevel {
    pub base: i16,
    pub current: i16,
}

/// The skill level packed in a raw 32-bit value: base in the low 16 bits,
/// current level in the high 16 bits.
pub open spec fn spec_skill_from_raw(raw: u32) -> SkillLevel {
    SkillLevel { base: raw as i16, current: (raw >> 16) as i16 }
}

impl SkillLevel {
    /// Decodes a packed skill level: base in the low 16 bits, current level
    /// in the high 16 bits.
    pub fn from_raw(raw: u32) -> (s: SkillLevel)
        ensures
            s == spec_skill_from_raw(raw),
    {
        SkillLevel {
            base: #[verifier::truncate] (raw as i16),
            current: #[verifier::truncate] ((raw >> 16) as i16),
        }
    }
}

/// The seven tracked skills of a per-tick snapshot. Each is `None` unless the
/// tick's update event re-asserted it.
#[derive(Debug, Clone, Copy, PartialEq, Eq, Structural)]
pub struct PlayerStats {
    pub attack: Option<SkillLevel>,
    pub defence: Option<SkillLevel>,
    pub strength: Option<SkillLevel>,
    pub hitpoints: Option<SkillLevel>,
    pub ranged: Option<SkillLevel>,
    pub prayer: Option<SkillLevel>,
    pub magic: Option<SkillLevel>,
}

/// The all-`None` stat snapshot.
pub open spec fn spec_empty_player_stats() -> PlayerStats {
    PlayerStats {
        attack: None,
        defence: None,
        strength: None,
        hitpoints: None,
        ranged: None,
        prayer: None,
        magic: None,
    }
}

impl PlayerStats {
    /// The all-`None` stat snapshot.
    pub fn empty() -> (s: PlayerStats)
        ensures
            s == spec_empty_player_stats(),
    {
        PlayerStats {
            attack: None,
            defence: None,
            strength: None,
            hitpoints: None,
            ranged: None,
            prayer: None,
            magic: None,
        }
    }
}

/// The stat snapshot after an update event: each skill the event provides is
/// decoded and stored; the rest keep their previous value.
pub open spec fn spec_apply_stats(stats: PlayerStats, player: EventPlayer) -> PlayerStats {
    PlayerStats {
        attack: match player.attack {
            Some(raw) => Some(spec_skill_from_raw(raw)),
            None => stats.attack,
        },
        defence: match player.defence {
            Some(raw) => Some(spec_skill_from_raw(raw)),
            None => stats.defence,
        },
        strength: match player.strength {
            Some(raw) => Some(spec_skill_from_raw(raw)),
            None => stats.strength,
        },
        hitpoints: match player.hitpoints {
            Some(raw) => Some(spec_skill_from_raw(raw)),
            None => stats.hitpoints,
        },
        ranged: match player.ranged {
            Some(raw) => Some(spec_skill_from_raw(raw)),
            None => stats.ranged,
        },
        prayer: match player.prayer {
            Some(raw) => Some(spec_skill_from_raw(raw)),
            None => stats.prayer,
        },
        magic: match player.magic {
            Some(raw) => Some(spec_skill_from_raw(raw)),
            None => stats.magic,
        },
    }
}

/// An equipped item: its id and the stacked quantity.
#[derive(Debug, Clone, Copy, PartialEq, Eq, Structural)]
pub struct ItemQuantity(pub i32, pub i32);

impl ItemQuantity {
    /// The item's id.
    pub fn id(&self) -> (r: i32)
        ensures
            r == self.0,
    {
        self.0
    }

    /// The stacked quantity.
    pub fn quantity(&self) -> (r: i32)
        ensures
            r == self.1,
    {
        self.1
    }
}

/// Prayers a player can activate, one bit each in a prayer set.
#[derive(Debug, Clone, Copy, PartialEq, Eq, Structural)]
pub enum Prayer {
    ThickSkin,
    BurstOfStrength,
    ClarityOfThought,
    SharpEye,
    MysticWill,
    RockSkin,
    SuperhumanStrength,
    ImprovedReflexes,
    RapidRestore,
    RapidHeal,
    ProtectItem,
    HawkEye,
    MysticLore,
    SteelSkin,
    UltimateStrength,
    IncredibleReflexes,
    ProtectFromMagic,
    ProtectFromMissiles,
    ProtectFromMelee,
    EagleEye,
    MysticMight,
    Retribution,
    Redemption,
    Smite,
    Preserve,
    Chivalry,
    Piety,
    Rigour,
    Augury,
}

/// Bit position of a prayer within a prayer set.
pub open spec fn spec_prayer_index(p: Prayer) -> u64 {
    match p {
        Prayer::ThickSkin => 0,
        Prayer::BurstOfStrength => 1,
        Prayer::ClarityOfThought => 2,
        Prayer::SharpEye => 3,
        Prayer::MysticWill => 4,
        Prayer::RockSkin => 5,
        Prayer::SuperhumanStrength => 6,
        Prayer::ImprovedReflexes => 7,
        Prayer::RapidRestore => 8,
        Prayer::RapidHeal => 9,
        Prayer::ProtectItem => 10,
        Prayer::HawkEye => 11,
        Prayer::MysticLore => 12,
        Prayer::SteelSkin => 13,
        Prayer::UltimateStrength => 14,
        Prayer::IncredibleReflexes => 15,
        Prayer::ProtectFromMagic => 16,
        Prayer::ProtectFromMissiles => 17,
        Prayer::ProtectFromMelee => 18,
        Prayer::EagleEye => 19,
        Prayer::MysticMight => 20,
        Prayer::Retribution => 21,
        Prayer::Redemption => 22,
        Prayer::Smite => 23,
        Prayer::Preserve => 24,
        Prayer::Chivalry => 25,
        Prayer::Piety => 26,
        Prayer::Rigour => 27,
        Prayer::Augury => 28,
    }
}

impl Prayer {
    /// Bit position of this prayer within a prayer set, in `0..29`.
    pub fn index(self) -> (i: u64)
        ensures
            i == spec_prayer_index(self),
            i <= 28,
    {
        match self {
            Prayer::ThickSkin => 0,
            Prayer::BurstOfStrength => 1,
            Prayer::ClarityOfThought => 2,
            Prayer::SharpEye => 3,
            Prayer::MysticWill => 4,
            Prayer::RockSkin => 5,
            Prayer::SuperhumanStrength => 6,
            Prayer::ImprovedReflexes => 7,
            Prayer::RapidRestore => 8,
            Prayer::RapidHeal => 9,
            Prayer::ProtectItem => 10,
            Prayer::HawkEye => 11,
            Prayer::MysticLore => 12,
            Prayer::SteelSkin => 13,
            Prayer::UltimateStrength => 14,
            Prayer::IncredibleReflexes => 15,
            Prayer::ProtectFromMagic => 16,
            Prayer::ProtectFromMissiles => 17,
            Prayer::ProtectFromMelee => 18,
            Prayer::EagleEye => 19,
            Prayer::MysticMight => 20,
            Prayer::Retribution => 21,
            Prayer::Redemption => 22,
            Prayer::Smite => 23,
            Prayer::Preserve => 24,
            Prayer::Chivalry => 25,
            Prayer::Piety => 26,
            Prayer::Rigour => 27,
            Prayer::Augury => 28,
        }
    }
}

/// Represents a set of prayers that are currently active.
#[derive(Debug, Clone, Copy, PartialEq, Eq, Structural)]
pub struct PrayerSet {
    pub prayers: u64,
}

impl PrayerSet {
    /// Wraps a raw active-prayer bitset.
    pub fn from_raw(raw: u64) -> (s: PrayerSet)
        ensures
            s.prayers == raw,
    {
        PrayerSet { prayers: raw }
    }

    /// The set with no active prayer.
    pub fn empty() -> (s: PrayerSet)
        ensures
            s.prayers == 0,
    {
        PrayerSet { prayers: 0 }
    }

    /// Returns whether `prayer` is active in this set.
    pub fn is_active(self, prayer: Prayer) -> (r: bool)
        ensures
            r == (self.prayers & (1u64 << spec_prayer_index(prayer)) != 0),
    {
        self.prayers & (1u64 << prayer.index()) != 0
    }
}

/// An attack a player performed, with the resolved target NPC record when the
/// stage's NPC table holds it.
#[derive(Debug, Clone, Copy, PartialEq, Eq, Structural)]
pub struct PlayerAttacked {
    pub attack: PlayerAttack,
    pub target: Option<StageNpc>,
}

/// What a player's attack cycle is doing at one tick.
#[derive(Debug, Clone, Copy, PartialEq, Eq, Structural)]
pub enum AttackState {
    /// The player attacked at this tick.
    Attacked(PlayerAttacked),
    /// The player is waiting out a cooldown; the count is always at least 1.
    OnCooldown(u32),
    /// The player may act.
    Idle,
}

/// Whether a player is alive at one tick. `JustDied` marks exactly the tick
/// of death; the next tick it becomes `Dead`.
#[derive(Debug, Clone, Copy, PartialEq, Eq, Structural)]
pub enum DeathState {
    Alive,
    JustDied,
    Dead,
}

/// Attack-state carry-over into the next tick: a cooldown of 1 becomes
/// `Idle`, a longer cooldown counts down, anything else resets to `Idle`.
pub open spec fn spec_tick_attack_state(s: AttackState) -> AttackState {
    match s {
        AttackState::OnCooldown(n) => if n <= 1 {
            AttackState::Idle
        } else {
            AttackState::OnCooldown((n - 1) as u32)
        },
        _ => AttackState::Idle,
    }
}

/// Death-state carry-over into the next tick: `JustDied` becomes `Dead`;
/// any other state resets to `Alive` (death is re-asserted only by events).
pub open spec fn spec_tick_death_state(s: DeathState) -> DeathState {
    match s {
        DeathState::JustDied => DeathState::Dead,
        _ => DeathState::Alive,
    }
}

/// Per-tick snapshot of one player.
#[derive(Debug, Clone, PartialEq, Eq)]
pub struct PlayerState {
    pub tick: u32,
    pub attack_state: AttackState,
    pub death_state: DeathState,
    pub position: Coords,
    pub stats: PlayerStats,
    pub prayers: PrayerSet,
    pub equipment: Vec<Option<ItemQuantity>>,
}

/// Well-formedness of a snapshot; see [`model_wf`].
pub open spec fn state_wf(s: PlayerState) -> bool {
    model_wf(s.model())
}

/// The mathematical value of a per-tick snapshot: every field as a plain
/// value, the equipment vector as a sequence, and the prayer set as its raw
/// bitset.
pub ghost struct StateModel {
    pub tick: u32,
    pub attack_state: AttackState,
    pub death_state: DeathState,
    pub position: Coords,
    pub stats: PlayerStats,
    pub prayers: u64,
    pub equipment: Seq<Option<ItemQuantity>>,
}

/// Well-formedness of a snapshot's value: exactly one entry per equipment
/// slot, every stacked quantity non-negative, and an observable cooldown of
/// at least 1.
pub open spec fn model_wf(m: StateModel) -> bool {
    &&& m.equipment.len() == 11
    &&& forall|i: int| 0 <= i < 11 ==> (#[trigger] m.equipment[i] matches Some(q) ==> q.1 >= 0)
    &&& (m.attack_state matches AttackState::OnCooldown(n) ==> n >= 1)
}

/// The snapshot a player starts from at `tick` with no earlier state known:
/// idle, alive, at the origin, no stats, no prayers, empty equipment.
pub open spec fn model_initial(tick: u32) -> StateModel {
    StateModel {
        tick,
        attack_state: AttackState::Idle,
        death_state: DeathState::Alive,
        position: Coords { x: 0, y: 0 },
        stats: spec_empty_player_stats(),
        prayers: 0,
        equipment: Seq::new(11, |i: int| Option::<ItemQuantity>::None),
    }
}

/// The snapshot carried into the next tick before that tick's events apply:
/// attack and death state follow the carry-over rules, position, prayers and
/// equipment are kept, and stats reset to all-`None`.
pub open spec fn model_next_tick(m: StateModel) -> StateModel {
    StateModel {
        tick: (m.tick + 1) as u32,
        attack_state: spec_tick_attack_state(m.attack_state),
        death_state: spec_tick_death_state(m.death_state),
        position: m.position,
        stats: spec_empty_player_stats(),
        prayers: m.prayers,
        equipment: m.equipment,
    }
}

/// Saturating signed 32-bit addition.
pub open spec fn spec_sat_add_i32(a: int, b: int) -> int {
    if a + b > 0x7fff_ffff {
        0x7fff_ffff
    } else if a + b < -0x8000_0000 {
        -0x8000_0000
    } else {
        a + b
    }
}

/// The equipment vector after one delta applies. An `Add` of the held item id
/// stacks quantities (saturating); an `Add` of a different id replaces the
/// slot's contents; a `Remove` subtracts when the held stack of the same id
/// is strictly larger, and otherwise clears the slot.
pub open spec fn spec_apply_delta(
    eq: Seq<Option<ItemQuantity>>,
    delta: ItemDelta,
) -> Seq<Option<ItemQuantity>> {
    match delta {
        ItemDelta::Add(slot, id, quantity) => {
            let i = slot_index(slot);
            match eq[i] {
                Some(item) => if item.0 == id {
                    eq.update(
                        i,
                        Some(ItemQuantity(id, spec_sat_add_i32(item.1 as int, quantity as int) as i32)),
                    )
                } else {
                    eq.update(i, Some(ItemQuantity(id, quantity)))
                },
                None => eq.update(i, Some(ItemQuantity(id, quantity))),
            }
        },
        ItemDelta::Remove(slot, id, quantity) => {
            let i = slot_index(slot);
            match eq[i] {
                Some(item) => if item.0 == id && item.1 > quantity {
                    eq.update(i, Some(ItemQuantity(id, (item.1 - quantity) as i32)))
                } else {
                    eq.update(i, None)
                },
                None => eq.update(i, None),
            }
        },
    }
}

/// The equipment vector after a whole packed-delta list applies in order, or
/// `None` as soon as one delta's slot bits do not resolve.
pub open spec fn spec_apply_deltas(
    eq: Seq<Option<ItemQuantity>>,
    deltas: Seq<u64>,
) -> Option<Seq<Option<ItemQuantity>>>
    decreases deltas.len(),
{
    if deltas.len() == 0 {
        Some(eq)
    } else if !spec_raw_parses(deltas[0]) {
        None
    } else {
        spec_apply_deltas(spec_apply_delta(eq, spec_parse(deltas[0])), deltas.drop_first())
    }
}

impl PlayerState {
    /// The mathematical value of this snapshot.
    pub open spec fn model(self) -> StateModel {
        StateModel {
            tick: self.tick,
            attack_state: self.attack_state,
            death_state: self.death_state,
            position: self.position,
            stats: self.stats,
            prayers: self.prayers.prayers,
            equipment: self.equipment@,
        }
    }

    /// The snapshot a player starts from at `tick` when no earlier state is
    /// known.
    pub fn initial(tick: u32) -> (s: PlayerState)
        ensures
            s.model() == model_initial(tick),
            state_wf(s),
    {
        let mut equipment: Vec<Option<ItemQuantity>> = Vec::new();
        let mut i: usize = 0;
        while i < 11
            invariant
                i <= 11,
                equipment@.len() == i,
                forall|j: int| 0 <= j < i ==> equipment@[j] is None,
            decreases 11 - i,
        {
            equipment.push(None);
            i = i + 1;
        }
        let s = PlayerState {
            tick,
            attack_state: AttackState::Idle,
            death_state: DeathState::Alive,
            position: Coords { x: 0, y: 0 },
            stats: PlayerStats::empty(),
            prayers: PrayerSet::empty(),
            equipment,
        };
        proof {
            assert(s.equipment@ =~= Seq::new(11, |i: int| Option::<ItemQuantity>::None));
            assert(s.model() == model_initial(tick));
        }
        s
    }

    /// The item equipped in `slot`, if any.
    pub fn equipped_item(&self, slot: EquipmentSlot) -> (r: Option<&ItemQuantity>)
        requires
            state_wf(*self),
        ensures
            match r {
                Some(item) => self.equipment@[slot_index(slot)] == Some(*item),
                None => self.equipment@[slot_index(slot)] is None,
            },
    {
        self.equipment[slot.index()].as_ref()
    }

    /// The state this one carries into the following tick, before that tick's
    /// events apply.
    pub fn next_tick(&self) -> (s: PlayerState)
        requires
            state_wf(*self),
            self.tick < u32::MAX,
        ensures
            s.model() == model_next_tick(self.model()),
            state_wf(s),
    {
        PlayerState {
            tick: self.tick + 1,
            attack_state: match self.attack_state {
                AttackState::OnCooldown(n) => if n <= 1 {
                    AttackState::Idle
                } else {
                    AttackState::OnCooldown(n - 1)
                },
                _ => AttackState::Idle,
            },
            death_state: match self.death_state {
                DeathState::JustDied => DeathState::Dead,
                _ => DeathState::Alive,
            },
            position: self.position,
            stats: PlayerStats::empty(),
            prayers: self.prayers,
            equipment: copy_equipment(&self.equipment),
        }
    }

    /// Applies one equipment delta to this snapshot's equipment vector.
    pub fn apply_equipment_delta(&mut self, delta: ItemDelta)
        requires
            state_wf(*old(self)),
            spec_delta_wf_for_apply(delta),
        ensures
            final(self).model() == (StateModel {
                equipment: spec_apply_delta(old(self).model().equipment, delta),
                ..old(self).model()
            }),
            state_wf(*final(self)),
    {
        match delta {
            ItemDelta::Add(slot, id, quantity) => {
                let index = slot.index();
                let updated = match &self.equipment[index] {
                    Some(item) => {
                        if item.0 == id {
                            Some(ItemQuantity(id, sat_add_i32(item.1, quantity)))
                        } else {
                            Some(ItemQuantity(id, quantity))
                        }
                    },
                    None => Some(ItemQuantity(id, quantity)),
                };
                self.equipment[index] = updated;
            },
            ItemDelta::Remove(slot, id, quantity) => {
                let index = slot.index();
                let updated = match &self.equipment[index] {
                    Some(item) => {
                        if item.0 == id && item.1 > quantity {
                            Some(ItemQuantity(id, item.1 - quantity))
                        } else {
                            None
                        }
                    },
                    None => None,
                };
                self.equipment[index] = updated;
            },
        }
    }

    /// Overwrites each skill the update event provides with its decoded
    /// level; skills the event does not provide keep their value.
    pub fn apply_stats(&mut self, player: &EventPlayer)
        ensures
            final(self).model() == (StateModel {
                stats: spec_apply_stats(old(self).stats, *player),
                ..old(self).model()
            }),
    {
        if let Some(raw) = player.attack {
            self.stats.attack = Some(SkillLevel::from_raw(raw));
        }
        if let Some(raw) = player.defence {
            self.stats.defence = Some(SkillLevel::from_raw(raw));
        }
        if let Some(raw) = player.strength {
            self.stats.strength = Some(SkillLevel::from_raw(raw));
        }
        if let Some(raw) = player.hitpoints {
            self.stats.hitpoints = Some(SkillLevel::from_raw(raw));
        }
        if let Some(raw) = player.ranged {
            self.stats.ranged = Some(SkillLevel::from_raw(raw));
        }
        if let Some(raw) = player.prayer {
            self.stats.prayer = Some(SkillLevel::from_raw(raw));
        }
        if let Some(raw) = player.magic {
            self.stats.magic = Some(SkillLevel::from_raw(raw));
        }
    }
}

/// Saturating signed 64-bit addition.
pub open spec fn spec_sat_add_i64(a: int, b: int) -> int {
    if a + b > i64::MAX {
        i64::MAX as int
    } else if a + b < i64::MIN {
        i64::MIN as int
    } else {
        a + b
    }
}

/// Field-wise saturating sum of two stat blocks.
pub open spec fn spec_add_stats(acc: Stats, s: Stats) -> Stats {
    Stats {
        stab_attack: spec_sat_add_i64(acc.stab_attack as int, s.stab_attack as int) as i64,
        slash_attack: spec_sat_add_i64(acc.slash_attack as int, s.slash_attack as int) as i64,
        crush_attack: spec_sat_add_i64(acc.crush_attack as int, s.crush_attack as int) as i64,
        magic_attack: spec_sat_add_i64(acc.magic_attack as int, s.magic_attack as int) as i64,
        ranged_attack: spec_sat_add_i64(acc.ranged_attack as int, s.ranged_attack as int) as i64,
        stab_defence: spec_sat_add_i64(acc.stab_defence as int, s.stab_defence as int) as i64,
        slash_defence: spec_sat_add_i64(acc.slash_defence as int, s.slash_defence as int) as i64,
        crush_defence: spec_sat_add_i64(acc.crush_defence as int, s.crush_defence as int) as i64,
        magic_defence: spec_sat_add_i64(acc.magic_defence as int, s.magic_defence as int) as i64,
        ranged_defence: spec_sat_add_i64(acc.ranged_defence as int, s.ranged_defence as int) as i64,
        melee_strength: spec_sat_add_i64(acc.melee_strength as int, s.melee_strength as int) as i64,
        ranged_strength: spec_sat_add_i64(
            acc.ranged_strength as int,
            s.ranged_strength as int,
        ) as i64,
        magic_damage: spec_sat_add_i64(acc.magic_damage as int, s.magic_damage as int) as i64,
        prayer: spec_sat_add_i64(acc.prayer as int, s.prayer as int) as i64,
        attack_speed: spec_sat_add_i64(acc.attack_speed as int, s.attack_speed as int) as i64,
    }
}

/// The stat block the registry defines for an equipment entry: the item's
/// stats when the entry holds a registry item carrying some, and zero
/// otherwise.
pub open spec fn spec_entry_stats(registry: Registry, entry: Option<ItemQuantity>) -> Stats {
    match entry {
        Some(item) => match registry.spec_get(item.0) {
            Some(def) => match def.stats {
                Some(stats) => stats,
                None => spec_zero_stats(),
            },
            None => spec_zero_stats(),
        },
        None => spec_zero_stats(),
    }
}

/// The saturating per-field sum of the registry stats of the first `upto`
/// equipment entries.
pub open spec fn spec_equipment_stats(
    registry: Registry,
    eq: Seq<Option<ItemQuantity>>,
    upto: int,
) -> Stats
    decreases upto,
{
    if upto <= 0 {
        spec_zero_stats()
    } else {
        spec_add_stats(
            spec_equipment_stats(registry, eq, upto - 1),
            spec_entry_stats(registry, eq[upto - 1]),
        )
    }
}

/// Saturating signed 64-bit addition.
fn sat_add_i64(a: i64, b: i64) -> (r: i64)
    ensures
        r == spec_sat_add_i64(a as int, b as int),
{
    let wide: i128 = a as i128 + b as i128;
    if wide > i64::MAX as i128 {
        i64::MAX
    } else if wide < i64::MIN as i128 {
        i64::MIN
    } else {
        wide as i64
    }
}

/// Adds a stat block onto an accumulator, field by field, saturating.
fn add_stats(acc: &Stats, s: &Stats) -> (r: Stats)
    ensures
        r == spec_add_stats(*acc, *s),
{
    Stats {
        stab_attack: sat_add_i64(acc.stab_attack, s.stab_attack),
        slash_attack: sat_add_i64(acc.slash_attack, s.slash_attack),
        crush_attack: sat_add_i64(acc.crush_attack, s.crush_attack),
        magic_attack: sat_add_i64(acc.magic_attack, s.magic_attack),
        ranged_attack: sat_add_i64(acc.ranged_attack, s.ranged_attack),
        stab_defence: sat_add_i64(acc.stab_defence, s.stab_defence),
        slash_defence: sat_add_i64(acc.slash_defence, s.slash_defence),
        crush_defence: sat_add_i64(acc.crush_defence, s.crush_defence),
        magic_defence: sat_add_i64(acc.magic_defence, s.magic_defence),
        ranged_defence: sat_add_i64(acc.ranged_defence, s.ranged_defence),
        melee_strength: sat_add_i64(acc.melee_strength, s.melee_strength),
        ranged_strength: sat_add_i64(acc.ranged_strength, s.ranged_strength),
        magic_damage: sat_add_i64(acc.magic_damage, s.magic_damage),
        prayer: sat_add_i64(acc.prayer, s.prayer),
        attack_speed: sat_add_i64(acc.attack_speed, s.attack_speed),
    }
}

impl PlayerState {
    /// Sums the combat bonuses of every equipped registry item, field by
    /// field, saturating on overflow.
    pub fn equipment_stats(&self, registry: &Registry) -> (r: Stats)
        requires
            state_wf(*self),
        ensures
            r == spec_equipment_stats(*registry, self.equipment@, 11),
    {
        let mut acc = Stats::default();
        let mut i: usize = 0;
        while i < 11
            invariant
                i <= 11,
                state_wf(*self),
                acc == spec_equipment_stats(*registry, self.equipment@, i as int),
            decreases 11 - i,
        {
            match &self.equipment[i] {
                Some(item) => {
                    match registry.get(item.0) {
                        Some(def) => match &def.stats {
                            Some(stats) => {
                                acc = add_stats(&acc, stats);
                            },
                            None => {
                                acc = add_stats(&acc, &Stats::default());
                            },
                        },
                        None => {
                            acc = add_stats(&acc, &Stats::default());
                        },
                    }
                },
                None => {
                    acc = add_stats(&acc, &Stats::default());
                },
            }
            i = i + 1;
        }
        acc
    }
}

/// Quantities in a delta parsed from the wire always satisfy this bound; it
/// keeps stacked quantities non-negative.
pub open spec fn spec_delta_wf_for_apply(delta: ItemDelta) -> bool {
    match delta {
        ItemDelta::Add(_, _, quantity) => quantity >= 0,
        ItemDelta::Remove(_, _, quantity) => quantity >= 0,
    }
}

/// Saturating signed 32-bit addition.
fn sat_add_i32(a: i32, b: i32) -> (r: i32)
    ensures
        r == spec_sat_add_i32(a as int, b as int),
{
    let wide: i64 = a as i64 + b as i64;
    if wide > 0x7fff_ffff {
        i32::MAX
    } else if wide < -0x8000_0000 {
        i32::MIN
    } else {
        wide as i32
    }
}

/// Copies an equipment vector.
fn copy_equipment(eq: &Vec<Option<ItemQuantity>>) -> (r: Vec<Option<ItemQuantity>>)
    ensures
        r@ == eq@,
{
    let mut out: Vec<Option<ItemQuantity>> = Vec::new();
    let n = eq.len();
    let mut i: usize = 0;
    while i < n
        invariant
            i <= n,
            n == eq@.len(),
            out@ == eq@.subrange(0, i as int),
        decreases n - i,
    {
        out.push(eq[i]);
        proof {
            assert(out@ =~= eq@.subrange(0, i + 1 as int));
        }
        i = i + 1;
    }
    proof {
        assert(out@ =~= eq@);
    }
    out
}

} // verus!
