//! A `GearAnalyzer` determines what gear each player has in each stage of a
//! challenge.

use vstd::prelude::*;

use crate::analysis::Context;
use crate::challenge::Challenge;
use crate::error::Error;
use crate::event::Stage;
use crate::item::{self, spec_is_void, Registry};
use crate::challenge::challenge_wf;
use crate::player::{state_wf, ItemQuantity, PlayerState};
use crate::stage::{
    spec_party_index, spec_state_entry_ok, spec_states_ok, stage_player_states, StageInfo,
};

verus! {

/// A `GearAnalyzer` determines what gear each player has in each stage of a
/// challenge.
#[derive(Debug)]
pub struct GearAnalyzer {}

impl GearAnalyzer {
    /// Builds the analyzer; it takes no configuration.
    pub fn new() -> GearAnalyzer {
        GearAnalyzer {}
    }
}

/// The item ids a player had during one stage.
#[derive(Debug)]
pub struct StageItems {
    pub stage: Stage,
    pub item_ids: Vec<i32>,
}

/// Gear information of one player: per-stage item ids, and whether any Void
/// piece was seen.
#[derive(Debug)]
pub struct GearInfo {
    pub items_by_stage: Vec<StageItems>,
    pub has_void: bool,
}

/// Index of the first per-stage entry for `stage`, or `-1` when absent.
pub open spec fn spec_stage_items_index(items: Seq<StageItems>, stage: Stage, upto: int) -> int
    decreases upto,
{
    if upto <= 0 {
        -1
    } else if spec_stage_items_index(items, stage, upto - 1) >= 0 {
        spec_stage_items_index(items, stage, upto - 1)
    } else if items[upto - 1].stage == stage {
        upto - 1
    } else {
        -1
    }
}

/// True when the player's gear lists `item_id` for `stage`.
pub open spec fn spec_has(info: GearInfo, stage: Stage, item_id: i32) -> bool {
    let idx = spec_stage_items_index(
        info.items_by_stage@,
        stage,
        info.items_by_stage@.len() as int,
    );
    idx >= 0 && info.items_by_stage@[idx].item_ids@.contains(item_id)
}

/// True when the player's gear lists `item_id` for any stage.
pub open spec fn spec_has_in_challenge(info: GearInfo, item_id: i32) -> bool {
    exists|s: int|
        0 <= s < info.items_by_stage@.len() && (#[trigger] info.items_by_stage@[s]).item_ids@.contains(
            item_id,
        )
}

/// Per-player gear information keyed by username.
#[derive(Debug)]
pub struct PlayerGear {
    pub players: Vec<(String, GearInfo)>,
}

/// Index of the first player entry for `name`, or `-1` when absent.
pub open spec fn spec_player_gear_index(
    players: Seq<(String, GearInfo)>,
    name: Seq<char>,
    upto: int,
) -> int
    decreases upto,
{
    if upto <= 0 {
        -1
    } else if spec_player_gear_index(players, name, upto - 1) >= 0 {
        spec_player_gear_index(players, name, upto - 1)
    } else if players[upto - 1].0@ == name {
        upto - 1
    } else {
        -1
    }
}

impl PlayerGear {
    /// Returns gear information for the specified player, if the analyzer
    /// produced any for that username.
    pub fn player(&self, username: &String) -> (r: Option<Player>)
        ensures
            ({
                let idx = spec_player_gear_index(
                    self.players@,
                    username@,
                    self.players@.len() as int,
                );
                match r {
                    Some(p) => idx >= 0 && *p.gear == self.players@[idx].1,
                    None => idx < 0,
                }
            }),
    {
        let n = self.players.len();
        let mut i: usize = 0;
        while i < n
            invariant
                i <= n,
                n == self.players@.len(),
                spec_player_gear_index(self.players@, username@, i as int) < 0,
            decreases n - i,
        {
            if self.players[i].0 == *username {
                proof {
                    lemma_player_gear_index_extend(self.players@, username@, i as int, n as int);
                }
                return Some(Player { gear: &self.players[i].1 });
            }
            i = i + 1;
        }
        None
    }
}

/// When the first match sits at position `i`, every wider search returns it.
proof fn lemma_player_gear_index_extend(
    players: Seq<(String, GearInfo)>,
    name: Seq<char>,
    i: int,
    upto: int,
)
    requires
        0 <= i < upto <= players.len(),
        spec_player_gear_index(players, name, i) < 0,
        players[i].0@ == name,
    ensures
        spec_player_gear_index(players, name, upto) == i,
    decreases upto,
{
    if upto - 1 > i {
        lemma_player_gear_index_extend(players, name, i, upto - 1);
    }
}

/// Holds information about the gear a player owns during a challenge.
/// Gear ownership is split by stage, as players may trade items between
/// stages.
#[derive(Debug, Clone, Copy)]
pub struct Player<'a> {
    pub gear: &'a GearInfo,
}

impl<'a> Player<'a> {
    /// Returns whether the player has an item with the given ID during the
    /// specified stage.
    pub fn has(&self, stage: Stage, item_id: i32) -> (r: bool)
        ensures
            r == spec_has(*self.gear, stage, item_id),
    {
        let items = &self.gear.items_by_stage;
        let n = items.len();
        let mut i: usize = 0;
        while i < n
            invariant
                i <= n,
                n == items@.len(),
                spec_stage_items_index(items@, stage, i as int) < 0,
            decreases n - i,
        {
            if items[i].stage == stage {
                proof {
                    lemma_stage_items_index_extend(items@, stage, i as int, n as int);
                }
                return contains_id(&items[i].item_ids, item_id);
            }
            i = i + 1;
        }
        false
    }

    /// Returns whether the player has an item with any of the given IDs
    /// during the specified stage.
    pub fn has_any(&self, stage: Stage, item_ids: &Vec<i32>) -> (r: bool)
        ensures
            r == exists|k: int|
                0 <= k < item_ids@.len() && spec_has(*self.gear, stage, #[trigger] item_ids@[k]),
    {
        let n = item_ids.len();
        let mut k: usize = 0;
        while k < n
            invariant
                k <= n,
                n == item_ids@.len(),
                forall|j: int| 0 <= j < k ==> !spec_has(*self.gear, stage, #[trigger] item_ids@[j]),
            decreases n - k,
        {
            if self.has(stage, item_ids[k]) {
                return true;
            }
            k = k + 1;
        }
        false
    }

    /// Returns whether the player has an item with the given ID during any
    /// stage of the challenge.
    pub fn has_in_challenge(&self, item_id: i32) -> (r: bool)
        ensures
            r == spec_has_in_challenge(*self.gear, item_id),
    {
        let items = &self.gear.items_by_stage;
        let n = items.len();
        let mut i: usize = 0;
        while i < n
            invariant
                i <= n,
                n == items@.len(),
                forall|s: int|
                    0 <= s < i ==> !(#[trigger] items@[s]).item_ids@.contains(item_id),
            decreases n - i,
        {
            if contains_id(&items[i].item_ids, item_id) {
                return true;
            }
            i = i + 1;
        }
        false
    }

    /// Returns whether the player has an item with any of the given IDs
    /// during any stage of the challenge.
    pub fn has_any_in_challenge(&self, item_ids: &Vec<i32>) -> (r: bool)
        ensures
            r == exists|k: int|
                0 <= k < item_ids@.len() && spec_has_in_challenge(
                    *self.gear,
                    #[trigger] item_ids@[k],
                ),
    {
        let n = item_ids.len();
        let mut k: usize = 0;
        while k < n
            invariant
                k <= n,
                n == item_ids@.len(),
                forall|j: int|
                    0 <= j < k ==> !spec_has_in_challenge(*self.gear, #[trigger] item_ids@[j]),
            decreases n - k,
        {
            if self.has_in_challenge(item_ids[k]) {
                return true;
            }
            k = k + 1;
        }
        false
    }

    /// Returns whether the player has Void gear of the specified style. As
    /// Void is untradeable, specifying a stage is unnecessary.
    pub fn has_void(&self, style: item::VoidStyle) -> (r: bool)
        ensures
            match style {
                item::VoidStyle::Mage => r == (spec_has_in_challenge(
                    *self.gear,
                    item::Id::VOID_MAGE_HELM,
                ) || spec_has_in_challenge(*self.gear, item::Id::VOID_MAGE_HELM_OR)),
                item::VoidStyle::Ranged => r == (spec_has_in_challenge(
                    *self.gear,
                    item::Id::VOID_RANGER_HELM,
                ) || spec_has_in_challenge(*self.gear, item::Id::VOID_RANGER_HELM_OR)),
                item::VoidStyle::Melee => r == (spec_has_in_challenge(
                    *self.gear,
                    item::Id::VOID_MELEE_HELM,
                ) || spec_has_in_challenge(*self.gear, item::Id::VOID_MELEE_HELM_OR)),
                item::VoidStyle::Any => r == self.gear.has_void,
            },
    {
        match style {
            item::VoidStyle::Mage => {
                self.has_in_challenge(item::Id::VOID_MAGE_HELM) || self.has_in_challenge(
                    item::Id::VOID_MAGE_HELM_OR,
                )
            },
            item::VoidStyle::Ranged => {
                self.has_in_challenge(item::Id::VOID_RANGER_HELM) || self.has_in_challenge(
                    item::Id::VOID_RANGER_HELM_OR,
                )
            },
            item::VoidStyle::Melee => {
                self.has_in_challenge(item::Id::VOID_MELEE_HELM) || self.has_in_challenge(
                    item::Id::VOID_MELEE_HELM_OR,
                )
            },
            item::VoidStyle::Any => self.gear.has_void,
        }
    }
}

/// When the first match sits at position `i`, every wider search returns it.
proof fn lemma_stage_items_index_extend(items: Seq<StageItems>, stage: Stage, i: int, upto: int)
    requires
        0 <= i < upto <= items.len(),
        spec_stage_items_index(items, stage, i) < 0,
        items[i].stage == stage,
    ensures
        spec_stage_items_index(items, stage, upto) == i,
    decreases upto,
{
    if upto - 1 > i {
        lemma_stage_items_index_extend(items, stage, i, upto - 1);
    }
}

/// Returns whether an id list contains `id`.
fn contains_id(ids: &Vec<i32>, id: i32) -> (r: bool)
    ensures
        r == ids@.contains(id),
{
    let n = ids.len();
    let mut i: usize = 0;
    while i < n
        invariant
            i <= n,
            n == ids@.len(),
            forall|j: int| 0 <= j < i ==> (#[trigger] ids@[j]) != id,
        decreases n - i,
    {
        if ids[i] == id {
            return true;
        }
        i = i + 1;
    }
    false
}

/// Records one equipment slot's content: the id of an equipped registry item
/// is added to the id list (once), and the Void flag is raised for Void
/// pieces.
fn note_item(gear: &mut Vec<i32>, registry: &Registry, entry: &Option<ItemQuantity>, has_void: &mut bool)
    ensures
        forall|id: i32|
            (#[trigger] final(gear)@.contains(id)) == (old(gear)@.contains(id) || (entry matches
            Some(item) && item.0 == id && registry.spec_get(id) is Some)),
        *final(has_void) == (*old(has_void) || (entry matches Some(item) && registry.spec_get(
            item.0,
        ) is Some && spec_is_void(item.0))),
{
    match entry {
        Some(item) => {
            let id = item.0;
            if registry.get(id).is_some() {
                let ghost before = gear@;
                if !contains_id(gear, id) {
                    gear.push(id);
                }
                if item::is_void(id) {
                    *has_void = true;
                }
                proof {
                    assert forall|x: i32| (#[trigger] gear@.contains(x)) == (before.contains(x) || x
                        == id) by {
                        if gear@.contains(x) {
                            let j = choose|j: int| 0 <= j < gear@.len() && gear@[j] == x;
                            if j < before.len() {
                                assert(before[j] == x);
                            }
                        } else {
                            if before.contains(x) {
                                let j = choose|j: int| 0 <= j < before.len() && before[j] == x;
                                assert(gear@[j] == x);
                                assert(false);
                            }
                            if x == id {
                                if before.contains(id) {
                                    assert(false);
                                } else {
                                    assert(gear@[gear@.len() - 1] == id);
                                    assert(false);
                                }
                            }
                        }
                    }
                }
            }
        },
        None => {},
    }
}

/// True when the player snapshot at tick `t`, slot `b` of `states` holds an
/// item with id `id`.
pub open spec fn spec_equipped_at(
    states: Seq<Option<PlayerState>>,
    t: int,
    b: int,
    id: i32,
) -> bool {
    states[t] matches Some(st) && st.equipment@[b] matches Some(item) && item.0 == id
}

/// True when the player at stage-party position `idx` of `info` ever has an
/// item with id `id` equipped during the stage.
pub open spec fn spec_equipped_in_stage(info: StageInfo, idx: int, id: i32) -> bool {
    exists|t: int, b: int|
        0 <= t < info.player_state@[idx]@.len() && 0 <= b < 11 && spec_equipped_at(
            #[trigger] info.player_state@[idx]@,
            t,
            b,
            id,
        )
}

/// True when the gear analyzer lists `id` for challenge-party member `p` in
/// stage `s`: the player appears in that stage's party, has the item
/// equipped at some tick, and the item registry defines it.
pub open spec fn spec_gear_id_ok(c: Challenge, reg: Registry, p: int, s: int, id: i32) -> bool {
    let info = c.spec_stages()[s];
    let idx = spec_party_index(info.party@, c.spec_party()[p]@, info.party@.len() as int);
    &&& idx >= 0
    &&& spec_equipped_in_stage(info, idx, id)
    &&& reg.spec_get(id) is Some
}

impl GearAnalyzer {
    /// Determines, for every challenge-party member and every stage, the set
    /// of registry items the player had equipped at any tick of the stage,
    /// and whether any Void piece was seen. Fails with incomplete data
    /// exactly when some party member has no state in some stage.
    pub fn analyze(&self, context: &Context) -> (r: Result<PlayerGear, Error>)
        requires
            challenge_wf(context.spec_challenge()),
        ensures
            ({
                let c = context.spec_challenge();
                let reg = context.spec_item_registry();
                match r {
                    Ok(pg) => {
                        &&& forall|p: int, s: int|
                            0 <= p < c.spec_party().len() && 0 <= s < c.spec_stages().len()
                                ==> spec_party_index(
                                (#[trigger] c.spec_stages()[s]).party@,
                                (#[trigger] c.spec_party()[p])@,
                                c.spec_stages()[s].party@.len() as int,
                            ) >= 0
                        &&& pg.players@.len() == c.spec_party().len()
                        &&& forall|p: int|
                            0 <= p < c.spec_party().len() ==> (#[trigger] pg.players@[p]).0@
                                == c.spec_party()[p]@
                        &&& forall|p: int|
                            0 <= p < c.spec_party().len()
                                ==> (#[trigger] pg.players@[p]).1.items_by_stage@.len()
                                == c.spec_stages().len()
                        &&& forall|p: int, s: int|
                            0 <= p < c.spec_party().len() && 0 <= s < c.spec_stages().len() ==> (
                            #[trigger] pg.players@[p].1.items_by_stage@[s]).stage
                                == c.spec_stages()[s].stage
                        &&& forall|p: int, s: int, id: i32|
                            0 <= p < c.spec_party().len() && 0 <= s < c.spec_stages().len() ==> ((
                            #[trigger] pg.players@[p].1.items_by_stage@[s].item_ids@.contains(id))
                                == spec_gear_id_ok(c, reg, p, s, id))
                        &&& forall|p: int|
                            0 <= p < c.spec_party().len() ==> ((#[trigger] pg.players@[p]).1.has_void
                                == exists|s: int, id: i32|
                                0 <= s < c.spec_stages().len() && #[trigger] spec_gear_id_ok(
                                    c,
                                    reg,
                                    p,
                                    s,
                                    id,
                                ) && spec_is_void(id))
                    },
                    Err(e) => {
                        &&& e == Error::IncompleteData
                        &&& exists|p: int, s: int|
                            0 <= p < c.spec_party().len() && 0 <= s < c.spec_stages().len()
                                && spec_party_index(
                                (#[trigger] c.spec_stages()[s]).party@,
                                (#[trigger] c.spec_party()[p])@,
                                c.spec_stages()[s].party@.len() as int,
                            ) < 0
                    },
                }
            }),
    {
        let challenge = context.challenge();
        let registry = context.item_registry();
        let party = challenge.party();
        let stages = challenge.stage_infos();
        let num_players = party.len();
        let num_stages = stages.len();

        let mut players: Vec<(String, GearInfo)> = Vec::new();
        let mut p: usize = 0;
        while p < num_players
            invariant
                p <= num_players,
                num_players == challenge.spec_party().len(),
                num_stages == challenge.spec_stages().len(),
                party@ == challenge.spec_party(),
                stages@ == challenge.spec_stages(),
                *challenge == context.spec_challenge(),
                *registry == context.spec_item_registry(),
                players@.len() == p,
                forall|q: int|
                    0 <= q < p ==> (#[trigger] players@[q]).0@ == challenge.spec_party()[q]@,
                forall|q: int|
                    0 <= q < p ==> (#[trigger] players@[q]).1.items_by_stage@.len()
                        == challenge.spec_stages().len(),
                forall|q: int, s: int|
                    0 <= q < p && 0 <= s < num_stages ==> (
                    #[trigger] players@[q].1.items_by_stage@[s]).stage
                        == challenge.spec_stages()[s].stage,
                forall|q: int, s: int, id: i32|
                    0 <= q < p && 0 <= s < num_stages ==> ((
                    #[trigger] players@[q].1.items_by_stage@[s].item_ids@.contains(id))
                        == spec_gear_id_ok(
                        context.spec_challenge(),
                        context.spec_item_registry(),
                        q,
                        s,
                        id,
                    )),
                forall|q: int|
                    0 <= q < p ==> ((#[trigger] players@[q]).1.has_void == exists|s: int, id: i32|
                        0 <= s < num_stages && #[trigger] spec_gear_id_ok(
                            context.spec_challenge(),
                            context.spec_item_registry(),
                            q,
                            s,
                            id,
                        ) && spec_is_void(id)),
                forall|q: int, v: int|
                    0 <= q < p && 0 <= v < num_stages ==> spec_party_index(
                        (#[trigger] challenge.spec_stages()[v]).party@,
                        (#[trigger] challenge.spec_party()[q])@,
                        challenge.spec_stages()[v].party@.len() as int,
                    ) >= 0,
            decreases num_players - p,
        {
            let username = &party[p];
            let mut items_by_stage: Vec<StageItems> = Vec::new();
            let mut has_void = false;
            let mut s: usize = 0;
            while s < num_stages
                invariant
                    s <= num_stages,
                    p < num_players,
                    num_players == challenge.spec_party().len(),
                    num_stages == challenge.spec_stages().len(),
                    party@ == challenge.spec_party(),
                    stages@ == challenge.spec_stages(),
                    *challenge == context.spec_challenge(),
                    *registry == context.spec_item_registry(),
                    *username == challenge.spec_party()[p as int],
                    items_by_stage@.len() == s,
                    forall|v: int|
                        0 <= v < s ==> (#[trigger] items_by_stage@[v]).stage
                            == challenge.spec_stages()[v].stage,
                    forall|v: int, id: i32|
                        0 <= v < s ==> ((#[trigger] items_by_stage@[v].item_ids@.contains(id))
                            == spec_gear_id_ok(
                            context.spec_challenge(),
                            context.spec_item_registry(),
                            p as int,
                            v,
                            id,
                        )),
                    has_void == exists|v: int, id: i32|
                        0 <= v < s && #[trigger] spec_gear_id_ok(
                            context.spec_challenge(),
                            context.spec_item_registry(),
                            p as int,
                            v,
                            id,
                        ) && spec_is_void(id),
                    forall|v: int|
                        0 <= v < s ==> spec_party_index(
                            (#[trigger] challenge.spec_stages()[v]).party@,
                            challenge.spec_party()[p as int]@,
                            challenge.spec_stages()[v].party@.len() as int,
                        ) >= 0,
                    forall|q: int, v: int|
                        0 <= q < p && 0 <= v < num_stages ==> spec_party_index(
                            (#[trigger] challenge.spec_stages()[v]).party@,
                            (#[trigger] challenge.spec_party()[q])@,
                            challenge.spec_stages()[v].party@.len() as int,
                        ) >= 0,
                decreases num_stages - s,
            {
                let info = &stages[s];
                let states = match stage_player_states(info, username) {
                    Some(states) => states,
                    None => {
                        return Err(Error::IncompleteData);
                    },
                };
                let ghost idx = spec_party_index(
                    info.party@,
                    username@,
                    info.party@.len() as int,
                );
                proof {
                    assert forall|tt: int|
                        0 <= tt < states@.len() implies (#[trigger] states@[tt]) matches Some(st)
                        && st.equipment@.len() == 11 by {
                        assert(spec_state_entry_ok(states@, info.events.all@, idx, info.npcs@, tt));
                    }
                }
                let num_ticks = states.len();
                let mut gear: Vec<i32> = Vec::new();
                let ghost void_before = has_void;
                let mut t: usize = 0;
                while t < num_ticks
                    invariant
                        t <= num_ticks,
                        num_ticks == states@.len(),
                        *registry == context.spec_item_registry(),
                        states@ == stages@[s as int].player_state@[idx]@,
                        0 <= idx < stages@[s as int].party@.len(),
                        s < num_stages,
                        num_stages == stages@.len(),
                        forall|id: i32|
                            (#[trigger] gear@.contains(id)) == (exists|a: int, b: int|
                                0 <= a < t && 0 <= b < 11 && spec_equipped_at(states@, a, b, id)
                                    && context.spec_item_registry().spec_get(id) is Some),
                        has_void == (void_before || exists|id: i32|
                            #[trigger] gear@.contains(id) && spec_is_void(id)),
                    decreases num_ticks - t,
                {
                    match &states[t] {
                        Some(state) => {
                            let mut b: usize = 0;
                            while b < 11
                                invariant
                                    b <= 11,
                                    states@[t as int] == Some(*state),
                                    state.equipment@.len() == 11,
                                    forall|id: i32|
                                        (#[trigger] gear@.contains(id)) == (exists|a: int, bb: int|
                                            0 <= a < num_ticks && 0 <= bb < 11 && (a < t || (a == t
                                                && bb < b)) && spec_equipped_at(states@, a, bb, id)
                                                && context.spec_item_registry().spec_get(
                                                id,
                                            ) is Some),
                                    has_void == (void_before || exists|id: i32|
                                        #[trigger] gear@.contains(id) && spec_is_void(id)),
                                decreases 11 - b,
                            {
                                let ghost gear_before = gear@;
                                let ghost void_prev = has_void;
                                note_item(&mut gear, registry, &state.equipment[b], &mut has_void);
                                proof {
                                    assert forall|id: i32| (#[trigger] gear@.contains(id)) == (
                                    exists|a: int, bb: int|
                                        0 <= a < num_ticks && 0 <= bb < 11 && (a < t || (a == t
                                            && bb < b + 1)) && spec_equipped_at(states@, a, bb, id)
                                            && context.spec_item_registry().spec_get(
                                            id,
                                        ) is Some) by {
                                        if gear@.contains(id) {
                                            if gear_before.contains(id) {
                                                let (a, bb) = choose|a: int, bb: int|
                                                    0 <= a < num_ticks && 0 <= bb < 11 && (a < t
                                                        || (a == t && bb < b))
                                                        && spec_equipped_at(states@, a, bb, id)
                                                        && context.spec_item_registry().spec_get(
                                                        id,
                                                    ) is Some;
                                                assert(spec_equipped_at(states@, a, bb, id));
                                            } else {
                                                assert(spec_equipped_at(
                                                    states@,
                                                    t as int,
                                                    b as int,
                                                    id,
                                                ));
                                            }
                                        } else {
                                            if exists|a: int, bb: int|
                                                0 <= a < num_ticks && 0 <= bb < 11 && (a < t || (a
                                                    == t && bb < b + 1)) && spec_equipped_at(
                                                    states@,
                                                    a,
                                                    bb,
                                                    id,
                                                ) && context.spec_item_registry().spec_get(
                                                    id,
                                                ) is Some {
                                                let (a, bb) = choose|a: int, bb: int|
                                                    0 <= a < num_ticks && 0 <= bb < 11 && (a < t
                                                        || (a == t && bb < b + 1))
                                                        && spec_equipped_at(states@, a, bb, id)
                                                        && context.spec_item_registry().spec_get(
                                                        id,
                                                    ) is Some;
                                                if a < t || (a == t && bb < b) {
                                                    assert(gear_before.contains(id));
                                                    assert(false);
                                                } else {
                                                    assert(a == t && bb == b);
                                                    assert(gear@.contains(id));
                                                    assert(false);
                                                }
                                            }
                                        }
                                    }
                                    assert(has_void == (void_before || exists|id2: i32|
                                        #[trigger] gear@.contains(id2) && spec_is_void(id2))) by {
                                        if has_void {
                                            if !void_prev {
                                                let item = state.equipment@[b as int]->Some_0;
                                                assert(gear@.contains(item.0));
                                            } else {
                                                if !void_before {
                                                    let w = choose|w: i32|
                                                        gear_before.contains(w) && spec_is_void(w);
                                                    assert(gear@.contains(w));
                                                }
                                            }
                                        } else {
                                            if exists|id2: i32|
                                                #[trigger] gear@.contains(id2) && spec_is_void(
                                                    id2,
                                                ) {
                                                let w = choose|w: i32|
                                                    gear@.contains(w) && spec_is_void(w);
                                                if gear_before.contains(w) {
                                                    assert(void_prev);
                                                    assert(false);
                                                } else {
                                                    assert(has_void);
                                                    assert(false);
                                                }
                                            }
                                        }
                                    }
                                }
                                b = b + 1;
                            }
                            proof {
                                assert forall|id: i32| (#[trigger] gear@.contains(id)) == (exists|
                                    a: int,
                                    bb: int,
                                |
                                    0 <= a < t + 1 && 0 <= bb < 11 && spec_equipped_at(
                                        states@,
                                        a,
                                        bb,
                                        id,
                                    ) && context.spec_item_registry().spec_get(id) is Some) by {
                                    if gear@.contains(id) {
                                        let (a, bb) = choose|a: int, bb: int|
                                            0 <= a < num_ticks && 0 <= bb < 11 && (a < t || (a == t
                                                && bb < 11)) && spec_equipped_at(states@, a, bb, id)
                                                && context.spec_item_registry().spec_get(
                                                id,
                                            ) is Some;
                                        assert(0 <= a < t + 1 && spec_equipped_at(
                                            states@,
                                            a,
                                            bb,
                                            id,
                                        ));
                                    } else {
                                        if exists|a: int, bb: int|
                                            0 <= a < t + 1 && 0 <= bb < 11 && spec_equipped_at(
                                                states@,
                                                a,
                                                bb,
                                                id,
                                            ) && context.spec_item_registry().spec_get(
                                                id,
                                            ) is Some {
                                            let (a, bb) = choose|a: int, bb: int|
                                                0 <= a < t + 1 && 0 <= bb < 11 && spec_equipped_at(
                                                    states@,
                                                    a,
                                                    bb,
                                                    id,
                                                ) && context.spec_item_registry().spec_get(
                                                    id,
                                                ) is Some;
                                            assert(a < t || (a == t && bb < 11));
                                            assert(false);
                                        }
                                    }
                                }
                            }
                        },
                        None => {
                            proof {
                                assert forall|id: i32| (#[trigger] gear@.contains(id)) == (exists|
                                    a: int,
                                    bb: int,
                                |
                                    0 <= a < t + 1 && 0 <= bb < 11 && spec_equipped_at(
                                        states@,
                                        a,
                                        bb,
                                        id,
                                    ) && context.spec_item_registry().spec_get(id) is Some) by {
                                    if gear@.contains(id) {
                                        let (a, bb) = choose|a: int, bb: int|
                                            0 <= a < t && 0 <= bb < 11 && spec_equipped_at(
                                                states@,
                                                a,
                                                bb,
                                                id,
                                            ) && context.spec_item_registry().spec_get(
                                                id,
                                            ) is Some;
                                        assert(spec_equipped_at(states@, a, bb, id));
                                    } else {
                                        if exists|a: int, bb: int|
                                            0 <= a < t + 1 && 0 <= bb < 11 && spec_equipped_at(
                                                states@,
                                                a,
                                                bb,
                                                id,
                                            ) && context.spec_item_registry().spec_get(
                                                id,
                                            ) is Some {
                                            let (a, bb) = choose|a: int, bb: int|
                                                0 <= a < t + 1 && 0 <= bb < 11 && spec_equipped_at(
                                                    states@,
                                                    a,
                                                    bb,
                                                    id,
                                                ) && context.spec_item_registry().spec_get(
                                                    id,
                                                ) is Some;
                                            assert(a < t);
                                            assert(false);
                                        }
                                    }
                                }
                            }
                        },
                    }
                    t = t + 1;
                }
                proof {
                    assert forall|id: i32| (#[trigger] gear@.contains(id)) == spec_gear_id_ok(
                        context.spec_challenge(),
                        context.spec_item_registry(),
                        p as int,
                        s as int,
                        id,
                    ) by {
                        if gear@.contains(id) {
                            let (a, bb) = choose|a: int, bb: int|
                                0 <= a < num_ticks && 0 <= bb < 11 && spec_equipped_at(
                                    states@,
                                    a,
                                    bb,
                                    id,
                                ) && context.spec_item_registry().spec_get(id) is Some;
                            assert(spec_equipped_in_stage(stages@[s as int], idx, id));
                        } else {
                            if spec_gear_id_ok(
                                context.spec_challenge(),
                                context.spec_item_registry(),
                                p as int,
                                s as int,
                                id,
                            ) {
                                let (a, bb) = choose|a: int, bb: int|
                                    0 <= a < stages@[s as int].player_state@[idx]@.len() && 0 <= bb
                                        < 11 && spec_equipped_at(
                                        stages@[s as int].player_state@[idx]@,
                                        a,
                                        bb,
                                        id,
                                    );
                                assert(spec_equipped_at(states@, a, bb, id));
                                assert(false);
                            }
                        }
                    }
                    assert(has_void == (void_before || exists|v: int, id2: i32|
                        0 <= v < s + 1 && #[trigger] spec_gear_id_ok(
                            context.spec_challenge(),
                            context.spec_item_registry(),
                            p as int,
                            v,
                            id2,
                        ) && spec_is_void(id2))) by {
                        if has_void {
                            if void_before {
                                if exists|v: int, id2: i32|
                                    0 <= v < s && #[trigger] spec_gear_id_ok(
                                        context.spec_challenge(),
                                        context.spec_item_registry(),
                                        p as int,
                                        v,
                                        id2,
                                    ) && spec_is_void(id2) {
                                } else {
                                    assert(false);
                                }
                            } else {
                                let w = choose|w: i32| gear@.contains(w) && spec_is_void(w);
                                assert(spec_gear_id_ok(
                                    context.spec_challenge(),
                                    context.spec_item_registry(),
                                    p as int,
                                    s as int,
                                    w,
                                ));
                            }
                        } else {
                            if exists|v: int, id2: i32|
                                0 <= v < s + 1 && #[trigger] spec_gear_id_ok(
                                    context.spec_challenge(),
                                    context.spec_item_registry(),
                                    p as int,
                                    v,
                                    id2,
                                ) && spec_is_void(id2) {
                                let (v, id2) = choose|v: int, id2: i32|
                                    0 <= v < s + 1 && #[trigger] spec_gear_id_ok(
                                        context.spec_challenge(),
                                        context.spec_item_registry(),
                                        p as int,
                                        v,
                                        id2,
                                    ) && spec_is_void(id2);
                                if v < s {
                                    assert(has_void);
                                } else {
                                    assert(gear@.contains(id2));
                                }
                                assert(false);
                            }
                        }
                    }
                }
                items_by_stage.push(StageItems { stage: info.stage, item_ids: gear });
                s = s + 1;
            }
            players.push((username.clone(), GearInfo { items_by_stage, has_void }));
            p = p + 1;
        }
        Ok(PlayerGear { players })
    }
}

} // verus!
