//! Per-stage replay reconstruction: the tick-indexed event view and the dense
//! per-tick state snapshot of every party member.

use vstd::prelude::*;
use vstd::seq_lib::group_seq_lib_default;

use crate::delta::{lemma_parse_delta_bounds, spec_parse, spec_raw_parses, ItemDelta};
use crate::error::Error;
use crate::event::{
    event_type_index, npcs_for_stage, spec_npcs_for_stage, ChallengeData, ChallengeEvents, Coords,
    Event, EventType, PlayerAttack, Stage, StageNpc,
};
use crate::player::{
    model_initial, model_next_tick, spec_apply_delta, spec_apply_deltas, spec_apply_stats,
    state_wf, AttackState, DeathState, ItemQuantity, PlayerAttacked, PlayerState, PrayerSet,
    StateModel,
};
use crate::text::{append_decimal, spec_decimal};

verus! {

broadcast use group_seq_lib_default;

/// True when the event list is ordered by tick, ascending.
pub open spec fn spec_events_sorted(evs: Seq<Event>) -> bool {
    forall|i: int, j: int| 0 <= i <= j < evs.len() ==> evs[i].tick <= evs[j].tick
}

/// One more than the last tick of a sorted event list, or zero when the list
/// is empty.
pub open spec fn spec_total_ticks(evs: Seq<Event>) -> int {
    if evs.len() == 0 {
        0
    } else {
        evs.last().tick + 1
    }
}

/// The predicate selecting events stamped with tick `t`.
pub open spec fn tick_pred(t: u32) -> spec_fn(Event) -> bool {
    |e: Event| e.tick == t
}

/// The events stamped with tick `t`, in log order.
pub open spec fn spec_tick_events(evs: Seq<Event>, t: u32) -> Seq<Event> {
    evs.filter(tick_pred(t))
}

/// A contiguous run holding every event of tick `t` equals the filtered
/// subsequence for `t`.
pub proof fn lemma_contiguous_filter(evs: Seq<Event>, t: u32, s: int, e: int)
    requires
        0 <= s <= e <= evs.len(),
        forall|i: int| s <= i < e ==> (#[trigger] evs[i]).tick == t,
        forall|i: int| 0 <= i < evs.len() && !(s <= i < e) ==> (#[trigger] evs[i]).tick != t,
    ensures
        spec_tick_events(evs, t) == evs.subrange(s, e),
    decreases evs.len(),
{
    let pred = tick_pred(t);
    if evs.len() == 0 {
        assert(evs.filter(pred) =~= evs.subrange(s, e));
    } else {
        let rest = evs.drop_last();
        let last = evs.last();
        assert(evs =~= rest.push(last));
        if e < evs.len() {
            assert(!pred(last));
            lemma_contiguous_filter(rest, t, s, e);
            rest.lemma_filter_push(last, pred);
            assert(evs.subrange(s, e) =~= rest.subrange(s, e));
        } else if s == e {
            // The range is empty: no event has tick `t` at all.
            assert(!pred(last));
            lemma_contiguous_filter(rest, t, rest.len() as int, rest.len() as int);
            rest.lemma_filter_push(last, pred);
            assert(evs.subrange(s, e) =~= rest.subrange(rest.len() as int, rest.len() as int));
        } else {
            assert(pred(last));
            lemma_contiguous_filter(rest, t, s, e - 1);
            rest.lemma_filter_push(last, pred);
            assert(evs.subrange(s, e) =~= rest.subrange(s, e - 1).push(last));
        }
    }
}

/// Sorts an event list by tick, ascending and stable: events of equal tick
/// keep their relative order, stated as preservation of every per-tick
/// filtered subsequence.
pub fn sort_events_by_tick(events: Vec<Event>) -> (r: Vec<Event>)
    ensures
        spec_events_sorted(r@),
        r@.len() == events@.len(),
        forall|t: u32| spec_tick_events(r@, t) == spec_tick_events(events@, t),
{
    let ghost orig = events@;
    let mut input = events;
    let mut out: Vec<Event> = Vec::new();
    let ghost mut consumed: int = 0;
    while input.len() > 0
        invariant
            consumed == orig.len() - input@.len(),
            0 <= consumed <= orig.len(),
            input@ == orig.subrange(consumed, orig.len() as int),
            out@.len() == consumed,
            spec_events_sorted(out@),
            forall|t: u32|
                #[trigger] spec_tick_events(out@, t) == spec_tick_events(
                    orig.subrange(0, consumed),
                    t,
                ),
        decreases input@.len(),
    {
        let ghost out_before = out@;
        let e = input.remove(0);
        proof {
            assert(e == orig[consumed]);
            assert(input@ =~= orig.subrange(consumed + 1, orig.len() as int));
        }

        // Scan backwards for the insertion point: after every event whose
        // tick is at most `e.tick`, so that equal ticks keep log order.
        let mut p = out.len();
        while p > 0 && out[p - 1].tick > e.tick
            invariant
                p <= out@.len(),
                forall|j: int| p <= j < out@.len() ==> (#[trigger] out@[j]).tick > e.tick,
            decreases p,
        {
            p = p - 1;
        }
        out.insert(p, e);

        proof {
            let prefix = out_before.subrange(0, p as int);
            let suffix = out_before.subrange(p as int, out_before.len() as int);
            assert(out_before =~= prefix + suffix);
            assert(out@ =~= prefix + seq![e] + suffix);

            // Sortedness of the new list.
            assert forall|i: int, j: int| 0 <= i <= j < out@.len() implies out@[i].tick
                <= out@[j].tick by {
                if p > 0 {
                    assert(out_before[p - 1].tick <= e.tick);
                }
            }

            // Per-tick filters are preserved.
            assert forall|t: u32| #[trigger] spec_tick_events(out@, t) == spec_tick_events(
                orig.subrange(0, consumed + 1),
                t,
            ) by {
                let pred = tick_pred(t);
                assert(spec_tick_events(out_before, t) == spec_tick_events(
                    orig.subrange(0, consumed),
                    t,
                ));
                Seq::filter_distributes_over_add(prefix + seq![e], suffix, pred);
                Seq::filter_distributes_over_add(prefix, seq![e], pred);
                Seq::filter_distributes_over_add(prefix, suffix, pred);
                assert(seq![e] =~= Seq::empty().push(e));
                Seq::<Event>::empty().lemma_filter_push(e, pred);
                assert(out@.filter(pred) == prefix.filter(pred) + Seq::empty().push(e).filter(pred)
                    + suffix.filter(pred));
                assert(out_before.filter(pred) == prefix.filter(pred) + suffix.filter(pred));
                if pred(e) {
                    // Everything in the suffix has a strictly larger tick, so
                    // the suffix contributes nothing at tick `t`.
                    if suffix.filter(pred).len() > 0 {
                        let w = suffix.filter(pred)[0];
                        assert(suffix.filter(pred).contains(w));
                        suffix.lemma_filter_contains_rev(pred, w);
                        let k = choose|k: int| 0 <= k < suffix.len() && suffix[k] == w;
                        assert(out_before[p + k].tick > e.tick);
                        assert(false);
                    }
                    assert(suffix.filter(pred) =~= Seq::<Event>::empty());
                    assert(out@.filter(pred) =~= out_before.filter(pred).push(e));
                } else {
                    assert(out@.filter(pred) =~= out_before.filter(pred));
                }
                assert(orig.subrange(0, consumed + 1) =~= orig.subrange(0, consumed).push(e));
                orig.subrange(0, consumed).lemma_filter_push(e, pred);
            }
            consumed = consumed + 1;
        }
    }
    proof {
        assert(orig.subrange(0, consumed) =~= orig);
        assert(forall|t: u32| #[trigger] spec_tick_events(out@, t) == spec_tick_events(orig, t));
    }
    out
}

/// The tick-indexed view of one stage's event log.
#[derive(Debug)]
pub struct StageEvents {
    /// One more than the last tick of the stage; zero when the log is empty.
    pub total_ticks: u64,
    /// The full event list, stable-sorted by tick ascending.
    pub all: Vec<Event>,
    /// For each tick, the index into `all` of the tick's first event, or
    /// `None` when the tick has no events.
    pub tick_indices: Vec<Option<usize>>,
    /// For each event type (by dense index), the indices of its events in
    /// `all`, ascending.
    pub by_type: Vec<Vec<usize>>,
}

/// Correctness of one tick's entry in the first-index table, relative to the
/// first `upto` events.
pub open spec fn spec_tick_entry_ok(
    all: Seq<Event>,
    upto: int,
    t: int,
    entry: Option<usize>,
) -> bool {
    match entry {
        Some(j) => j < upto && all[j as int].tick == t && (j == 0 || all[j - 1].tick < t),
        None => forall|k: int| 0 <= k < upto ==> (#[trigger] all[k]).tick != t,
    }
}

/// Correctness of one event type's index list, relative to the first `upto`
/// events: ascending, type-matching, and complete.
pub open spec fn spec_type_indices_ok(all: Seq<Event>, upto: int, k: int, idxs: Seq<usize>) -> bool {
    &&& forall|p: int, q: int| 0 <= p < q < idxs.len() ==> idxs[p] < idxs[q]
    &&& forall|p: int|
        0 <= p < idxs.len() ==> (#[trigger] idxs[p]) < upto && event_type_index(
            all[idxs[p] as int].event_type,
        ) == k
    &&& forall|j: int|
        0 <= j < upto && event_type_index((#[trigger] all[j]).event_type) == k ==> idxs.contains(
            j as usize,
        )
}

/// Invariants of the tick-indexed event view.
pub open spec fn events_wf(ev: StageEvents) -> bool {
    &&& spec_events_sorted(ev.all@)
    &&& ev.total_ticks == spec_total_ticks(ev.all@)
    &&& ev.tick_indices@.len() == ev.total_ticks
    &&& forall|t: int|
        0 <= t < ev.total_ticks ==> spec_tick_entry_ok(
            ev.all@,
            ev.all@.len() as int,
            t,
            #[trigger] ev.tick_indices@[t],
        )
    &&& ev.by_type@.len() == 8
    &&& forall|k: int|
        0 <= k < 8 ==> spec_type_indices_ok(
            ev.all@,
            ev.all@.len() as int,
            k,
            (#[trigger] ev.by_type@[k])@,
        )
}

impl StageEvents {
    /// Builds the tick-indexed view of a raw event log: sorts it stably by
    /// tick, derives the tick count, and indexes first-event-per-tick and
    /// events-per-type.
    pub fn new(events: Vec<Event>) -> (ev: StageEvents)
        ensures
            events_wf(ev),
            ev.all@.len() == events@.len(),
            forall|t: u32| spec_tick_events(ev.all@, t) == spec_tick_events(events@, t),
    {
        let all = sort_events_by_tick(events);
        let n = all.len();
        let total_ticks: u64 = if n == 0 {
            0
        } else {
            all[n - 1].tick as u64 + 1
        };

        let mut tick_indices: Vec<Option<usize>> = Vec::new();
        let mut t: u64 = 0;
        while t < total_ticks
            invariant
                t <= total_ticks,
                tick_indices@.len() == t,
                forall|j: int| 0 <= j < t ==> tick_indices@[j] is None,
            decreases total_ticks - t,
        {
            tick_indices.push(None);
            t = t + 1;
        }

        let mut i: usize = 0;
        while i < n
            invariant
                i <= n,
                n == all@.len(),
                spec_events_sorted(all@),
                total_ticks == spec_total_ticks(all@),
                tick_indices@.len() == total_ticks,
                forall|tt: int|
                    0 <= tt < total_ticks ==> spec_tick_entry_ok(
                        all@,
                        i as int,
                        tt,
                        #[trigger] tick_indices@[tt],
                    ),
            decreases n - i,
        {
            let tick = all[i].tick;
            proof {
                assert(all@[i as int].tick <= all@.last().tick);
            }
            if i == 0 || all[i - 1].tick != tick {
                tick_indices[tick as usize] = Some(i);
            }
            i = i + 1;
        }

        let mut by_type: Vec<Vec<usize>> = Vec::new();
        let mut k: usize = 0;
        while k < 8
            invariant
                k <= 8,
                by_type@.len() == k,
                forall|j: int| 0 <= j < k ==> (#[trigger] by_type@[j])@.len() == 0,
            decreases 8 - k,
        {
            by_type.push(Vec::new());
            k = k + 1;
        }

        let mut i: usize = 0;
        while i < n
            invariant
                i <= n,
                n == all@.len(),
                by_type@.len() == 8,
                forall|kk: int|
                    0 <= kk < 8 ==> spec_type_indices_ok(
                        all@,
                        i as int,
                        kk,
                        (#[trigger] by_type@[kk])@,
                    ),
            decreases n - i,
        {
            let kind = all[i].event_type.index();
            let ghost bt_before = by_type@;
            by_type[kind].push(i);
            proof {
                assert forall|kk: int|
                    0 <= kk < 8 implies spec_type_indices_ok(
                    all@,
                    i + 1,
                    kk,
                    (#[trigger] by_type@[kk])@,
                ) by {
                    let idxs_old = bt_before[kk]@;
                    let idxs_new = by_type@[kk]@;
                    if kk == kind as int {
                        assert(idxs_new =~= idxs_old.push(i));
                        assert forall|j: int|
                            0 <= j < i + 1 && event_type_index((#[trigger] all@[j]).event_type)
                                == kk implies idxs_new.contains(j as usize) by {
                            if j < i {
                                assert(idxs_old.contains(j as usize));
                                let w = choose|w: int|
                                    0 <= w < idxs_old.len() && idxs_old[w] == j as usize;
                                assert(idxs_new[w] == j as usize);
                            } else {
                                assert(idxs_new[idxs_new.len() - 1] == i as usize);
                            }
                        }
                    } else {
                        assert(idxs_new == idxs_old);
                        assert forall|j: int|
                            0 <= j < i + 1 && event_type_index((#[trigger] all@[j]).event_type)
                                == kk implies idxs_new.contains(j as usize) by {
                            assert(j != i);
                            assert(idxs_old.contains(j as usize));
                        }
                    }
                }
            }
            i = i + 1;
        }

        StageEvents { total_ticks, all, tick_indices, by_type }
    }

    /// The index range into `all` holding exactly the events of `tick`: every
    /// event in `[r.0, r.1)` is stamped `tick`, and no event outside it is.
    pub fn for_tick(&self, tick: u64) -> (r: (usize, usize))
        requires
            events_wf(*self),
            tick < self.total_ticks,
        ensures
            r.0 <= r.1 <= self.all@.len(),
            forall|i: int| r.0 <= i < r.1 ==> (#[trigger] self.all@[i]).tick == tick,
            forall|i: int|
                0 <= i < self.all@.len() && !(r.0 <= i < r.1) ==> (#[trigger] self.all@[i]).tick
                    != tick,
    {
        match self.tick_indices[tick as usize] {
            None => (0, 0),
            Some(start) => {
                let n = self.all.len();
                let mut end = start;
                while end < n && self.all[end].tick as u64 == tick
                    invariant
                        events_wf(*self),
                        n == self.all@.len(),
                        start <= end <= n,
                        forall|i: int| start <= i < end ==> (#[trigger] self.all@[i]).tick == tick,
                    decreases n - end,
                {
                    end = end + 1;
                }
                proof {
                    let all = self.all@;
                    assert forall|i: int|
                        0 <= i < all.len() && !(start <= i < end) implies (#[trigger] all[i]).tick
                        != tick by {
                        if i < start as int {
                            assert(all[i].tick <= all[start as int - 1].tick);
                        } else {
                            assert(all[end as int].tick != tick);
                            assert(all[end as int].tick >= all[start as int].tick);
                            assert(all[i].tick >= all[end as int].tick);
                        }
                    }
                }
                (start, end)
            },
        }
    }
}

/// True when the event is scoped to a player: an attack, a death, or an
/// update.
pub open spec fn spec_is_player_event(e: Event) -> bool {
    ||| e.event_type == EventType::PlayerAttack
    ||| e.event_type == EventType::PlayerDeath
    ||| e.event_type == EventType::PlayerUpdate
}

/// Returns whether the event is scoped to a player.
pub fn is_player_event(event: &Event) -> (r: bool)
    ensures
        r == spec_is_player_event(*event),
{
    match event.event_type {
        EventType::PlayerAttack | EventType::PlayerDeath | EventType::PlayerUpdate => true,
        _ => false,
    }
}

/// True when the event affects the player at party position `index`: it is a
/// player event whose payload carries that party index. A player event
/// without a player payload affects nobody (it is logged and skipped by the
/// host).
pub open spec fn spec_event_relevant(e: Event, index: int) -> bool {
    spec_is_player_event(e) && (e.player matches Some(p) && p.party_index == index)
}

/// The first NPC record with the given room id, if any.
pub open spec fn spec_find_npc(npcs: Seq<StageNpc>, room_id: u64) -> Option<StageNpc>
    decreases npcs.len(),
{
    if npcs.len() == 0 {
        None
    } else if npcs[0].room_id == room_id {
        Some(npcs[0])
    } else {
        spec_find_npc(npcs.drop_first(), room_id)
    }
}

/// Looks up an NPC record by room id.
pub fn find_npc(npcs: &Vec<StageNpc>, room_id: u64) -> (r: Option<StageNpc>)
    ensures
        r == spec_find_npc(npcs@, room_id),
{
    let n = npcs.len();
    proof {
        assert(npcs@.subrange(0, n as int) =~= npcs@);
    }
    let mut i: usize = 0;
    while i < n
        invariant
            i <= n,
            n == npcs@.len(),
            spec_find_npc(npcs@, room_id) == spec_find_npc(npcs@.subrange(i as int, n as int), room_id),
        decreases n - i,
    {
        proof {
            assert(npcs@.subrange(i as int, n as int).drop_first() =~= npcs@.subrange(
                i + 1,
                n as int,
            ));
        }
        if npcs[i].room_id == room_id {
            return Some(npcs[i]);
        }
        i = i + 1;
    }
    None
}

/// The attack-state payload recorded for an attack event: the attack kind and
/// the stage NPC record its target resolves to, or an unknown attack when the
/// event carries no attack payload.
pub open spec fn spec_attack_result(e: Event, npcs: Seq<StageNpc>) -> PlayerAttacked {
    match e.player_attack {
        Some(atk) => PlayerAttacked {
            attack: atk.attack,
            target: match atk.target {
                Some(npc) => spec_find_npc(npcs, npc.room_id),
                None => None,
            },
        },
        None => PlayerAttacked { attack: PlayerAttack::Unknown, target: None },
    }
}

/// True when every packed delta in the list parses.
pub open spec fn spec_deltas_ok(deltas: Seq<u64>) -> bool {
    forall|i: int| 0 <= i < deltas.len() ==> spec_raw_parses(#[trigger] deltas[i])
}

/// The snapshot value after one event applies. Events that do not affect the
/// player at `index` leave the snapshot unchanged; an attack event records
/// the attack, a death event marks the player just-died, and an update event
/// applies the cooldown rule, the position, the stats, the prayer set, and
/// the equipment deltas.
pub open spec fn model_step(m: StateModel, e: Event, index: int, npcs: Seq<StageNpc>) -> StateModel {
    if !spec_event_relevant(e, index) {
        m
    } else {
        match e.player {
            Some(p) => if e.event_type == EventType::PlayerAttack {
                StateModel { attack_state: AttackState::Attacked(spec_attack_result(e, npcs)), ..m }
            } else if e.event_type == EventType::PlayerDeath {
                StateModel { death_state: DeathState::JustDied, ..m }
            } else {
                StateModel {
                    attack_state: if m.attack_state == AttackState::Idle && p.off_cooldown_tick
                        > m.tick {
                        AttackState::OnCooldown((p.off_cooldown_tick - m.tick) as u32)
                    } else {
                        m.attack_state
                    },
                    position: Coords { x: e.x_coord, y: e.y_coord },
                    stats: spec_apply_stats(m.stats, p),
                    prayers: p.active_prayers,
                    equipment: match spec_apply_deltas(m.equipment, p.equipment_deltas@) {
                        Some(eq) => eq,
                        None => m.equipment,
                    },
                    ..m
                }
            },
            None => m,
        }
    }
}

/// True when applying the event to the player at `index` fails: an update
/// event for that player carrying a packed delta that does not parse.
pub open spec fn spec_step_fails(e: Event, index: int) -> bool {
    &&& spec_event_relevant(e, index)
    &&& e.event_type == EventType::PlayerUpdate
    &&& (e.player matches Some(p) && !spec_deltas_ok(p.equipment_deltas@))
}

/// The snapshot value after a list of events applies in order.
pub open spec fn model_fold(
    m: StateModel,
    evs: Seq<Event>,
    index: int,
    npcs: Seq<StageNpc>,
) -> StateModel
    decreases evs.len(),
{
    if evs.len() == 0 {
        m
    } else {
        model_fold(model_step(m, evs[0], index, npcs), evs.drop_first(), index, npcs)
    }
}

/// True when applying some event in the list fails.
pub open spec fn spec_fold_fails(evs: Seq<Event>, index: int) -> bool {
    exists|i: int| 0 <= i < evs.len() && spec_step_fails(#[trigger] evs[i], index)
}

/// Appending one event to a fold applies it last.
pub proof fn lemma_model_fold_push(
    m: StateModel,
    evs: Seq<Event>,
    e: Event,
    index: int,
    npcs: Seq<StageNpc>,
)
    ensures
        model_fold(m, evs.push(e), index, npcs) == model_step(
            model_fold(m, evs, index, npcs),
            e,
            index,
            npcs,
        ),
    decreases evs.len(),
{
    if evs.len() == 0 {
        assert(evs.push(e).drop_first() =~= Seq::<Event>::empty());
        assert(evs.push(e)[0] == e);
        assert(model_fold(m, evs.push(e), index, npcs) == model_fold(
            model_step(m, e, index, npcs),
            evs.push(e).drop_first(),
            index,
            npcs,
        ));
        assert(model_fold(model_step(m, e, index, npcs), Seq::<Event>::empty(), index, npcs)
            == model_step(m, e, index, npcs));
        assert(model_fold(m, evs, index, npcs) == m);
    } else {
        assert(evs.push(e)[0] == evs[0]);
        assert(evs.push(e).drop_first() =~= evs.drop_first().push(e));
        lemma_model_fold_push(model_step(m, evs[0], index, npcs), evs.drop_first(), e, index, npcs);
        assert(model_fold(m, evs.push(e), index, npcs) == model_fold(
            model_step(m, evs[0], index, npcs),
            evs.drop_first().push(e),
            index,
            npcs,
        ));
        assert(model_fold(m, evs, index, npcs) == model_fold(
            model_step(m, evs[0], index, npcs),
            evs.drop_first(),
            index,
            npcs,
        ));
    }
}

/// Appending one delta to a delta fold applies it last.
pub proof fn lemma_apply_deltas_push(eq: Seq<Option<ItemQuantity>>, deltas: Seq<u64>, raw: u64)
    ensures
        spec_apply_deltas(eq, deltas.push(raw)) == (match spec_apply_deltas(eq, deltas) {
            Some(e2) => if spec_raw_parses(raw) {
                Some(spec_apply_delta(e2, spec_parse(raw)))
            } else {
                None
            },
            None => None,
        }),
    decreases deltas.len(),
{
    if deltas.len() == 0 {
        assert(deltas.push(raw).drop_first() =~= Seq::<u64>::empty());
        assert(deltas.push(raw)[0] == raw);
        if spec_raw_parses(raw) {
            assert(spec_apply_deltas(eq, deltas.push(raw)) == spec_apply_deltas(
                spec_apply_delta(eq, spec_parse(raw)),
                Seq::<u64>::empty(),
            ));
            assert(spec_apply_deltas(
                spec_apply_delta(eq, spec_parse(raw)),
                Seq::<u64>::empty(),
            ) == Some(spec_apply_delta(eq, spec_parse(raw))));
        }
        assert(spec_apply_deltas(eq, deltas) == Some(eq));
    } else {
        assert(deltas.push(raw)[0] == deltas[0]);
        assert(deltas.push(raw).drop_first() =~= deltas.drop_first().push(raw));
        if spec_raw_parses(deltas[0]) {
            lemma_apply_deltas_push(
                spec_apply_delta(eq, spec_parse(deltas[0])),
                deltas.drop_first(),
                raw,
            );
        }
    }
}

/// Applies one event to the snapshot of the player at party position `index`.
/// Returns `false` exactly when the event is an update for that player
/// carrying a packed delta that does not parse; the reconstruction then
/// abandons the stage.
#[verifier::loop_isolation(false)]
fn apply_event(state: &mut PlayerState, event: &Event, index: u32, npcs: &Vec<StageNpc>) -> (r:
    bool)
    requires
        state_wf(*old(state)),
    ensures
        r ==> final(state).model() == model_step(
            old(state).model(),
            *event,
            index as int,
            npcs@,
        ) && state_wf(*final(state)) && !spec_step_fails(*event, index as int),
        !r ==> spec_step_fails(*event, index as int),
{
    if !is_player_event(event) {
        return true;
    }
    let player = match &event.player {
        Some(player) => player,
        None => {
            // A player event without player data affects nobody; the host
            // logs it.
            return true;
        },
    };
    if player.party_index != index {
        return true;
    }
    match event.event_type {
        EventType::PlayerAttack => {
            state.attack_state = AttackState::Attacked(
                match &event.player_attack {
                    Some(atk) => PlayerAttacked {
                        attack: atk.attack,
                        target: match &atk.target {
                            Some(npc) => find_npc(npcs, npc.room_id),
                            None => None,
                        },
                    },
                    None => PlayerAttacked { attack: PlayerAttack::Unknown, target: None },
                },
            );
            true
        },
        EventType::PlayerDeath => {
            state.death_state = DeathState::JustDied;
            true
        },
        EventType::PlayerUpdate => {
            let is_idle = match state.attack_state {
                AttackState::Idle => true,
                _ => false,
            };
            if is_idle && player.off_cooldown_tick > state.tick {
                state.attack_state = AttackState::OnCooldown(player.off_cooldown_tick - state.tick);
            }
            state.position = Coords { x: event.x_coord, y: event.y_coord };
            state.apply_stats(player);
            state.prayers = PrayerSet::from_raw(player.active_prayers);

            let ghost eq_start = state.equipment@;
            let ghost deltas = player.equipment_deltas@;
            let ghost pre = state.model();
            let nd = player.equipment_deltas.len();
            let mut di: usize = 0;
            while di < nd
                invariant
                    di <= nd,
                    nd == deltas.len(),
                    deltas == player.equipment_deltas@,
                    state_wf(*state),
                    forall|i: int| 0 <= i < di ==> spec_raw_parses(#[trigger] deltas[i]),
                    spec_apply_deltas(eq_start, deltas.subrange(0, di as int)) == Some(
                        state.equipment@,
                    ),
                    state.model() == (StateModel { equipment: state.model().equipment, ..pre }),
                decreases nd - di,
            {
                let raw = player.equipment_deltas[di];
                match ItemDelta::parse(raw) {
                    Ok(d) => {
                        proof {
                            lemma_parse_delta_bounds(raw);
                            lemma_apply_deltas_push(eq_start, deltas.subrange(0, di as int), raw);
                            assert(deltas.subrange(0, di + 1) =~= deltas.subrange(
                                0,
                                di as int,
                            ).push(raw));
                        }
                        state.apply_equipment_delta(d);
                    },
                    Err(_) => {
                        proof {
                            assert(!spec_raw_parses(deltas[di as int]));
                            assert(!spec_deltas_ok(deltas));
                        }
                        return false;
                    },
                }
                di = di + 1;
            }
            proof {
                assert(deltas.subrange(0, nd as int) =~= deltas);
            }
            true
        },
        _ => {
            proof {
                assert(false);
            }
            true
        },
    }
}

/// An update event with a future off-cooldown tick, applied to an idle
/// player, puts the player on cooldown for exactly the remaining ticks.
pub proof fn lemma_update_sets_cooldown(
    m: StateModel,
    e: Event,
    index: int,
    npcs: Seq<StageNpc>,
)
    requires
        m.attack_state == AttackState::Idle,
        e.event_type == EventType::PlayerUpdate,
        spec_event_relevant(e, index),
        e.player matches Some(p) && p.off_cooldown_tick > m.tick,
    ensures
        e.player matches Some(p) && model_step(m, e, index, npcs).attack_state
            == AttackState::OnCooldown((p.off_cooldown_tick - m.tick) as u32),
{
}

/// Applying events that hold no death event for the player leaves the
/// player's death state unchanged.
pub proof fn lemma_fold_preserves_death(
    m: StateModel,
    evs: Seq<Event>,
    index: int,
    npcs: Seq<StageNpc>,
)
    requires
        forall|i: int|
            0 <= i < evs.len() ==> !(spec_event_relevant(#[trigger] evs[i], index)
                && evs[i].event_type == EventType::PlayerDeath),
    ensures
        model_fold(m, evs, index, npcs).death_state == m.death_state,
    decreases evs.len(),
{
    if evs.len() > 0 {
        assert(model_step(m, evs[0], index, npcs).death_state == m.death_state);
        assert forall|i: int|
            0 <= i < evs.drop_first().len() implies !(spec_event_relevant(
            #[trigger] evs.drop_first()[i],
            index,
        ) && evs.drop_first()[i].event_type == EventType::PlayerDeath) by {
            assert(evs.drop_first()[i] == evs[i + 1]);
        }
        lemma_fold_preserves_death(model_step(m, evs[0], index, npcs), evs.drop_first(), index, npcs);
    }
}

/// A player seen just-died at one tick is dead at the next, provided the log
/// holds no death event for the player at that next tick. (A second death
/// event at the next tick would mark the player just-died again.)
pub proof fn lemma_just_died_then_dead(
    states: Seq<Option<PlayerState>>,
    all: Seq<Event>,
    index: int,
    npcs: Seq<StageNpc>,
    t: int,
)
    requires
        spec_states_ok(states, all, index, npcs),
        0 <= t,
        t + 1 < states.len(),
        states.len() <= 0x1_0000_0000,
        states[t] matches Some(s) && s.death_state == DeathState::JustDied,
        forall|i: int|
            0 <= i < spec_tick_events(all, (t + 1) as u32).len() ==> !(spec_event_relevant(
                #[trigger] spec_tick_events(all, (t + 1) as u32)[i],
                index,
            ) && spec_tick_events(all, (t + 1) as u32)[i].event_type == EventType::PlayerDeath),
    ensures
        states[t + 1] matches Some(s2) && s2.death_state == DeathState::Dead,
{
    assert(spec_state_entry_ok(states, all, index, npcs, t + 1));
    let base = spec_base_model(states, t + 1);
    assert(base.death_state == DeathState::Dead);
    lemma_fold_preserves_death(base, spec_tick_events(all, (t + 1) as u32), index, npcs);
}

/// The snapshot value each tick starts from: the initial state at tick 0, and
/// the carry-over of the previous tick's reconstructed state afterwards.
pub open spec fn spec_base_model(states: Seq<Option<PlayerState>>, t: int) -> StateModel {
    if t == 0 {
        model_initial(0)
    } else {
        match states[t - 1] {
            Some(s) => model_next_tick(s.model()),
            None => model_initial(0),
        }
    }
}

/// Correctness of one reconstructed tick entry: present, well-formed, stamped
/// with its tick, and equal to the event fold of that tick over its base.
pub open spec fn spec_state_entry_ok(
    states: Seq<Option<PlayerState>>,
    all: Seq<Event>,
    index: int,
    npcs: Seq<StageNpc>,
    t: int,
) -> bool {
    match states[t] {
        Some(s) => {
            &&& state_wf(s)
            &&& s.tick == t
            &&& s.model() == model_fold(
                spec_base_model(states, t),
                spec_tick_events(all, t as u32),
                index,
                npcs,
            )
        },
        None => false,
    }
}

/// Correctness of a whole reconstructed per-tick state vector for the player
/// at party position `index`.
pub open spec fn spec_states_ok(
    states: Seq<Option<PlayerState>>,
    all: Seq<Event>,
    index: int,
    npcs: Seq<StageNpc>,
) -> bool {
    forall|t: int| 0 <= t < states.len() ==> spec_state_entry_ok(states, all, index, npcs, t)
}

/// True when the event is an update for a party member carrying a packed
/// delta that does not parse; one such event fails the whole stage.
pub open spec fn spec_event_malformed(e: Event, party_len: int) -> bool {
    &&& e.event_type == EventType::PlayerUpdate
    &&& (e.player matches Some(p) && p.party_index < party_len && !spec_deltas_ok(
        p.equipment_deltas@,
    ))
}

/// True when some event of the log is malformed for a party of `party_len`.
pub open spec fn spec_has_malformed_delta(all: Seq<Event>, party_len: int) -> bool {
    exists|j: int| 0 <= j < all.len() && spec_event_malformed(#[trigger] all[j], party_len)
}

/// Reconstructs the dense per-tick state vector of every party member from
/// the tick-indexed event view. On success every player has a defined,
/// well-formed snapshot at every tick, each equal to the event fold of its
/// tick; the reconstruction fails exactly when some update event of a party
/// member carries a packed delta that does not parse, and then reports the
/// party position and tick of the first failure encountered.
#[verifier::loop_isolation(false)]
pub fn build_player_state(
    party: &Vec<String>,
    events: &StageEvents,
    npcs: &Vec<StageNpc>,
) -> (r: core::result::Result<Vec<Vec<Option<PlayerState>>>, (usize, u64)>)
    requires
        events_wf(*events),
        party@.len() < 0x1_0000_0000,
    ensures
        match r {
            Ok(states) => {
                &&& states@.len() == party@.len()
                &&& forall|p: int|
                    0 <= p < party@.len() ==> (#[trigger] states@[p])@.len() == events.total_ticks
                &&& forall|p: int|
                    0 <= p < party@.len() ==> spec_states_ok(
                        (#[trigger] states@[p])@,
                        events.all@,
                        p,
                        npcs@,
                    )
                &&& !spec_has_malformed_delta(events.all@, party@.len() as int)
            },
            Err(pt) => {
                &&& pt.0 < party@.len()
                &&& pt.1 < events.total_ticks
                &&& spec_fold_fails(spec_tick_events(events.all@, pt.1 as u32), pt.0 as int)
                &&& spec_has_malformed_delta(events.all@, party@.len() as int)
            },
        },
{
    let num_players = party.len();
    let total = events.total_ticks;
    let ghost all = events.all@;
    let mut result: Vec<Vec<Option<PlayerState>>> = Vec::new();
    let mut p: usize = 0;
    while p < num_players
        invariant
            p <= num_players,
            result@.len() == p,
            forall|q: int| 0 <= q < p ==> (#[trigger] result@[q])@.len() == total,
            forall|q: int|
                0 <= q < p ==> spec_states_ok((#[trigger] result@[q])@, all, q, npcs@),
            forall|q: int, tt: u32|
                0 <= q < p && tt < total ==> !#[trigger] spec_fold_fails(
                    spec_tick_events(all, tt),
                    q,
                ),
        decreases num_players - p,
    {
        let mut states: Vec<Option<PlayerState>> = Vec::new();
        let mut t: u64 = 0;
        while t < total
            invariant
                t <= total,
                states@.len() == t,
                spec_states_ok(states@, all, p as int, npcs@),
                forall|tt: u32|
                    tt < t ==> !spec_fold_fails(#[trigger] spec_tick_events(all, tt), p as int),
            decreases total - t,
        {
            let mut cur: PlayerState = if t == 0 {
                PlayerState::initial(0)
            } else {
                match &states[(t - 1) as usize] {
                    Some(prev) => {
                        proof {
                            assert(spec_state_entry_ok(states@, all, p as int, npcs@, t - 1));
                        }
                        prev.next_tick()
                    },
                    None => {
                        proof {
                            assert(spec_state_entry_ok(states@, all, p as int, npcs@, t - 1));
                            assert(false);
                        }
                        PlayerState::initial(0)
                    },
                }
            };
            let ghost base = cur.model();
            proof {
                assert(base == spec_base_model(states@, t as int));
                assert(cur.tick == t);
            }

            let (start, end) = events.for_tick(t);
            proof {
                lemma_contiguous_filter(all, t as u32, start as int, end as int);
            }
            let mut j = start;
            while j < end
                invariant
                    start <= j <= end,
                    state_wf(cur),
                    cur.tick == t,
                    cur.model() == model_fold(
                        base,
                        all.subrange(start as int, j as int),
                        p as int,
                        npcs@,
                    ),
                    forall|i: int|
                        start <= i < j ==> !spec_step_fails(#[trigger] all[i], p as int),
                decreases end - j,
            {
                let ghost before = cur.model();
                let ok = apply_event(&mut cur, &events.all[j], p as u32, npcs);
                if !ok {
                    proof {
                        assert(spec_event_malformed(all[j as int], num_players as int));
                        assert(spec_has_malformed_delta(all, num_players as int));
                        let evs = spec_tick_events(all, t as u32);
                        assert(evs[j - start] == all[j as int]);
                        assert(spec_step_fails(evs[j - start], p as int));
                        assert(spec_fold_fails(evs, p as int));
                    }
                    return Err((p, t));
                }
                proof {
                    lemma_model_fold_push(
                        base,
                        all.subrange(start as int, j as int),
                        all[j as int],
                        p as int,
                        npcs@,
                    );
                    assert(all.subrange(start as int, j + 1) =~= all.subrange(
                        start as int,
                        j as int,
                    ).push(all[j as int]));
                }
                proof {
                    assert(cur.model().tick == t);
                }
                j = j + 1;
            }
            proof {
                assert(all.subrange(start as int, end as int) == spec_tick_events(all, t as u32));
                assert(cur.model() == model_fold(
                    base,
                    spec_tick_events(all, t as u32),
                    p as int,
                    npcs@,
                ));
                // No event of this tick fails for this player.
                let evs = spec_tick_events(all, t as u32);
                if spec_fold_fails(evs, p as int) {
                    let w = choose|w: int|
                        0 <= w < evs.len() && spec_step_fails(evs[w], p as int);
                    assert(evs[w] == all[start + w]);
                    assert(false);
                }
            }
            let ghost states_before = states@;
            states.push(Some(cur));
            proof {
                assert forall|tt: int|
                    0 <= tt < states@.len() implies spec_state_entry_ok(
                    states@,
                    all,
                    p as int,
                    npcs@,
                    tt,
                ) by {
                    if tt < t {
                        assert(spec_state_entry_ok(states_before, all, p as int, npcs@, tt));
                        assert(spec_base_model(states@, tt) == spec_base_model(
                            states_before,
                            tt,
                        ));
                    } else {
                        assert(spec_base_model(states@, tt) == base);
                    }
                }
            }
            t = t + 1;
        }
        result.push(states);
        p = p + 1;
    }
    proof {
        // Every update event of a party member parsed; so no event of the log
        // is malformed.
        if spec_has_malformed_delta(all, num_players as int) {
            {
                let j = choose|j: int|
                    0 <= j < all.len() && spec_event_malformed(all[j], num_players as int);
                let e = all[j];
                let t = e.tick;
                assert(e.tick <= all.last().tick);
                assert(t < total);
                let pred = tick_pred(t);
                assert(pred(all[j]));
                all.lemma_filter_contains(pred, j);
                let evs = spec_tick_events(all, t);
                assert(evs.contains(e));
                let w = choose|w: int| 0 <= w < evs.len() && evs[w] == e;
                let q = match e.player {
                    Some(pl) => pl.party_index as int,
                    None => 0,
                };
                assert(spec_step_fails(evs[w], q));
                assert(spec_fold_fails(evs, q));
                assert(false);
            }
        }
    }
    Ok(result)
}

/// One malformed event stays malformed under any reordering that preserves
/// per-tick filtered subsequences.
proof fn lemma_malformed_via_filters(a: Seq<Event>, b: Seq<Event>, party_len: int)
    requires
        forall|t: u32| #[trigger] spec_tick_events(a, t) == spec_tick_events(b, t),
        spec_has_malformed_delta(a, party_len),
    ensures
        spec_has_malformed_delta(b, party_len),
{
    let j = choose|j: int| 0 <= j < a.len() && spec_event_malformed(#[trigger] a[j], party_len);
    let e = a[j];
    let t = e.tick;
    let pred = tick_pred(t);
    assert(pred(a[j]));
    a.lemma_filter_contains(pred, j);
    assert(spec_tick_events(a, t).contains(e));
    assert(spec_tick_events(b, t).contains(e));
    b.lemma_filter_contains_rev(pred, e);
    let k = choose|k: int| 0 <= k < b.len() && b[k] == e;
    assert(spec_event_malformed(b[k], party_len));
}

/// First index of a username within a party list, or `-1` when absent.
pub open spec fn spec_party_index(party: Seq<String>, name: Seq<char>, upto: int) -> int
    decreases upto,
{
    if upto <= 0 {
        -1
    } else if spec_party_index(party, name, upto - 1) >= 0 {
        spec_party_index(party, name, upto - 1)
    } else if party[upto - 1]@ == name {
        upto - 1
    } else {
        -1
    }
}

/// Looks up the party position of a username: the first index whose name
/// matches, if any.
fn party_index(party: &Vec<String>, username: &String) -> (r: Option<usize>)
    ensures
        match r {
            Some(i) => i < party@.len() && party@[i as int]@ == username@ && (forall|j: int|
                0 <= j < i ==> (#[trigger] party@[j])@ != username@),
            None => forall|j: int| 0 <= j < party@.len() ==> (#[trigger] party@[j])@ != username@,
        },
{
    let n = party.len();
    let mut i: usize = 0;
    while i < n
        invariant
            i <= n,
            n == party@.len(),
            forall|j: int| 0 <= j < i ==> (#[trigger] party@[j])@ != username@,
        decreases n - i,
    {
        if party[i] == *username {
            return Some(i);
        }
        i = i + 1;
    }
    None
}

/// The attacks recorded in a per-tick state vector: for every defined
/// snapshot whose attack state is an attack, its tick and the attack payload,
/// in tick order.
pub open spec fn spec_attacks(states: Seq<Option<PlayerState>>) -> Seq<(u32, PlayerAttacked)>
    decreases states.len(),
{
    if states.len() == 0 {
        Seq::empty()
    } else {
        spec_attacks(states.drop_last()) + (match states.last() {
            Some(s) => match s.attack_state {
                AttackState::Attacked(a) => seq![(s.tick, a)],
                _ => Seq::empty(),
            },
            None => Seq::empty(),
        })
    }
}

/// The defined snapshots of a per-tick state vector, in tick order.
pub open spec fn spec_present(states: Seq<Option<PlayerState>>) -> Seq<PlayerState>
    decreases states.len(),
{
    if states.len() == 0 {
        Seq::empty()
    } else {
        spec_present(states.drop_last()) + (match states.last() {
            Some(s) => seq![s],
            None => Seq::empty(),
        })
    }
}

/// Read-only view over one player's reconstructed per-tick snapshots.
#[derive(Clone, Copy)]
pub struct PlayerStates<'a> {
    pub states: &'a Vec<Option<PlayerState>>,
}

impl<'a> PlayerStates<'a> {
    /// Returns every known player state, in tick order. As player state may
    /// be missing for some ticks, the ticks of the result may not be
    /// sequential.
    pub fn iter(&self) -> (r: Vec<&'a PlayerState>)
        ensures
            r@.len() == spec_present(self.states@).len(),
            forall|i: int|
                0 <= i < r@.len() ==> *(#[trigger] r@[i]) == spec_present(self.states@)[i],
    {
        let n = self.states.len();
        let mut out: Vec<&'a PlayerState> = Vec::new();
        let mut i: usize = 0;
        while i < n
            invariant
                i <= n,
                n == self.states@.len(),
                out@.len() == spec_present(self.states@.subrange(0, i as int)).len(),
                forall|j: int|
                    0 <= j < out@.len() ==> *(#[trigger] out@[j]) == spec_present(
                        self.states@.subrange(0, i as int),
                    )[j],
            decreases n - i,
        {
            match &self.states[i] {
                Some(state) => {
                    out.push(state);
                },
                None => {},
            }
            proof {
                let sub = self.states@.subrange(0, i + 1);
                assert(sub.drop_last() =~= self.states@.subrange(0, i as int));
                assert(sub.last() == self.states@[i as int]);
            }
            i = i + 1;
        }
        proof {
            assert(self.states@.subrange(0, n as int) =~= self.states@);
        }
        out
    }

    /// Returns the player state for a specific tick, if it exists.
    pub fn get_tick(&self, tick: usize) -> (r: Option<&PlayerState>)
        ensures
            match r {
                Some(s) => tick < self.states@.len() && self.states@[tick as int] == Some(*s),
                None => tick >= self.states@.len() || self.states@[tick as int] is None,
            },
    {
        if tick < self.states.len() {
            self.states[tick].as_ref()
        } else {
            None
        }
    }

    /// Returns every attack done by the player, with its attack tick.
    pub fn attacks(&self) -> (r: Vec<(u32, PlayerAttacked)>)
        ensures
            r@ == spec_attacks(self.states@),
    {
        let n = self.states.len();
        let mut out: Vec<(u32, PlayerAttacked)> = Vec::new();
        let mut i: usize = 0;
        while i < n
            invariant
                i <= n,
                n == self.states@.len(),
                out@ == spec_attacks(self.states@.subrange(0, i as int)),
            decreases n - i,
        {
            match &self.states[i] {
                Some(s) => {
                    match &s.attack_state {
                        AttackState::Attacked(a) => {
                            out.push((s.tick, *a));
                        },
                        _ => {},
                    }
                },
                None => {},
            }
            proof {
                let sub = self.states@.subrange(0, i + 1);
                assert(sub.drop_last() =~= self.states@.subrange(0, i as int));
                assert(sub.last() == self.states@[i as int]);
                assert(out@ =~= spec_attacks(sub));
            }
            i = i + 1;
        }
        proof {
            assert(self.states@.subrange(0, n as int) =~= self.states@);
        }
        out
    }
}

/// Reconstructed data of one stage: the tick-indexed event view, the stage
/// NPC table, and a dense per-tick state vector for every party member.
#[derive(Debug)]
pub struct StageInfo {
    /// The stage covered.
    pub stage: Stage,
    /// The tick-indexed event view.
    pub events: StageEvents,
    /// The stage-local party, in party-index order.
    pub party: Vec<String>,
    /// Per party member (by party index), one optional snapshot per tick.
    pub player_state: Vec<Vec<Option<PlayerState>>>,
    /// The stage's NPC table.
    pub npcs: Vec<StageNpc>,
}

/// Invariants of a reconstructed stage: a well-formed event view, and one
/// well-formed, fully-defined, fold-correct state vector per party member.
pub open spec fn stage_wf(info: StageInfo) -> bool {
    &&& events_wf(info.events)
    &&& info.party@.len() < 0x1_0000_0000
    &&& info.player_state@.len() == info.party@.len()
    &&& forall|p: int|
        0 <= p < info.party@.len() ==> (#[trigger] info.player_state@[p])@.len()
            == info.events.total_ticks
    &&& forall|p: int|
        0 <= p < info.party@.len() ==> spec_states_ok(
            (#[trigger] info.player_state@[p])@,
            info.events.all@,
            p,
            info.npcs@,
        )
}

impl StageInfo {
    /// Builds the reconstructed view of one stage from its decoded event log
    /// and the challenge-wide NPC data. Fails exactly when an update event of
    /// a party member carries a packed equipment delta that does not parse
    /// (or when the party does not fit the party-index width), with a
    /// field-validation error naming the player and tick.
    pub fn new(challenge_data: &ChallengeData, stage_data: ChallengeEvents) -> (r: Result<
        StageInfo,
        Error,
    >)
        ensures
            match r {
                Ok(info) => {
                    &&& stage_wf(info)
                    &&& info.stage == stage_data.stage
                    &&& info.party@ == stage_data.party_names@
                    &&& info.npcs@ == spec_npcs_for_stage(*challenge_data, stage_data.stage)
                    &&& info.events.all@.len() == stage_data.events@.len()
                    &&& forall|t: u32|
                        #[trigger] spec_tick_events(info.events.all@, t) == spec_tick_events(
                            stage_data.events@,
                            t,
                        )
                    &&& !spec_has_malformed_delta(
                        stage_data.events@,
                        stage_data.party_names@.len() as int,
                    )
                },
                Err(e) => {
                    &&& e matches Error::InvalidField(_)
                    &&& stage_data.party_names@.len() < 0x1_0000_0000 ==> {
                        &&& spec_has_malformed_delta(
                            stage_data.events@,
                            stage_data.party_names@.len() as int,
                        )
                        &&& exists|pt: (int, u32)|
                            0 <= pt.0 < stage_data.party_names@.len() && spec_fold_fails(
                                spec_tick_events(stage_data.events@, pt.1),
                                pt.0,
                            ) && e.is_invalid_field(
                                #[trigger] spec_delta_error_detail(
                                    stage_data.party_names@[pt.0]@,
                                    pt.1 as int,
                                ),
                            )
                    }
                },
            },
    {
        let stage = stage_data.stage;
        let party = stage_data.party_names;
        if party.len() as u64 >= 0x1_0000_0000u64 {
            return Err(Error::InvalidField(party_too_large_message()));
        }
        let npcs = npcs_for_stage(challenge_data, stage);
        let events = StageEvents::new(stage_data.events);
        let ghost raw_events = stage_data.events@;
        match build_player_state(&party, &events, &npcs) {
            Ok(player_state) => {
                proof {
                    if spec_has_malformed_delta(raw_events, party@.len() as int) {
                        lemma_malformed_via_filters(
                            raw_events,
                            events.all@,
                            party@.len() as int,
                        );
                    }
                }
                Ok(StageInfo { stage, events, party, player_state, npcs })
            },
            Err((p, tick)) => {
                proof {
                    lemma_malformed_via_filters(events.all@, raw_events, party@.len() as int);
                    assert(spec_tick_events(events.all@, tick as u32) == spec_tick_events(
                        raw_events,
                        tick as u32,
                    ));
                }
                let detail = delta_error_message(&party[p], tick);
                proof {
                    let witness: (int, u32) = (p as int, tick as u32);
                    assert(spec_fold_fails(spec_tick_events(raw_events, witness.1), witness.0));
                    assert(detail@ == spec_delta_error_detail(
                        party@[witness.0]@,
                        witness.1 as int,
                    ));
                }
                Err(Error::InvalidField(detail))
            },
        }
    }

    /// Returns the challenge stage whose data is contained.
    pub fn stage(&self) -> (r: Stage)
        ensures
            r == self.stage,
    {
        self.stage
    }

    /// Returns every event in the stage, sorted by tick.
    pub fn all_events(&self) -> (r: &Vec<Event>)
        ensures
            r@ == self.events.all@,
    {
        &self.events.all
    }

    /// Returns the total number of recorded events in the stage.
    pub fn total_events(&self) -> (r: usize)
        ensures
            r == self.events.all@.len(),
    {
        self.events.all.len()
    }

    /// Returns the indices into the sorted event list of all events with the
    /// specified type, ascending.
    pub fn events_for_type(&self, event_type: EventType) -> (r: &Vec<usize>)
        requires
            stage_wf(*self),
        ensures
            spec_type_indices_ok(
                self.events.all@,
                self.events.all@.len() as int,
                event_type_index(event_type),
                r@,
            ),
    {
        &self.events.by_type[event_type.index()]
    }

    /// Returns information about a specific player in the stage, if the
    /// username belongs to the stage's party.
    pub fn player_state(&self, username: &String) -> (r: Option<PlayerStates>)
        requires
            stage_wf(*self),
        ensures
            match r {
                Some(ps) => {
                    let i = spec_party_index(self.party@, username@, self.party@.len() as int);
                    &&& 0 <= i < self.party@.len()
                    &&& *ps.states == self.player_state@[i]
                    &&& ps.states@.len() == self.events.total_ticks
                    &&& spec_states_ok(ps.states@, self.events.all@, i, self.npcs@)
                },
                None => spec_party_index(self.party@, username@, self.party@.len() as int) < 0,
            },
    {
        match party_index(&self.party, username) {
            Some(i) => {
                proof {
                    lemma_party_index_first(self.party@, username@, i as int);
                }
                Some(PlayerStates { states: &self.player_state[i] })
            },
            None => {
                proof {
                    lemma_party_index_none(self.party@, username@, self.party@.len() as int);
                }
                None
            },
        }
    }
}

/// When `i` is the first matching index, the recursive first-index search
/// returns it.
proof fn lemma_party_index_first(party: Seq<String>, name: Seq<char>, i: int)
    requires
        0 <= i < party.len(),
        party[i]@ == name,
        forall|j: int| 0 <= j < i ==> (#[trigger] party[j])@ != name,
    ensures
        spec_party_index(party, name, party.len() as int) == i,
    decreases party.len(),
{
    lemma_party_index_from(party, name, i, party.len() as int);
}

/// Helper: the first-index search over any prefix extending past `i` finds
/// `i`.
proof fn lemma_party_index_from(party: Seq<String>, name: Seq<char>, i: int, upto: int)
    requires
        0 <= i < upto <= party.len(),
        party[i]@ == name,
        forall|j: int| 0 <= j < i ==> (#[trigger] party[j])@ != name,
    ensures
        spec_party_index(party, name, upto) == i,
    decreases upto,
{
    if upto - 1 > i {
        lemma_party_index_from(party, name, i, upto - 1);
    } else {
        lemma_party_index_none(party, name, i);
    }
}

/// When no index below `upto` matches, the first-index search fails.
proof fn lemma_party_index_none(party: Seq<String>, name: Seq<char>, upto: int)
    requires
        0 <= upto <= party.len(),
        forall|j: int| 0 <= j < upto ==> (#[trigger] party[j])@ != name,
    ensures
        spec_party_index(party, name, upto) == -1,
    decreases upto,
{
    if upto > 0 {
        lemma_party_index_none(party, name, upto - 1);
    }
}

/// The per-tick state vector of the given username within a stage, if the
/// username belongs to the stage's party.
pub fn stage_player_states<'a>(info: &'a StageInfo, username: &String) -> (r: Option<
    &'a Vec<Option<PlayerState>>,
>)
    requires
        stage_wf(*info),
    ensures
        match r {
            Some(states) => {
                let i = spec_party_index(info.party@, username@, info.party@.len() as int);
                &&& 0 <= i < info.party@.len()
                &&& *states == info.player_state@[i]
                &&& states@.len() == info.events.total_ticks
                &&& spec_states_ok(states@, info.events.all@, i, info.npcs@)
            },
            None => spec_party_index(info.party@, username@, info.party@.len() as int) < 0,
        },
{
    match party_index(&info.party, username) {
        Some(i) => {
            proof {
                lemma_party_index_first(info.party@, username@, i as int);
            }
            Some(&info.player_state[i])
        },
        None => {
            proof {
                lemma_party_index_none(info.party@, username@, info.party@.len() as int);
            }
            None
        },
    }
}

/// The error detail for an oversized party.
fn party_too_large_message() -> (s: String)
{
    let mut s = String::new();
    s.append("party");
    s
}

/// The error detail naming the player and tick of a malformed equipment
/// delta.
pub open spec fn spec_delta_error_detail(username: Seq<char>, tick: int) -> Seq<char> {
    "PlayerUpdateEvent("@ + username + ":"@ + spec_decimal(tick) + "): equipment_deltas"@
}

/// Renders the error detail naming the player and tick of a malformed
/// equipment delta.
fn delta_error_message(username: &String, tick: u64) -> (s: String)
    ensures
        s@ == spec_delta_error_detail(username@, tick as int),
{
    let mut s = String::new();
    s.append("PlayerUpdateEvent(");
    s.append(username.as_str());
    s.append(":");
    append_decimal(&mut s, tick);
    s.append("): equipment_deltas");
    proof {
        assert(s@ =~= spec_delta_error_detail(username@, tick as int));
    }
    s
}

} // verus!
