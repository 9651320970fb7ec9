//! Tests of the per-stage replay reconstruction.


use blert_analysis::delta::ItemDelta;
use blert_analysis::error::Error;
use blert_analysis::event::{
    ChallengeData, ChallengeEvents, Event, EventPlayer, EventType, Stage,
};
use blert_analysis::item::EquipmentSlot;
use blert_analysis::player::{AttackState, DeathState, ItemQuantity, PlayerState};
use blert_analysis::stage::StageInfo;

fn empty_player(party_index: u32) -> EventPlayer {
    EventPlayer {
        party_index,
        active_prayers: 0,
        off_cooldown_tick: 0,
        attack: None,
        defence: None,
        strength: None,
        hitpoints: None,
        ranged: None,
        prayer: None,
        magic: None,
        equipment_deltas: Vec::new(),
    }
}

fn event(event_type: EventType, tick: u32, player: Option<EventPlayer>) -> Event {
    Event {
        event_type,
        tick,
        x_coord: 0,
        y_coord: 0,
        player,
        player_attack: None,
    }
}

fn stage_of(events: Vec<Event>, party: Vec<String>) -> Result<StageInfo, Error> {
    let data = ChallengeData { stage_data: None };
    StageInfo::new(
        &data,
        ChallengeEvents { stage: Stage::TobMaiden, party_names: party, events },
    )
}

#[test]
fn empty_stage_reconstructs_empty_state() {
    // A stage with zero events has zero ticks and empty state vectors, and
    // does not fail.
    let info = stage_of(Vec::new(), vec!["p1".to_string()]).unwrap();
    assert_eq!(info.events.total_ticks, 0);
    assert_eq!(info.total_events(), 0);
    let states = info.player_state(&"p1".to_string()).unwrap();
    assert!(states.get_tick(0).is_none());
}

#[test]
fn state_defined_at_every_tick() {
    // Player state has one defined snapshot per tick, 0..=last tick.
    let events = vec![
        event(EventType::PlayerUpdate, 0, Some(empty_player(0))),
        event(EventType::Unknown, 4, None),
    ];
    let info = stage_of(events, vec!["p1".to_string()]).unwrap();
    assert_eq!(info.events.total_ticks, 5);
    let states = info.player_state(&"p1".to_string()).unwrap();
    for t in 0..5 {
        let state = states.get_tick(t).expect("state must be defined at every tick");
        assert_eq!(state.tick as usize, t);
    }
    assert!(states.get_tick(5).is_none());
}

#[test]
fn update_applies_cooldown() {
    // An update at tick 2 with off-cooldown tick 5 puts an idle player on
    // cooldown for 3 ticks, counting down and expiring to idle.
    let mut update = empty_player(0);
    update.off_cooldown_tick = 5;
    let events = vec![
        event(EventType::PlayerUpdate, 2, Some(update)),
        event(EventType::Unknown, 5, None),
    ];
    let info = stage_of(events, vec!["p1".to_string()]).unwrap();
    let states = info.player_state(&"p1".to_string()).unwrap();
    assert_eq!(states.get_tick(1).unwrap().attack_state, AttackState::Idle);
    assert_eq!(states.get_tick(2).unwrap().attack_state, AttackState::OnCooldown(3));
    assert_eq!(states.get_tick(3).unwrap().attack_state, AttackState::OnCooldown(2));
    assert_eq!(states.get_tick(4).unwrap().attack_state, AttackState::OnCooldown(1));
    assert_eq!(states.get_tick(5).unwrap().attack_state, AttackState::Idle);
}

#[test]
fn death_persists_for_one_tick_then_dead() {
    // Just-died at the death tick, dead on the next, and back to alive after
    // that: death carries over for exactly one tick unless re-asserted.
    let events = vec![
        event(EventType::PlayerDeath, 1, Some(empty_player(0))),
        event(EventType::Unknown, 3, None),
    ];
    let info = stage_of(events, vec!["p1".to_string()]).unwrap();
    let states = info.player_state(&"p1".to_string()).unwrap();
    assert_eq!(states.get_tick(0).unwrap().death_state, DeathState::Alive);
    assert_eq!(states.get_tick(1).unwrap().death_state, DeathState::JustDied);
    assert_eq!(states.get_tick(2).unwrap().death_state, DeathState::Dead);
    assert_eq!(states.get_tick(3).unwrap().death_state, DeathState::Alive);
}

#[test]
fn malformed_delta_fails_stage() {
    // A packed delta with slot bits 31 is malformed; the stage reconstruction
    // fails with a field-validation error.
    let mut update = empty_player(0);
    update.equipment_deltas = vec![31u64 << 48];
    let events = vec![event(EventType::PlayerUpdate, 0, Some(update))];
    match stage_of(events, vec!["p1".to_string()]) {
        Err(Error::InvalidField(detail)) => {
            assert!(detail.contains("p1"));
        }
        other => panic!("expected an invalid-field error, got {other:?}"),
    }
}

#[test]
fn add_same_id_accumulates_and_other_id_replaces() {
    let mut state = PlayerState::initial(0);
    state.apply_equipment_delta(ItemDelta::Add(EquipmentSlot::Ammo, 11222, 100));
    state.apply_equipment_delta(ItemDelta::Add(EquipmentSlot::Ammo, 11222, 50));
    let item = state.equipped_item(EquipmentSlot::Ammo).unwrap();
    assert_eq!((item.id(), item.quantity()), (11222, 150));

    state.apply_equipment_delta(ItemDelta::Add(EquipmentSlot::Ammo, 9999, 7));
    let item = state.equipped_item(EquipmentSlot::Ammo).unwrap();
    assert_eq!((item.id(), item.quantity()), (9999, 7));
}

#[test]
fn remove_clears_or_subtracts() {
    let mut state = PlayerState::initial(0);
    state.apply_equipment_delta(ItemDelta::Add(EquipmentSlot::Ammo, 11222, 100));
    state.apply_equipment_delta(ItemDelta::Remove(EquipmentSlot::Ammo, 11222, 30));
    let item = state.equipped_item(EquipmentSlot::Ammo).unwrap();
    assert_eq!(item.quantity(), 70);

    // Removing at least the held quantity clears the slot; never negative.
    state.apply_equipment_delta(ItemDelta::Remove(EquipmentSlot::Ammo, 11222, 70));
    assert!(state.equipped_item(EquipmentSlot::Ammo).is_none());

    // Removing a different id clears the slot unconditionally.
    state.apply_equipment_delta(ItemDelta::Add(EquipmentSlot::Ammo, 11222, 10));
    state.apply_equipment_delta(ItemDelta::Remove(EquipmentSlot::Ammo, 4151, 1));
    assert!(state.equipped_item(EquipmentSlot::Ammo).is_none());
}

#[test]
fn remove_more_than_held_never_negative() {
    let mut state = PlayerState::initial(0);
    state.apply_equipment_delta(ItemDelta::Add(EquipmentSlot::Head, 5, 3));
    state.apply_equipment_delta(ItemDelta::Remove(EquipmentSlot::Head, 5, 9));
    assert!(state.equipped_item(EquipmentSlot::Head).is_none());
}

#[test]
fn stats_reset_each_tick_unless_reasserted() {
    let mut update = empty_player(0);
    update.attack = Some((120u32 << 16) | 99);
    let events = vec![
        event(EventType::PlayerUpdate, 0, Some(update)),
        event(EventType::Unknown, 1, None),
    ];
    let info = stage_of(events, vec!["p1".to_string()]).unwrap();
    let states = info.player_state(&"p1".to_string()).unwrap();
    let s0 = states.get_tick(0).unwrap();
    let lvl = s0.stats.attack.clone().unwrap();
    assert_eq!((lvl.base, lvl.current), (99, 120));
    // The next tick does not inherit the stat.
    assert!(states.get_tick(1).unwrap().stats.attack.is_none());
}

#[test]
fn item_quantity_accessors() {
    let q = ItemQuantity(11222, 3);
    assert_eq!(q.id(), 11222);
    assert_eq!(q.quantity(), 3);
}
