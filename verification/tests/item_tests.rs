//! Tests of the item registry, slots, and prayer sets.

use blert_analysis::delta::ItemDelta;
use blert_analysis::item::{is_void, EquipmentSlot, Id, Item, Registry, Stats};
use blert_analysis::player::{PlayerState, Prayer, PrayerSet, SkillLevel};

#[test]
fn registry_lookup_last_definition_wins() {
    let items = vec![
        Item { id: 4151, name: "first".to_string(), tradeable: true, slot: None, stats: None },
        Item { id: 4151, name: "second".to_string(), tradeable: true, slot: None, stats: None },
    ];
    let registry = Registry::new(items);
    assert_eq!(registry.get(4151).unwrap().name, "second");
    assert!(registry.get(9999).is_none());
}

#[test]
fn equipment_slot_wire_values() {
    assert_eq!(EquipmentSlot::try_from(0).unwrap(), EquipmentSlot::Head);
    assert_eq!(EquipmentSlot::try_from(4).unwrap(), EquipmentSlot::Weapon);
    assert_eq!(EquipmentSlot::try_from(10).unwrap(), EquipmentSlot::Ring);
    assert_eq!(EquipmentSlot::try_from(11), Err(11));
    assert_eq!(EquipmentSlot::iter().len(), 11);
}

#[test]
fn void_pieces_recognized() {
    assert!(is_void(Id::VOID_MAGE_HELM));
    assert!(is_void(Id::ELITE_VOID_TOP_OR));
    assert!(!is_void(Id::SWIFT_BLADE));
    assert!(!is_void(0));
}

#[test]
fn skill_level_decodes_base_and_current() {
    let level = SkillLevel::from_raw((112u32 << 16) | 99);
    assert_eq!(level.base, 99);
    assert_eq!(level.current, 112);
}

#[test]
fn prayer_set_bit_membership() {
    let set = PrayerSet::from_raw((1 << 27) | (1 << 16));
    assert!(set.is_active(Prayer::Rigour));
    assert!(set.is_active(Prayer::ProtectFromMagic));
    assert!(!set.is_active(Prayer::Piety));
    assert!(!PrayerSet::empty().is_active(Prayer::ThickSkin));
}

#[test]
fn item_equipable_means_slotted() {
    let slotted = Item {
        id: 1,
        name: "hat".to_string(),
        tradeable: false,
        slot: Some(EquipmentSlot::Head),
        stats: None,
    };
    let unslotted = Item { id: 2, name: "coin".to_string(), tradeable: true, slot: None, stats: None };
    assert!(slotted.equipable());
    assert!(!unslotted.equipable());
}

#[test]
fn equipment_stats_sums_registry_items() {
    let mut hat_stats = Stats::default();
    hat_stats.magic_attack = 5;
    hat_stats.prayer = 2;
    let mut cape_stats = Stats::default();
    cape_stats.magic_attack = 3;
    let registry = Registry::new(vec![
        Item {
            id: 100,
            name: "hat".to_string(),
            tradeable: false,
            slot: Some(EquipmentSlot::Head),
            stats: Some(hat_stats),
        },
        Item {
            id: 200,
            name: "cape".to_string(),
            tradeable: false,
            slot: Some(EquipmentSlot::Cape),
            stats: Some(cape_stats),
        },
    ]);

    let mut state = PlayerState::initial(0);
    state.apply_equipment_delta(ItemDelta::Add(EquipmentSlot::Head, 100, 1));
    state.apply_equipment_delta(ItemDelta::Add(EquipmentSlot::Cape, 200, 1));
    // An item missing from the registry contributes nothing.
    state.apply_equipment_delta(ItemDelta::Add(EquipmentSlot::Ring, 999, 1));

    let total = state.equipment_stats(&registry);
    assert_eq!(total.magic_attack, 8);
    assert_eq!(total.prayer, 2);
    assert_eq!(total.stab_attack, 0);
}
