//! Tests of status decoding and the packed item-delta codec.

use blert_analysis::challenge::Status;
use blert_analysis::delta::ItemDelta;
use blert_analysis::error::Error;
use blert_analysis::item::EquipmentSlot;

#[test]
fn status_from_i16_valid() {
    assert_eq!(Status::try_from(0).unwrap(), Status::InProgress);
    assert_eq!(Status::try_from(1).unwrap(), Status::Completed);
    assert_eq!(Status::try_from(2).unwrap(), Status::Wiped);
    assert_eq!(Status::try_from(3).unwrap(), Status::Reset);
}

#[test]
fn status_from_i16_invalid() {
    assert!(Status::try_from(-1).is_err());
    assert!(Status::try_from(4).is_err());
    assert!(Status::try_from(100).is_err());
    assert!(Status::try_from(i16::MAX).is_err());
    assert!(Status::try_from(i16::MIN).is_err());
}

#[test]
fn status_invalid_value_names_field() {
    match Status::try_from(4) {
        Err(Error::InvalidField(field)) => assert_eq!(field, "status"),
        other => panic!("expected an invalid-field error, got {other:?}"),
    }
}

#[test]
fn item_delta_from_raw() {
    assert_eq!(
        ItemDelta::parse(0x0000_0000_0000_000f).unwrap(),
        ItemDelta::Remove(EquipmentSlot::Head, 0, 15),
    );
    assert_eq!(
        ItemDelta::parse(0x0000_0000_8000_000f).unwrap(),
        ItemDelta::Add(EquipmentSlot::Head, 0, 15),
    );
    assert_eq!(
        ItemDelta::parse(0x0003_2bd6_8000_718d).unwrap(),
        ItemDelta::Add(EquipmentSlot::Ammo, 11222, 29069),
    );
    assert_eq!(
        ItemDelta::parse(0x0003_2bd6_0000_0001).unwrap(),
        ItemDelta::Remove(EquipmentSlot::Ammo, 11222, 1),
    );
}

#[test]
fn item_delta_round_trip() {
    // Parsing a valid packed delta and re-packing it yields the original.
    let samples: [u64; 5] = [
        0x0000_0000_0000_000f,
        0x0000_0000_8000_000f,
        0x0003_2bd6_8000_718d,
        0x0003_2bd6_0000_0001,
        0x000a_ffff_ffff_ffff,
    ];
    for raw in samples {
        let delta = ItemDelta::parse(raw).unwrap();
        assert_eq!(delta.pack(), raw);
    }
    // And packing a delta then parsing it restores the delta.
    let delta = ItemDelta::Add(EquipmentSlot::Ring, 4151, 3);
    assert_eq!(ItemDelta::parse(delta.pack()).unwrap(), delta);
}

#[test]
fn item_delta_invalid_slot() {
    // Slot bits above 10 do not resolve to an equipment slot.
    let raw: u64 = 31u64 << 48;
    assert!(ItemDelta::parse(raw).is_err());
    assert!(ItemDelta::parse(0x001f_0000_8000_0001).is_err());
}
