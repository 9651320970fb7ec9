//! Wire-level equipment deltas: a packed 64-bit record describing one atomic
//! change to one equipment slot.
//!
//! Layout of a packed delta: the low 31 bits hold the quantity, bit 31 the
//! added flag, bits 32..48 the item id, and bits 48..53 the equipment slot,
//! which must resolve to a slot index in `0..=10`.

use vstd::prelude::*;

use crate::item::{slot_index, spec_slot_from_index, EquipmentSlot};

verus! {

/// An `ItemDelta` represents a change in the quantity of an item in some
/// container, such as a player's equipment. Fields are the slot, the item id,
/// and the quantity added or removed.
#[derive(Debug, PartialEq, Eq, Clone, Copy, Structural)]
pub enum ItemDelta {
    Add(EquipmentSlot, i32, i32),
    Remove(EquipmentSlot, i32, i32),
}

/// Slot bits of a packed delta.
pub open spec fn spec_slot_bits(raw: u64) -> u64 {
    (raw >> 48) & 0x1f
}

/// Item-id bits of a packed delta.
pub open spec fn spec_id_bits(raw: u64) -> u64 {
    (raw >> 32) & 0xffff
}

/// Quantity bits of a packed delta.
pub open spec fn spec_quantity_bits(raw: u64) -> u64 {
    raw & 0x7fff_ffff
}

/// Added flag of a packed delta.
pub open spec fn spec_added_bit(raw: u64) -> bool {
    raw & 0x8000_0000 != 0
}

/// True when the slot bits resolve to an equipment slot, so that parsing
/// succeeds.
pub open spec fn spec_raw_parses(raw: u64) -> bool {
    spec_slot_bits(raw) <= 10
}

/// True when a packed delta is valid: its slot resolves and its unused high
/// bits are clear.
pub open spec fn spec_raw_valid(raw: u64) -> bool {
    spec_raw_parses(raw) && raw >> 53 == 0
}

/// The delta encoded by a packed value whose slot bits resolve.
pub open spec fn spec_parse(raw: u64) -> ItemDelta {
    let slot = spec_slot_from_index(spec_slot_bits(raw) as int);
    let id = spec_id_bits(raw) as i32;
    let quantity = spec_quantity_bits(raw) as i32;
    if spec_added_bit(raw) {
        ItemDelta::Add(slot, id, quantity)
    } else {
        ItemDelta::Remove(slot, id, quantity)
    }
}

/// True when a delta's fields fit the packed layout: a 16-bit id and a 31-bit
/// quantity.
pub open spec fn spec_delta_wf(delta: ItemDelta) -> bool {
    match delta {
        ItemDelta::Add(_, id, quantity) => 0 <= id <= 0xffff && 0 <= quantity <= 0x7fff_ffff,
        ItemDelta::Remove(_, id, quantity) => 0 <= id <= 0xffff && 0 <= quantity <= 0x7fff_ffff,
    }
}

/// The packed representation of a well-formed delta.
pub open spec fn spec_pack(delta: ItemDelta) -> u64 {
    match delta {
        ItemDelta::Add(slot, id, quantity) => ((slot_index(slot) as u64) << 48) | (
        (id as u64) << 32) | 0x8000_0000u64 | (quantity as u64),
        ItemDelta::Remove(slot, id, quantity) => ((slot_index(slot) as u64) << 48) | (
        (id as u64) << 32) | (quantity as u64),
    }
}

impl ItemDelta {
    /// Parses an item delta from its packed numeric representation. Fails
    /// exactly when the slot bits do not resolve to an equipment slot.
    pub fn parse(raw_delta: u64) -> (r: core::result::Result<ItemDelta, &'static str>)
        ensures
            spec_raw_parses(raw_delta) ==> (r matches Ok(d) && d == spec_parse(raw_delta)),
            !spec_raw_parses(raw_delta) ==> r is Err,
    {
        let slot_bits = (raw_delta >> 48) & 0x1f;
        let slot = match EquipmentSlot::try_from(slot_bits) {
            Ok(slot) => slot,
            Err(_) => {
                return Err("Invalid slot");
            },
        };

        let id_bits = (raw_delta >> 32) & 0xffff;
        assert(id_bits <= 0xffff) by (bit_vector)
            requires
                id_bits == (raw_delta >> 32) & 0xffff,
        ;
        let id = id_bits as i32;

        let quantity_bits = raw_delta & 0x7fff_ffff;
        assert(quantity_bits <= 0x7fff_ffff) by (bit_vector)
            requires
                quantity_bits == raw_delta & 0x7fff_ffff,
        ;
        let quantity = quantity_bits as i32;

        if raw_delta & 0x8000_0000 != 0 {
            Ok(ItemDelta::Add(slot, id, quantity))
        } else {
            Ok(ItemDelta::Remove(slot, id, quantity))
        }
    }

    /// Re-packs a delta into its numeric wire representation.
    pub fn pack(&self) -> (r: u64)
        requires
            spec_delta_wf(*self),
        ensures
            r == spec_pack(*self),
    {
        match self {
            ItemDelta::Add(slot, id, quantity) => {
                let s = slot.index() as u64;
                (s << 48) | ((*id as u64) << 32) | 0x8000_0000u64 | (*quantity as u64)
            },
            ItemDelta::Remove(slot, id, quantity) => {
                let s = slot.index() as u64;
                (s << 48) | ((*id as u64) << 32) | (*quantity as u64)
            },
        }
    }
}

/// Any parsed delta fits the packed layout: its id is a 16-bit value and its
/// quantity a 31-bit value, both non-negative.
pub proof fn lemma_parse_delta_bounds(raw: u64)
    ensures
        spec_delta_wf(spec_parse(raw)),
{
    let i = spec_id_bits(raw);
    let q = spec_quantity_bits(raw);
    let id32 = i as i32;
    let q32 = q as i32;
    assert(0 <= id32 <= 0xffff && 0 <= q32 <= 0x7fff_ffff) by (bit_vector)
        requires
            i == (raw >> 32) & 0xffff,
            q == raw & 0x7fff_ffff,
            id32 == i as i32,
            q32 == q as i32,
    ;
}

/// Round trip of the packed encoding: parsing a valid packed delta and packing
/// the result yields the original value, and the parsed delta always fits the
/// packed layout.
pub proof fn lemma_parse_pack_round_trip(raw: u64)
    requires
        spec_raw_valid(raw),
    ensures
        spec_delta_wf(spec_parse(raw)),
        spec_pack(spec_parse(raw)) == raw,
{
    let s = spec_slot_bits(raw);
    let i = spec_id_bits(raw);
    let q = spec_quantity_bits(raw);

    assert(s <= 31 && i <= 0xffff && q <= 0x7fff_ffff) by (bit_vector)
        requires
            s == (raw >> 48) & 0x1f,
            i == (raw >> 32) & 0xffff,
            q == raw & 0x7fff_ffff,
    ;

    assert(slot_index(spec_slot_from_index(s as int)) == s as int);

    let id32 = i as i32;
    let q32 = q as i32;
    assert(id32 as u64 == i && q32 as u64 == q) by (bit_vector)
        requires
            i <= 0xffff,
            q <= 0x7fff_ffff,
            id32 == i as i32,
            q32 == q as i32,
    ;

    if spec_added_bit(raw) {
        assert((s << 48) | (i << 32) | 0x8000_0000u64 | q == raw) by (bit_vector)
            requires
                s == (raw >> 48) & 0x1f,
                i == (raw >> 32) & 0xffff,
                q == raw & 0x7fff_ffff,
                raw & 0x8000_0000 != 0,
                raw >> 53 == 0,
                s <= 10,
        ;
    } else {
        assert((s << 48) | (i << 32) | q == raw) by (bit_vector)
            requires
                s == (raw >> 48) & 0x1f,
                i == (raw >> 32) & 0xffff,
                q == raw & 0x7fff_ffff,
                raw & 0x8000_0000 == 0,
                raw >> 53 == 0,
                s <= 10,
        ;
    }
}

/// Packing a well-formed delta always yields a valid packed value that parses
/// back to the same delta.
pub proof fn lemma_pack_parse_round_trip(delta: ItemDelta)
    requires
        spec_delta_wf(delta),
    ensures
        spec_raw_valid(spec_pack(delta)),
        spec_parse(spec_pack(delta)) == delta,
{
    let (slot, id, quantity, added) = match delta {
        ItemDelta::Add(slot, id, quantity) => (slot, id, quantity, true),
        ItemDelta::Remove(slot, id, quantity) => (slot, id, quantity, false),
    };
    let s = slot_index(slot) as u64;
    let i = id as u64;
    let q = quantity as u64;
    assert(s <= 10);
    assert(i <= 0xffff && q <= 0x7fff_ffff) by (bit_vector)
        requires
            i == id as u64,
            q == quantity as u64,
            0 <= id <= 0xffff,
            0 <= quantity <= 0x7fff_ffff,
    ;
    let raw = if added {
        (s << 48) | (i << 32) | 0x8000_0000u64 | q
    } else {
        (s << 48) | (i << 32) | q
    };
    if added {
        assert((raw >> 48) & 0x1f == s && (raw >> 32) & 0xffff == i && raw & 0x7fff_ffff == q
            && raw & 0x8000_0000 != 0 && raw >> 53 == 0) by (bit_vector)
            requires
                raw == (s << 48) | (i << 32) | 0x8000_0000u64 | q,
                s <= 10,
                i <= 0xffff,
                q <= 0x7fff_ffff,
        ;
    } else {
        assert((raw >> 48) & 0x1f == s && (raw >> 32) & 0xffff == i && raw & 0x7fff_ffff == q
            && raw & 0x8000_0000 == 0 && raw >> 53 == 0) by (bit_vector)
            requires
                raw == (s << 48) | (i << 32) | q,
                s <= 10,
                i <= 0xffff,
                q <= 0x7fff_ffff,
        ;
    }
    assert(spec_slot_from_index(s as int) == slot);
    assert(spec_id_bits(raw) as i32 == id && spec_quantity_bits(raw) as i32 == quantity) by (
    bit_vector)
        requires
            (raw >> 32) & 0xffff == i,
            raw & 0x7fff_ffff == q,
            i == id as u64,
            q == quantity as u64,
            0 <= id <= 0xffff,
            0 <= quantity <= 0x7fff_ffff,
    ;
}

} // verus!
