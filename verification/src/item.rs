//! In-game item definitions: equipment slots, item stats, and the item
//! registry shared by all analysis runs.

use vstd::prelude::*;

verus! {

/// Slots in which a player can equip items.
#[derive(Debug, Clone, Copy, PartialEq, Eq, Structural)]
pub enum EquipmentSlot {
    Head,
    Cape,
    Amulet,
    Ammo,
    Weapon,
    Torso,
    Shield,
    Legs,
    Gloves,
    Boots,
    Ring,
}

/// Dense index of an equipment slot within an 11-entry equipment vector.
pub open spec fn slot_index(slot: EquipmentSlot) -> int {
    match slot {
        EquipmentSlot::Head => 0,
        EquipmentSlot::Cape => 1,
        EquipmentSlot::Amulet => 2,
        EquipmentSlot::Ammo => 3,
        EquipmentSlot::Weapon => 4,
        EquipmentSlot::Torso => 5,
        EquipmentSlot::Shield => 6,
        EquipmentSlot::Legs => 7,
        EquipmentSlot::Gloves => 8,
        EquipmentSlot::Boots => 9,
        EquipmentSlot::Ring => 10,
    }
}

/// The slot whose dense index is `value`, for `value <= 10`.
pub open spec fn spec_slot_from_index(value: int) -> EquipmentSlot {
    if value == 0 {
        EquipmentSlot::Head
    } else if value == 1 {
        EquipmentSlot::Cape
    } else if value == 2 {
        EquipmentSlot::Amulet
    } else if value == 3 {
        EquipmentSlot::Ammo
    } else if value == 4 {
        EquipmentSlot::Weapon
    } else if value == 5 {
        EquipmentSlot::Torso
    } else if value == 6 {
        EquipmentSlot::Shield
    } else if value == 7 {
        EquipmentSlot::Legs
    } else if value == 8 {
        EquipmentSlot::Gloves
    } else if value == 9 {
        EquipmentSlot::Boots
    } else {
        EquipmentSlot::Ring
    }
}

impl EquipmentSlot {
    /// Number of equipment slots.
    pub const COUNT: usize = 11;

    /// Dense index of this slot, in `0..11`.
    pub fn index(self) -> (i: usize)
        ensures
            i == slot_index(self),
    {
        match self {
            EquipmentSlot::Head => 0,
            EquipmentSlot::Cape => 1,
            EquipmentSlot::Amulet => 2,
            EquipmentSlot::Ammo => 3,
            EquipmentSlot::Weapon => 4,
            EquipmentSlot::Torso => 5,
            EquipmentSlot::Shield => 6,
            EquipmentSlot::Legs => 7,
            EquipmentSlot::Gloves => 8,
            EquipmentSlot::Boots => 9,
            EquipmentSlot::Ring => 10,
        }
    }

    /// Decodes a slot from its wire value; out-of-range values are handed back
    /// as the error.
    pub fn try_from(value: u64) -> (r: core::result::Result<EquipmentSlot, u64>)
        ensures
            value <= 10 ==> (r matches Ok(s) && s == spec_slot_from_index(value as int)),
            value > 10 ==> (r matches Err(v) && v == value),
    {
        if value <= 10 {
            Ok(Self::from_index_unchecked(value))
        } else {
            Err(value)
        }
    }

    fn from_index_unchecked(value: u64) -> (s: EquipmentSlot)
        requires
            value <= 10,
        ensures
            s == spec_slot_from_index(value as int),
    {
        if value == 0 {
            EquipmentSlot::Head
        } else if value == 1 {
            EquipmentSlot::Cape
        } else if value == 2 {
            EquipmentSlot::Amulet
        } else if value == 3 {
            EquipmentSlot::Ammo
        } else if value == 4 {
            EquipmentSlot::Weapon
        } else if value == 5 {
            EquipmentSlot::Torso
        } else if value == 6 {
            EquipmentSlot::Shield
        } else if value == 7 {
            EquipmentSlot::Legs
        } else if value == 8 {
            EquipmentSlot::Gloves
        } else if value == 9 {
            EquipmentSlot::Boots
        } else {
            EquipmentSlot::Ring
        }
    }

    /// Every slot, in dense-index order.
    pub fn iter() -> (slots: Vec<EquipmentSlot>)
        ensures
            slots@.len() == 11,
            forall|i: int| 0 <= i < 11 ==> slot_index(#[trigger] slots@[i]) == i,
    {
        let mut slots: Vec<EquipmentSlot> = Vec::new();
        slots.push(EquipmentSlot::Head);
        slots.push(EquipmentSlot::Cape);
        slots.push(EquipmentSlot::Amulet);
        slots.push(EquipmentSlot::Ammo);
        slots.push(EquipmentSlot::Weapon);
        slots.push(EquipmentSlot::Torso);
        slots.push(EquipmentSlot::Shield);
        slots.push(EquipmentSlot::Legs);
        slots.push(EquipmentSlot::Gloves);
        slots.push(EquipmentSlot::Boots);
        slots.push(EquipmentSlot::Ring);
        slots
    }
}

/// Combat bonuses of one item, or the per-slot sum over a set of equipped
/// items.
#[derive(Debug, Clone, Copy, PartialEq, Eq, Structural)]
pub struct Stats {
    pub stab_attack: i64,
    pub slash_attack: i64,
    pub crush_attack: i64,
    pub magic_attack: i64,
    pub ranged_attack: i64,
    pub stab_defence: i64,
    pub slash_defence: i64,
    pub crush_defence: i64,
    pub magic_defence: i64,
    pub ranged_defence: i64,
    pub melee_strength: i64,
    pub ranged_strength: i64,
    pub magic_damage: i64,
    pub prayer: i64,
    pub attack_speed: i64,
}

/// The all-zero stat block.
pub open spec fn spec_zero_stats() -> Stats {
    Stats {
        stab_attack: 0,
        slash_attack: 0,
        crush_attack: 0,
        magic_attack: 0,
        ranged_attack: 0,
        stab_defence: 0,
        slash_defence: 0,
        crush_defence: 0,
        magic_defence: 0,
        ranged_defence: 0,
        melee_strength: 0,
        ranged_strength: 0,
        magic_damage: 0,
        prayer: 0,
        attack_speed: 0,
    }
}

impl Default for Stats {
    fn default() -> (s: Stats)
        ensures
            s == spec_zero_stats(),
    {
        Stats {
            stab_attack: 0,
            slash_attack: 0,
            crush_attack: 0,
            magic_attack: 0,
            ranged_attack: 0,
            stab_defence: 0,
            slash_defence: 0,
            crush_defence: 0,
            magic_defence: 0,
            ranged_defence: 0,
            melee_strength: 0,
            ranged_strength: 0,
            magic_damage: 0,
            prayer: 0,
            attack_speed: 0,
        }
    }
}

/// One in-game item definition.
#[derive(Debug, Clone)]
pub struct Item {
    pub id: i32,
    pub name: String,
    pub tradeable: bool,
    pub slot: Option<EquipmentSlot>,
    pub stats: Option<Stats>,
}

impl Item {
    /// Returns whether the item can be equipped.
    pub fn equipable(&self) -> (r: bool)
        ensures
            r == self.slot is Some,
    {
        self.slot.is_some()
    }
}

/// An item `Registry` is a collection of in-game item definitions, looked up
/// by item id. When the same id occurs more than once, the last definition
/// wins.
#[derive(Debug)]
pub struct Registry {
    items: Vec<Item>,
}

/// Index of the winning definition of `id` within `items`, scanning from the
/// end, or `-1` when `id` is not defined.
pub open spec fn spec_registry_find(items: Seq<Item>, id: i32, upto: int) -> int
    decreases upto,
{
    if upto <= 0 {
        -1
    } else if items[upto - 1].id == id {
        upto - 1
    } else {
        spec_registry_find(items, id, upto - 1)
    }
}

impl Registry {
    /// The item definitions held, in insertion order.
    pub closed spec fn spec_items(self) -> Seq<Item> {
        self.items@
    }

    /// The definition returned for `id`, if any.
    pub open spec fn spec_get(self, id: i32) -> Option<Item> {
        let idx = spec_registry_find(self.spec_items(), id, self.spec_items().len() as int);
        if idx < 0 {
            None
        } else {
            Some(self.spec_items()[idx])
        }
    }

    /// Builds a registry from a list of item definitions.
    pub fn new(items: Vec<Item>) -> (r: Registry)
        ensures
            r.spec_items() == items@,
    {
        Registry { items }
    }

    /// Looks up an item by its ID.
    pub fn get(&self, id: i32) -> (r: Option<&Item>)
        ensures
            match r {
                Some(item) => self.spec_get(id) == Some(*item),
                None => self.spec_get(id) is None,
            },
    {
        let n = self.items.len();
        let mut i: usize = n;
        while i > 0
            invariant
                i <= n,
                n == self.items@.len(),
                spec_registry_find(self.items@, id, n as int) == spec_registry_find(
                    self.items@,
                    id,
                    i as int,
                ),
            decreases i,
        {
            if self.items[i - 1].id == id {
                return Some(&self.items[i - 1]);
            }
            i = i - 1;
        }
        None
    }
}

/// Styles of Void gear a player may own.
#[derive(Debug, Clone, Copy)]
pub enum VoidStyle {
    Mage,
    Ranged,
    Melee,
    Any,
}

/// Well-known item IDs referenced by the domain analyzers.
pub struct Id;

impl Id {
    pub const VOID_KNIGHT_TOP: i32 = 8839;
    pub const VOID_KNIGHT_ROBE: i32 = 8840;
    pub const VOID_KNIGHT_GLOVES: i32 = 8842;
    pub const VOID_MAGE_HELM: i32 = 11663;
    pub const VOID_RANGER_HELM: i32 = 11664;
    pub const VOID_MELEE_HELM: i32 = 11665;
    pub const GOBLIN_PAINT_CANNON: i32 = 12727;
    pub const DINHS_BULWARK: i32 = 21015;
    pub const HAM_JOINT: i32 = 23360;
    pub const VOID_KNIGHT_TOP_L: i32 = 24177;
    pub const ELITE_VOID_TOP_L: i32 = 24178;
    pub const VOID_KNIGHT_ROBE_L: i32 = 24179;
    pub const ELITE_VOID_ROBE_L: i32 = 24180;
    pub const VOID_KNIGHT_MACE_L: i32 = 24181;
    pub const VOID_KNIGHT_GLOVES_L: i32 = 24182;
    pub const VOID_MAGE_HELM_L: i32 = 24183;
    pub const VOID_RANGER_HELM_L: i32 = 24184;
    pub const VOID_MELEE_HELM_L: i32 = 24185;
    pub const SWIFT_BLADE: i32 = 24219;
    pub const ZARYTE_VAMBRACES: i32 = 26235;
    pub const VOID_KNIGHT_TOP_OR: i32 = 26463;
    pub const VOID_KNIGHT_ROBE_OR: i32 = 26465;
    pub const VOID_KNIGHT_GLOVES_OR: i32 = 26467;
    pub const ELITE_VOID_TOP_OR: i32 = 26469;
    pub const ELITE_VOID_ROBE_OR: i32 = 26471;
    pub const VOID_MAGE_HELM_OR: i32 = 26473;
    pub const VOID_RANGER_HELM_OR: i32 = 26475;
    pub const VOID_MELEE_HELM_OR: i32 = 26477;
    pub const MASORI_MASK: i32 = 27226;
    pub const MASORI_BODY: i32 = 27229;
    pub const MASORI_CHAPS: i32 = 27232;
    pub const MASORI_MASK_F: i32 = 27235;
    pub const MASORI_BODY_F: i32 = 27238;
    pub const MASORI_CHAPS_F: i32 = 27241;
    pub const DINHS_BLAZING_BULWARK: i32 = 28682;
    pub const DUAL_MACUAHUITL: i32 = 28997;
}

/// True when `id` belongs to any Void piece.
pub open spec fn spec_is_void(id: i32) -> bool {
    ||| id == Id::VOID_KNIGHT_TOP
    ||| id == Id::VOID_KNIGHT_ROBE
    ||| id == Id::VOID_KNIGHT_GLOVES
    ||| id == Id::VOID_MAGE_HELM
    ||| id == Id::VOID_RANGER_HELM
    ||| id == Id::VOID_MELEE_HELM
    ||| id == Id::VOID_KNIGHT_TOP_L
    ||| id == Id::ELITE_VOID_TOP_L
    ||| id == Id::VOID_KNIGHT_ROBE_L
    ||| id == Id::ELITE_VOID_ROBE_L
    ||| id == Id::VOID_KNIGHT_MACE_L
    ||| id == Id::VOID_KNIGHT_GLOVES_L
    ||| id == Id::VOID_MAGE_HELM_L
    ||| id == Id::VOID_RANGER_HELM_L
    ||| id == Id::VOID_MELEE_HELM_L
    ||| id == Id::VOID_KNIGHT_TOP_OR
    ||| id == Id::VOID_KNIGHT_ROBE_OR
    ||| id == Id::VOID_KNIGHT_GLOVES_OR
    ||| id == Id::ELITE_VOID_TOP_OR
    ||| id == Id::ELITE_VOID_ROBE_OR
    ||| id == Id::VOID_MAGE_HELM_OR
    ||| id == Id::VOID_RANGER_HELM_OR
    ||| id == Id::VOID_MELEE_HELM_OR
}

/// Returns `true` if the given item ID belongs to any Void piece.
pub fn is_void(id: i32) -> (r: bool)
    ensures
        r == spec_is_void(id),
{
    id == Id::VOID_KNIGHT_TOP || id == Id::VOID_KNIGHT_ROBE || id == Id::VOID_KNIGHT_GLOVES
        || id == Id::VOID_MAGE_HELM || id == Id::VOID_RANGER_HELM || id == Id::VOID_MELEE_HELM
        || id == Id::VOID_KNIGHT_TOP_L || id == Id::ELITE_VOID_TOP_L || id == Id::VOID_KNIGHT_ROBE_L
        || id == Id::ELITE_VOID_ROBE_L || id == Id::VOID_KNIGHT_MACE_L
        || id == Id::VOID_KNIGHT_GLOVES_L || id == Id::VOID_MAGE_HELM_L
        || id == Id::VOID_RANGER_HELM_L || id == Id::VOID_MELEE_HELM_L || id == Id::VOID_KNIGHT_TOP_OR
        || id == Id::VOID_KNIGHT_ROBE_OR || id == Id::VOID_KNIGHT_GLOVES_OR
        || id == Id::ELITE_VOID_TOP_OR || id == Id::ELITE_VOID_ROBE_OR || id == Id::VOID_MAGE_HELM_OR
        || id == Id::VOID_RANGER_HELM_OR || id == Id::VOID_MELEE_HELM_OR
}

} // verus!
