//! Well-known NPC ids and classification helpers for NPC records.

use vstd::prelude::*;

use crate::event::{EventNpc, StageNpc};

verus! {

/// Well-known NPC game ids referenced by the domain analyzers.
pub struct Id {}

impl Id {
    pub const MAIDEN_MATOMENOS_ENTRY: u32 = 10820;
    pub const MAIDEN_MATOMENOS_REGULAR: u32 = 8366;
    pub const MAIDEN_MATOMENOS_HARD: u32 = 10828;
}

/// True when `id` is the game id of a red crab at the first boss.
pub open spec fn spec_is_maiden_matomenos(id: u32) -> bool {
    ||| id == Id::MAIDEN_MATOMENOS_ENTRY
    ||| id == Id::MAIDEN_MATOMENOS_REGULAR
    ||| id == Id::MAIDEN_MATOMENOS_HARD
}

/// Classification helpers shared by NPC record shapes.
pub trait NpcExt {
    /// Returns whether the NPC is a red crab at the first boss.
    fn is_maiden_matomenos(&self) -> bool;
}

impl NpcExt for EventNpc {
    fn is_maiden_matomenos(&self) -> (r: bool)
        ensures
            r == spec_is_maiden_matomenos(self.id),
    {
        self.id == Id::MAIDEN_MATOMENOS_ENTRY || self.id == Id::MAIDEN_MATOMENOS_REGULAR
            || self.id == Id::MAIDEN_MATOMENOS_HARD
    }
}

impl NpcExt for StageNpc {
    fn is_maiden_matomenos(&self) -> (r: bool)
        ensures
            r == spec_is_maiden_matomenos(self.spawn_npc_id),
    {
        self.spawn_npc_id == Id::MAIDEN_MATOMENOS_ENTRY || self.spawn_npc_id
            == Id::MAIDEN_MATOMENOS_REGULAR || self.spawn_npc_id == Id::MAIDEN_MATOMENOS_HARD
    }
}

} // verus!
