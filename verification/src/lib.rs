//! Analysis engine for recorded multi-stage cooperative combat encounters.
//!
//! The crate rebuilds dense per-tick player state from a compact append-only
//! event log, and runs named programs of dependency-ordered analyzers over the
//! reconstructed challenge data.
#![verifier::loop_isolation(false)]

pub mod analysis;
pub mod analyzers;
pub mod challenge;
pub mod data_repository;
pub mod delta;
pub mod error;
pub mod event;
pub mod item;
pub mod npc;
pub mod player;
pub mod program;
pub mod stage;
pub mod text;
