//! Dojo introspection: felt encodings, type definitions, world events and
//! table bookkeeping, with their contracts proved by Verus.
use vstd::prelude::*;

pub mod codec;
pub mod dojo_serde;
pub mod error;
pub mod events;
pub mod felt;
pub mod manager;
pub mod selector;
mod outside;
pub mod typedef;
pub mod types;
pub mod utils;
pub mod world_events;

verus! {
} // verus!
