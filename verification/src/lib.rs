//! Decentralized handler registration: a configuration-argument grammar,
//! top-down default merging, stable thunk identities, and an append-only
//! registry walked once when a component instance is bootstrapped.

pub mod bytes;
pub mod group;
pub mod identity;
pub mod parse;
pub mod record;
pub mod registry;
pub mod thunk;
