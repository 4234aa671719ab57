//! Queries across pools of different types.

pub mod orchestrator;
pub mod sealed;
pub mod trait_registry;
