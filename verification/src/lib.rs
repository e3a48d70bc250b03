//! A registry that governs the lifecycle of independently operated appchains
//! competing for promotion into an active network.
//!
//! The registry tracks each appchain's identity, ownership, metadata,
//! deposit-backed votes and lifecycle state, and runs a periodic, time-gated
//! voting-score election that selects the highest-ranked candidate for
//! promotion. The hosting environment supplies the caller's identity and the
//! current time as plain values; the registry itself owns every rule about
//! which transitions are legal, who may trigger them, how scores accrue and
//! decay, and how the leading candidate is chosen.

pub mod appchain_basedata;
pub mod appchain_owner_actions;
pub mod registry;
pub mod registry_owner_actions;
pub mod sudo_actions;
pub mod types;
