//! Verified core of an Oasis-style runtime: addresses, roles and votes, the
//! accounts module with its proposal governance, execution-context values and
//! message slots, and the pure parts of the EVM module.
pub mod keyed;
pub mod types;
pub mod modules;
pub mod context;
