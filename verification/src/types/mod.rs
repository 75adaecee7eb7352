//! Common types.
pub mod address;
pub mod cbor;
pub mod proposal;
pub mod role;
pub mod token;
pub mod vote;
