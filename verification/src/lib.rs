//! A minimal persistent-state manager for a ledger of proposals.
//!
//! The crate is layered, leaf first:
//! - [`codec`]: a deterministic binary codec for the stored record types;
//! - [`store`]: a flat byte-keyed store with get/set/maybe-get;
//! - [`state`]: the record types, the singleton config slot and the keyed
//!   record helpers built on the codec;
//! - [`contract`]: the lifecycle logic — monotonic proposal-id allocation,
//!   owner-gated message mutation, and point queries;
//! - [`laws`]: proved statements that tie the pieces together.

pub mod codec;
pub mod contract;
pub mod error;
pub mod laws;
pub mod msg;
pub mod state;
pub mod store;
