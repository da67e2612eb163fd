//! Verified core of a shielded deposit pool with confidential batch settlement.
//!
//! * [`field`] — byte strings read as elements of the BN254 scalar field.
//! * [`poseidon`] — the two-input Poseidon hash that pairs tree nodes.
//! * [`merkle`] — the root of the fixed-depth commitment tree.
//! * [`batch`] — the lifecycle of a batch of orders.
//! * [`confidential`] — sealed values, batch statistics and pro-rata shares.
//! * [`privacy_pool`] — the commitment accumulator and the nullifier set.
pub mod batch;
pub mod confidential;
pub mod field;
pub mod merkle;
pub mod poseidon;
pub mod privacy_pool;
