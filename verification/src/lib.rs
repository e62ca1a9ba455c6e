//! A verified ledger for a carbon-credit marketplace: keyed record stores
//! sharing one monotonic identifier allocator, CRUD services over projects,
//! credits, listings and users, and an atomic purchase transaction with
//! unconditional rollback on every failure branch.
pub mod laws;
pub mod ledger;
pub mod records;
pub mod store;
