//! A ledger-backed, weighted, delegated-voting ballot.
//!
//! Accounts are granted voting weight by a chairperson, may delegate that
//! weight along a chain to another account, or cast it directly for one of a
//! fixed list of proposals. The ballot resolves delegation chains to their
//! terminal delegate (with cycle detection), accumulates weight on proposals,
//! and exposes the first proposal holding the highest tally.
//!
//! The host environment is expected to supply caller identity and to keep the
//! ballot state between calls; every operation here is a pure state
//! transition from plain values to plain values.

pub mod contract;
pub mod laws;
pub mod resolve;
pub mod roster;
pub mod sums;
pub mod types;
