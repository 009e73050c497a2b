//! A single-proposal voting engine.
//!
//! The library is the deterministic core of a ledger-hosted voting process:
//! one proposal, a fixed candidate list, one vote per identity, and a tally
//! table keyed by candidate. Every operation is a pure transition over the
//! owned [`state::State`] and [`state::Tallies`] values; the surrounding host
//! performs storage, serialization and dispatch and hands plain values in.

pub mod contract;
pub mod error;
pub mod laws;
pub mod msg;
pub mod state;
