//! A minimal append-mostly ledger for polls, candidates, and vote tallies.
//!
//! Records are located through deterministic addresses derived from
//! caller-supplied keys, created exactly once, and mutated only through a
//! monotonic counter increment. The host that funds, authenticates and
//! persists the records is an external collaborator; this crate holds the
//! key-derivation and state-transition discipline itself.

pub mod address;
pub mod errors;
pub mod laws;
pub mod ledger;
pub mod records;
