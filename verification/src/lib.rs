//! On-chain registries: an agent directory with capability and pricing
//! profiles, and exercise leaderboards with cumulative per-user scores.
//!
//! Records are located by deterministic address derivation (a keyed hash over
//! a namespace tag and identifying keys), stored in a per-address record
//! store with first-write-initializes semantics, and mutated by operations
//! that check the caller against the record's stored authority.

pub mod ident;
pub mod agent;
pub mod leaderboard;
pub mod pda;
pub mod pullups;
pub mod store;
pub mod tally;
