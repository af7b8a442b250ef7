//! A small on-ledger governance core: participants create proposals, cast at
//! most one vote each per proposal, and receive a fixed token reward per
//! accepted vote, paid from a vault controlled by a seed-derived authority.
//!
//! The crate verifies the proposal/voting/reward state machine: exactly-once
//! semantics per action, atomic coupling of each tally update with its reward
//! transfer, and sequential collision-free proposal ids. The surrounding
//! ledger (persistent keyed storage, the token primitive, and signature
//! checking) is a collaborator outside this core; the core works on the plain
//! values those collaborators hand it.

pub mod errors;
pub mod laws;
pub mod model;
pub mod state;
