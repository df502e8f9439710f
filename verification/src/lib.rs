//! Confidential majority voting: a poll ledger that enforces timing windows,
//! authority checks and one-vote-per-voter, a tally circuit that works only on
//! sealed values, and a one-shot request/callback bridge between the two.

pub mod bridge;
pub mod circuit;
pub mod envelope;
pub mod poll;
