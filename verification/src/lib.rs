//! A pari-mutuel, phase-gated wagering ledger.
//!
//! Bettors stake on one of two teams while the contract is in its betting
//! phase. Locking the round fixes every stake's share of its pool, a trusted
//! oracle then reports the winner, and settlement splits the whole pool among
//! the winning stakes. Value is never moved here: every operation that owes
//! somebody money returns a list of transfer intents for the caller to carry
//! out.

pub mod identity;
pub mod errors;
pub mod accounts;
pub mod fees;
pub mod ledger;
pub mod states;
pub mod init;
pub mod betting;
pub mod matchs;
pub mod payouts;
pub mod address;
pub mod oracle;
pub mod program;
pub mod queries;
pub mod audit;
pub mod laws;
pub mod wager;
