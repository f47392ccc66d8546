//! The records the ledger keeps.

use vstd::prelude::*;
use crate::errors::ProgramError;
use crate::identity::Identity;

verus! {

/// The two outcomes a stake can back.
#[derive(Clone, Copy, Debug, PartialEq, Eq, Structural)]
pub enum Team {
    Red,
    Blue,
}

/// Where the contract stands in a round.
#[derive(Clone, Copy, Debug, PartialEq, Eq, Structural)]
pub enum ContractPhase {
    Betting,
    Match,
    Result,
}

/// One stake, as the bettor offered it. `amount` is the gross amount, before
/// fees.
#[derive(Clone, Copy, Debug, PartialEq, Eq)]
pub struct Bet {
    pub user: Identity,
    pub team: Team,
    pub amount: u64,
    pub referral: Option<Identity>,
}

/// A stake's share of its own side's pool, kept as the exact fraction
/// `net_amount / pool_total`.
#[derive(Clone, Copy, Debug, PartialEq, Eq)]
pub struct BetWeight {
    pub user: Identity,
    pub team: Team,
    pub net_amount: u64,
    pub pool_total: u64,
}

/// The ratio of the red pool to the blue pool, kept as the exact fraction
/// `red / blue`. It informs; nothing is computed from it.
#[derive(Clone, Copy, Debug, PartialEq, Eq)]
pub struct PoolRate {
    pub red: u64,
    pub blue: u64,
}

/// An instruction to move `amount` to `recipient`.
#[derive(Clone, Copy, Debug, PartialEq, Eq)]
pub struct Transfer {
    pub recipient: Identity,
    pub amount: u64,
}

} // verus!

verus! {

/// What one referrer has been credited in the current round.
#[derive(Clone, Copy, Debug, PartialEq, Eq)]
pub struct ReferralCredit {
    pub referrer: Identity,
    pub amount: u64,
}

/// What a bettor is told when a stake is accepted.
#[derive(Clone, Copy, Debug, PartialEq, Eq)]
pub struct StakeReceipt {
    pub house_fee: u64,
    pub referral_fee: u64,
    pub net_amount: u64,
    pub total_red: u64,
    pub total_blue: u64,
}

/// The stakes of the current round and the running totals of the two pools.
#[derive(Clone, Debug, PartialEq, Eq)]
pub struct BettingState {
    pub bets: Vec<Bet>,
    pub bet_weights: Vec<BetWeight>,
    pub total_red: u64,
    pub total_blue: u64,
}

/// The declared winner, once there is one, and the pool ratio at lock time.
#[derive(Clone, Copy, Debug, PartialEq, Eq)]
pub struct MatchState {
    pub match_result: Option<Team>,
    pub red_to_blue_rate: PoolRate,
}

/// The fees taken in the current round. No referrer is listed twice.
#[derive(Clone, Debug, PartialEq, Eq)]
pub struct FinancialState {
    pub house_fee: u64,
    pub referral_fees: Vec<ReferralCredit>,
}

/// One round: its number, its stakes, its result and its fees.
#[derive(Clone, Debug, PartialEq, Eq)]
pub struct MatchData {
    pub match_id: u64,
    pub betting_state: BettingState,
    pub match_state: MatchState,
    pub financial_state: FinancialState,
}

/// The whole contract: the phase, the trusted oracle and the round in
/// progress. There is exactly one round at a time.
#[derive(Clone, Debug, PartialEq, Eq)]
pub struct ContractState {
    pub phase: ContractPhase,
    pub oracle: Identity,
    pub initialized: bool,
    pub current_match: MatchData,
}

/// What happened to a batch of transfers: those that went through, and those
/// whose recipient could not be reached and which are still owed.
#[derive(Clone, Debug, PartialEq, Eq)]
pub struct TransferReport {
    pub completed: Vec<Transfer>,
    pub pending: Vec<Transfer>,
}

/// A refused phase change. When a lock is refused because one side of the
/// pool is empty, `refunds` holds what every bettor gets back; otherwise it
/// is empty.
#[derive(Clone, Debug, PartialEq, Eq)]
pub struct Rejection {
    pub kind: ProgramError,
    pub refunds: Vec<Transfer>,
}

} // verus!
