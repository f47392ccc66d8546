//! Bringing a contract into being.

use vstd::prelude::*;
use crate::accounts::{
    BettingState, ContractPhase, ContractState, FinancialState, MatchData, MatchState, PoolRate,
};
use crate::identity::Identity;
use crate::states::{credits, fresh};

verus! {

impl BettingState {
    /// A ledger with no stakes.
    pub fn new() -> (s: BettingState)
        ensures
            s.bets@ == Seq::<crate::accounts::Bet>::empty(),
            s.bet_weights@ == Seq::<crate::accounts::BetWeight>::empty(),
            s.total_red == 0,
            s.total_blue == 0,
    {
        BettingState { bets: Vec::new(), bet_weights: Vec::new(), total_red: 0, total_blue: 0 }
    }
}

impl MatchState {
    /// No winner declared, and the unit ratio.
    pub fn new() -> (s: MatchState)
        ensures
            s == (MatchState { match_result: None, red_to_blue_rate: PoolRate { red: 1, blue: 1 } }),
    {
        MatchState { match_result: None, red_to_blue_rate: PoolRate { red: 1, blue: 1 } }
    }
}

impl FinancialState {
    /// No fees taken.
    pub fn new() -> (s: FinancialState)
        ensures
            s.house_fee == 0,
            s.referral_fees@ == Seq::<crate::accounts::ReferralCredit>::empty(),
    {
        FinancialState { house_fee: 0, referral_fees: Vec::new() }
    }
}

impl MatchData {
    /// An empty round with the number `match_id`.
    pub fn new(match_id: u64) -> (m: MatchData)
        ensures
            m.match_id == match_id,
            m.betting_state.bets@ == Seq::<crate::accounts::Bet>::empty(),
            m.betting_state.bet_weights@ == Seq::<crate::accounts::BetWeight>::empty(),
            m.betting_state.total_red == 0,
            m.betting_state.total_blue == 0,
            m.match_state == (MatchState {
                match_result: None,
                red_to_blue_rate: PoolRate { red: 1, blue: 1 },
            }),
            m.financial_state.house_fee == 0,
            m.financial_state.referral_fees@ == Seq::<crate::accounts::ReferralCredit>::empty(),
    {
        MatchData {
            match_id,
            betting_state: BettingState::new(),
            match_state: MatchState::new(),
            financial_state: FinancialState::new(),
        }
    }
}

impl ContractState {
    /// A freshly deployed contract: betting is open, nothing is staked, and
    /// no oracle is configured yet.
    pub fn new() -> (s: ContractState)
        ensures
            s.wf(),
            s@ == fresh(),
    {
        let s = ContractState {
            phase: ContractPhase::Betting,
            oracle: Identity::zero(),
            initialized: false,
            current_match: MatchData::new(0),
        };
        proof {
            assert(credits(s.current_match.financial_state.referral_fees@) =~= Map::empty());
        }
        s
    }

    /// A freshly deployed contract with `oracle` configured as the trusted
    /// oracle.
    pub fn initialize(oracle: Identity) -> (s: ContractState)
        ensures
            s.wf(),
            s@ == fresh().after_initialize(oracle),
    {
        let mut s = ContractState::new();
        s.oracle = oracle;
        s.initialized = true;
        s
    }
}

} // verus!
