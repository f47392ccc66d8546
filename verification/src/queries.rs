//! Looking at a contract without changing it.

use vstd::prelude::*;
use crate::accounts::{Bet, BetWeight, ContractPhase, ContractState, Team};
use crate::identity::Identity;
use crate::ledger::held_for;
use crate::states::{distinct_referrers, lemma_slot_is_unique, listed};

verus! {

/// The stakes of `bets` that `who` placed, in the order they were placed.
pub open spec fn stakes_by(bets: Seq<Bet>, who: Identity) -> Seq<Bet>
    decreases bets.len(),
{
    if bets.len() == 0 {
        Seq::empty()
    } else if bets.last().user == who {
        stakes_by(bets.drop_last(), who).push(bets.last())
    } else {
        stakes_by(bets.drop_last(), who)
    }
}

impl ContractState {
    /// The phase the contract is in.
    pub fn phase(&self) -> (phase: ContractPhase)
        ensures
            phase == self@.phase,
    {
        self.phase
    }

    /// The number of the round in progress.
    pub fn match_id(&self) -> (id: u64)
        ensures
            id == self@.match_id,
    {
        self.current_match.match_id
    }

    /// The pool of `team`.
    pub fn pool_total(&self, team: Team) -> (total: u64)
        ensures
            total == self@.pool(team),
    {
        match team {
            Team::Red => self.current_match.betting_state.total_red,
            Team::Blue => self.current_match.betting_state.total_blue,
        }
    }

    /// What the house has taken in this round.
    pub fn house_fee(&self) -> (fee: u64)
        ensures
            fee == self@.house_fee,
    {
        self.current_match.financial_state.house_fee
    }

    /// What `who` has been credited for referrals in this round; zero for
    /// somebody who referred nobody.
    pub fn referral_fee(&self, who: &Identity) -> (fee: u64)
        requires
            distinct_referrers(self.current_match.financial_state.referral_fees@),
        ensures
            fee == held_for(self@.referral_fees, *who),
    {
        let entries = &self.current_match.financial_state.referral_fees;
        let n = entries.len();
        let mut i: usize = 0;
        while i < n
            invariant
                i <= n,
                n == entries.len(),
                entries@ == self.current_match.financial_state.referral_fees@,
                distinct_referrers(entries@),
                forall|k: int| 0 <= k < i ==> (#[trigger] entries@[k]).referrer != *who,
            decreases n - i,
        {
            if entries[i].referrer.same(who) {
                proof {
                    lemma_slot_is_unique(entries@, i as int);
                }
                return entries[i].amount;
            }
            i += 1;
        }
        assert(!listed(entries@, *who));
        0
    }

    /// The stakes that `who` placed in this round, in the order they were
    /// placed.
    pub fn stakes_of(&self, who: &Identity) -> (stakes: Vec<Bet>)
        ensures
            stakes@ == stakes_by(self@.bets, *who),
    {
        let bets = &self.current_match.betting_state.bets;
        let mut stakes: Vec<Bet> = Vec::new();
        let n = bets.len();
        let mut i: usize = 0;
        while i < n
            invariant
                i <= n,
                n == bets.len(),
                bets@ == self@.bets,
                stakes@ == stakes_by(bets@.take(i as int), *who),
            decreases n - i,
        {
            proof {
                let longer = bets@.take(i + 1);
                assert(longer.drop_last() == bets@.take(i as int));
                assert(longer.last() == bets@[i as int]);
            }
            if bets[i].user.same(who) {
                stakes.push(bets[i]);
            }
            i += 1;
        }
        assert(bets@.take(n as int) == bets@);
        stakes
    }

    /// The weights fixed when the round was locked; none before that.
    pub fn weights(&self) -> (weights: &Vec<BetWeight>)
        ensures
            weights@ == self@.bet_weights,
    {
        &self.current_match.betting_state.bet_weights
    }

    /// The declared winner, once there is one.
    pub fn declared_outcome(&self) -> (winner: Option<Team>)
        ensures
            winner == self@.match_result,
    {
        self.current_match.match_state.match_result
    }
}

} // verus!
