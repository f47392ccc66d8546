//! Locking a round: fixing every stake's share of its pool, or, when one
//! side holds nothing, giving every stake back.

use vstd::prelude::*;
use crate::accounts::{
    Bet, BetWeight, BettingState, ContractPhase, ContractState, MatchData, MatchState, PoolRate,
    Rejection, Team, Transfer,
};
use crate::errors::ProgramError;
use crate::ledger::{
    lemma_fee_bounds, net_amount, rate_of, refund_of, refunds_of, weight_of, weights_of,
};
use crate::states::{credits, StateModel};

verus! {

/// The net amount of `bet`: what it adds to its pool.
pub fn net_of(bet: &Bet) -> (net: u64)
    ensures
        net == net_amount(*bet),
{
    proof {
        lemma_fee_bounds(*bet);
    }
    let gross: u128 = bet.amount as u128;
    let fee: u128 = if bet.referral.is_some() {
        gross * 35 / 1000
    } else {
        gross * 4 / 100
    };
    (gross - fee) as u64
}

/// The instruction that gives `bet` back in full, fees waived.
pub fn refund_bet(bet: &Bet) -> (refund: Transfer)
    ensures
        refund == refund_of(*bet),
{
    Transfer { recipient: bet.user, amount: bet.amount }
}

/// Why the round of `state` cannot be locked, if it cannot.
///
/// Only a round that is taking bets can be locked, and both sides must hold
/// something. A round with an empty side is refunded and a new one begun,
/// unless the round number has nowhere left to go.
pub open spec fn lock_rejection(state: StateModel) -> Option<ProgramError> {
    if state.phase != ContractPhase::Betting {
        Some(ProgramError::InvalidPhaseTransition)
    } else if state.total_red > 0 && state.total_blue > 0 {
        None
    } else if state.match_id == u64::MAX {
        Some(ProgramError::ArithmeticOverflow)
    } else {
        Some(ProgramError::EmptyPool)
    }
}

/// Why the round of `state` cannot be refunded, if it cannot.
///
/// Stakes are given back only from a round that is taking bets and has an
/// empty side.
pub open spec fn refund_rejection(state: StateModel) -> Option<ProgramError> {
    if state.phase != ContractPhase::Betting || (state.total_red > 0 && state.total_blue > 0) {
        Some(ProgramError::InvalidPhaseTransition)
    } else if state.match_id == u64::MAX {
        Some(ProgramError::ArithmeticOverflow)
    } else {
        None
    }
}

impl MatchState {
    /// Records the ratio of the red pool to the blue pool.
    ///
    /// With an empty pool there is no ratio; the call then fails with
    /// `EmptyPool` and records nothing.
    pub fn calculate_red_to_blue_rate(&mut self, betting_state: &BettingState) -> (r: Result<
        (),
        ProgramError,
    >)
        ensures
            betting_state.total_red == 0 || betting_state.total_blue == 0 ==> {
                &&& r == Err::<(), ProgramError>(ProgramError::EmptyPool)
                &&& *final(self) == *old(self)
            },
            betting_state.total_red > 0 && betting_state.total_blue > 0 ==> {
                &&& r == Ok::<(), ProgramError>(())
                &&& final(self).red_to_blue_rate == rate_of(
                    betting_state.total_red,
                    betting_state.total_blue,
                )
                &&& final(self).match_result == old(self).match_result
            },
    {
        if betting_state.total_red == 0 || betting_state.total_blue == 0 {
            return Err(ProgramError::EmptyPool);
        }
        self.red_to_blue_rate =
        PoolRate { red: betting_state.total_red, blue: betting_state.total_blue };
        Ok(())
    }

    /// Computes one weight per stake afresh, replacing whatever weights were
    /// there.
    ///
    /// With an empty pool a share has nothing to be a share of; the call
    /// then fails with `EmptyPool` and the weights stay as they were. No
    /// weight with a denominator of zero is ever stored.
    pub fn calculate_bet_weights(&self, betting_state: &mut BettingState) -> (r: Result<
        (),
        ProgramError,
    >)
        ensures
            old(betting_state).total_red == 0 || old(betting_state).total_blue == 0 ==> {
                &&& r == Err::<(), ProgramError>(ProgramError::EmptyPool)
                &&& *final(betting_state) == *old(betting_state)
            },
            old(betting_state).total_red > 0 && old(betting_state).total_blue > 0 ==> {
                &&& r == Ok::<(), ProgramError>(())
                &&& final(betting_state).bet_weights@ == weights_of(
                    old(betting_state).bets@,
                    old(betting_state).total_red,
                    old(betting_state).total_blue,
                )
                &&& final(betting_state).bets == old(betting_state).bets
                &&& final(betting_state).total_red == old(betting_state).total_red
                &&& final(betting_state).total_blue == old(betting_state).total_blue
            },
    {
        if betting_state.total_red == 0 || betting_state.total_blue == 0 {
            return Err(ProgramError::EmptyPool);
        }
        let total_red = betting_state.total_red;
        let total_blue = betting_state.total_blue;
        let mut weights: Vec<BetWeight> = Vec::new();
        let n = betting_state.bets.len();
        let mut i: usize = 0;
        while i < n
            invariant
                i <= n,
                n == betting_state.bets.len(),
                *betting_state == *old(betting_state),
                total_red == betting_state.total_red,
                total_blue == betting_state.total_blue,
                weights.len() == i,
                forall|k: int|
                    0 <= k < i ==> weights@[k] == weight_of(
                        betting_state.bets@[k],
                        total_red,
                        total_blue,
                    ),
            decreases n - i,
        {
            let bet = betting_state.bets[i];
            let pool_total = match bet.team {
                Team::Red => total_red,
                Team::Blue => total_blue,
            };
            weights.push(
                BetWeight { user: bet.user, team: bet.team, net_amount: net_of(&bet), pool_total },
            );
            i += 1;
        }
        assert(weights@ =~= weights_of(betting_state.bets@, total_red, total_blue));
        betting_state.bet_weights = weights;
        Ok(())
    }

    /// Fixes the shares: records the pool ratio and one weight per stake.
    ///
    /// With an empty side there is nothing to share in; the call then fails
    /// with `EmptyPool` and changes nothing.
    pub fn start_match(&mut self, betting_state: &mut BettingState) -> (r: Result<
        (),
        ProgramError,
    >)
        ensures
            old(betting_state).total_red == 0 || old(betting_state).total_blue == 0 ==> {
                &&& r == Err::<(), ProgramError>(ProgramError::EmptyPool)
                &&& *final(self) == *old(self)
                &&& *final(betting_state) == *old(betting_state)
            },
            old(betting_state).total_red > 0 && old(betting_state).total_blue > 0 ==> {
                &&& r == Ok::<(), ProgramError>(())
                &&& final(self).match_result == old(self).match_result
                &&& final(self).red_to_blue_rate == rate_of(
                    old(betting_state).total_red,
                    old(betting_state).total_blue,
                )
                &&& final(betting_state).bet_weights@ == weights_of(
                    old(betting_state).bets@,
                    old(betting_state).total_red,
                    old(betting_state).total_blue,
                )
                &&& final(betting_state).bets == old(betting_state).bets
                &&& final(betting_state).total_red == old(betting_state).total_red
                &&& final(betting_state).total_blue == old(betting_state).total_blue
            },
    {
        match self.calculate_red_to_blue_rate(betting_state) {
            Ok(()) => {},
            Err(e) => {
                return Err(e);
            },
        }
        self.calculate_bet_weights(betting_state)
    }
}

impl ContractState {
    /// Begins a new round: the oracle stays, the round number goes up by
    /// one, and stakes, weights, fees and the declared winner are cleared.
    pub(crate) fn reset(&mut self)
        requires
            old(self).current_match.match_id < u64::MAX,
        ensures
            final(self).wf(),
            final(self)@ == old(self)@.after_reset(),
    {
        let next = self.current_match.match_id + 1;
        self.current_match = MatchData::new(next);
        self.phase = ContractPhase::Betting;
        proof {
            assert(credits(self.current_match.financial_state.referral_fees@) =~= Map::empty());
        }
    }

    /// One refund per recorded stake, in the order the stakes were placed.
    pub fn refunds(&self) -> (out: Vec<Transfer>)
        ensures
            out@ == refunds_of(self@.bets),
    {
        let mut out: Vec<Transfer> = Vec::new();
        let n = self.current_match.betting_state.bets.len();
        let mut i: usize = 0;
        while i < n
            invariant
                i <= n,
                n == self.current_match.betting_state.bets.len(),
                out.len() == i,
                forall|k: int| 0 <= k < i ==> out@[k] == refund_of(self@.bets[k]),
            decreases n - i,
        {
            out.push(refund_bet(&self.current_match.betting_state.bets[i]));
            i += 1;
        }
        assert(out@ =~= refunds_of(self@.bets));
        out
    }

    /// Gives every stake of a round with an empty side back in full and
    /// begins a new round.
    ///
    /// The refunds come back as instructions, one per stake, for the caller
    /// to carry out. On an error nothing is changed.
    pub fn cancel_and_refund(&mut self) -> (r: Result<Vec<Transfer>, ProgramError>)
        requires
            old(self).wf(),
        ensures
            final(self).wf(),
            match r {
                Ok(refunds) => {
                    &&& refund_rejection(old(self)@) is None
                    &&& refunds@ == refunds_of(old(self)@.bets)
                    &&& final(self)@ == old(self)@.after_reset()
                },
                Err(e) => {
                    &&& refund_rejection(old(self)@) == Some(e)
                    &&& *final(self) == *old(self)
                },
            },
    {
        match self.phase {
            ContractPhase::Betting => {},
            _ => {
                return Err(ProgramError::InvalidPhaseTransition);
            },
        }
        if self.current_match.betting_state.total_red > 0
            && self.current_match.betting_state.total_blue > 0 {
            return Err(ProgramError::InvalidPhaseTransition);
        }
        if self.current_match.match_id == u64::MAX {
            return Err(ProgramError::ArithmeticOverflow);
        }
        let refunds = self.refunds();
        self.reset();
        Ok(refunds)
    }

    /// Locks the round.
    ///
    /// With something staked on both sides the shares are fixed and the
    /// match phase begins. With an empty side the call fails with
    /// `EmptyPool`, every stake is refunded in full, and a new round begins
    /// in the betting phase. On every other error nothing is changed and
    /// nothing is refunded.
    pub fn start_match(&mut self) -> (r: Result<(), Rejection>)
        requires
            old(self).wf(),
        ensures
            final(self).wf(),
            match r {
                Ok(()) => {
                    &&& lock_rejection(old(self)@) is None
                    &&& final(self)@ == old(self)@.after_lock()
                },
                Err(rejection) => {
                    &&& lock_rejection(old(self)@) == Some(rejection.kind)
                    &&& rejection.kind == ProgramError::EmptyPool ==> {
                        &&& rejection.refunds@ == refunds_of(old(self)@.bets)
                        &&& final(self)@ == old(self)@.after_reset()
                    }
                    &&& rejection.kind != ProgramError::EmptyPool ==> {
                        &&& rejection.refunds@.len() == 0
                        &&& *final(self) == *old(self)
                    }
                },
            },
    {
        match self.phase {
            ContractPhase::Betting => {},
            _ => {
                return Err(
                    Rejection { kind: ProgramError::InvalidPhaseTransition, refunds: Vec::new() },
                );
            },
        }
        if self.current_match.betting_state.total_red == 0
            || self.current_match.betting_state.total_blue == 0 {
            return match self.cancel_and_refund() {
                Ok(refunds) => Err(Rejection { kind: ProgramError::EmptyPool, refunds }),
                Err(kind) => Err(Rejection { kind, refunds: Vec::new() }),
            };
        }
        match self.current_match.match_state.start_match(&mut self.current_match.betting_state) {
            Ok(()) => {
                self.phase = ContractPhase::Match;
                Ok(())
            },
            Err(kind) => Err(Rejection { kind, refunds: Vec::new() }),
        }
    }
}

} // verus!
