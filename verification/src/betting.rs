//! Taking stakes.

use vstd::prelude::*;
use crate::accounts::{
    Bet, ContractPhase, ContractState, FinancialState, ReferralCredit, StakeReceipt, Team,
};
use crate::errors::ProgramError;
use crate::fees::{calculate_fees, fee_overflows};
use crate::identity::Identity;
use crate::ledger::{
    held_for, house_cut, lemma_fee_bounds, lemma_referral_within_house, net_amount, referral_cut,
};
use crate::states::{
    credits, distinct_referrers, lemma_credit_appended, lemma_credit_in_place,
    lemma_slot_is_unique, listed, StateModel,
};

verus! {

/// Why `bet` cannot be recorded in `state`, if it cannot.
///
/// Stakes are taken only while betting is open, and a stake must be
/// positive. Beyond that the only obstacle is size: the fee multiplication,
/// the two pools together and the house's total must each fit in 64 bits.
pub open spec fn stake_rejection(state: StateModel, bet: Bet) -> Option<ProgramError> {
    if state.phase != ContractPhase::Betting {
        Some(ProgramError::PhaseViolation)
    } else if bet.amount == 0 {
        Some(ProgramError::InvalidAmount)
    } else if fee_overflows(bet.amount as int, bet.referral is Some) {
        Some(ProgramError::ArithmeticOverflow)
    } else if state.total_red + state.total_blue + net_amount(bet) > u64::MAX {
        Some(ProgramError::ArithmeticOverflow)
    } else if state.house_fee + house_cut(bet) > u64::MAX {
        Some(ProgramError::ArithmeticOverflow)
    } else {
        None
    }
}

/// The receipt for `bet`, recorded in `state`.
pub open spec fn receipt_of(state: StateModel, bet: Bet) -> StakeReceipt {
    StakeReceipt {
        house_fee: house_cut(bet) as u64,
        referral_fee: referral_cut(bet) as u64,
        net_amount: net_amount(bet) as u64,
        total_red: state.after_stake(bet).total_red,
        total_blue: state.after_stake(bet).total_blue,
    }
}

impl FinancialState {
    /// Adds `fee` to what `who` has been credited in this round.
    pub(crate) fn credit(&mut self, who: Identity, fee: u64)
        requires
            distinct_referrers(old(self).referral_fees@),
            held_for(credits(old(self).referral_fees@), who) + fee <= u64::MAX,
        ensures
            distinct_referrers(final(self).referral_fees@),
            final(self).house_fee == old(self).house_fee,
            credits(final(self).referral_fees@) == credits(old(self).referral_fees@).insert(
                who,
                fee + held_for(credits(old(self).referral_fees@), who),
            ),
    {
        let n = self.referral_fees.len();
        let mut i: usize = 0;
        while i < n
            invariant
                i <= n,
                n == self.referral_fees.len(),
                *self == *old(self),
                distinct_referrers(self.referral_fees@),
                held_for(credits(self.referral_fees@), who) + fee <= u64::MAX,
                forall|k: int| 0 <= k < i ==> (#[trigger] self.referral_fees@[k]).referrer != who,
            decreases n - i,
        {
            if self.referral_fees[i].referrer.same(&who) {
                let held = self.referral_fees[i].amount;
                proof {
                    lemma_slot_is_unique(self.referral_fees@, i as int);
                    lemma_credit_in_place(self.referral_fees@, i as int, fee as int);
                }
                self.referral_fees.set(i, ReferralCredit { referrer: who, amount: held + fee });
                return ;
            }
            i += 1;
        }
        proof {
            assert(!listed(self.referral_fees@, who));
            lemma_credit_appended(self.referral_fees@, who, fee);
        }
        self.referral_fees.push(ReferralCredit { referrer: who, amount: fee });
    }
}

impl ContractState {
    /// Checks that `bet` may be offered at all: betting is open and the
    /// amount is positive.
    pub fn validate_bet(&self, bet: &Bet) -> (r: Result<(), ProgramError>)
        ensures
            self.phase != ContractPhase::Betting ==> r == Err::<(), ProgramError>(
                ProgramError::PhaseViolation,
            ),
            self.phase == ContractPhase::Betting && bet.amount == 0 ==> r == Err::<
                (),
                ProgramError,
            >(ProgramError::InvalidAmount),
            self.phase == ContractPhase::Betting && bet.amount > 0 ==> r == Ok::<(), ProgramError>(
                (),
            ),
    {
        match self.phase {
            ContractPhase::Betting => {
                if bet.amount == 0 {
                    Err(ProgramError::InvalidAmount)
                } else {
                    Ok(())
                }
            },
            _ => Err(ProgramError::PhaseViolation),
        }
    }

    /// Records `bet`: the house fee goes to the house's total, the referral
    /// fee to the referrer's credit, and the rest to the pool of the team
    /// that was backed.
    ///
    /// A stake is either recorded in full or not at all: on every error the
    /// state is what it was.
    pub fn place_bet(&mut self, bet: Bet) -> (r: Result<StakeReceipt, ProgramError>)
        requires
            old(self).wf(),
        ensures
            final(self).wf(),
            match r {
                Ok(receipt) => {
                    &&& stake_rejection(old(self)@, bet) is None
                    &&& final(self)@ == old(self)@.after_stake(bet)
                    &&& receipt == receipt_of(old(self)@, bet)
                },
                Err(e) => {
                    &&& stake_rejection(old(self)@, bet) == Some(e)
                    &&& *final(self) == *old(self)
                },
            },
    {
        match self.validate_bet(&bet) {
            Err(e) => {
                return Err(e);
            },
            Ok(()) => {},
        }
        let (house_fee, referral_fee) = match calculate_fees(bet.amount, bet.referral.is_some()) {
            Ok(fees) => fees,
            Err(e) => {
                return Err(e);
            },
        };
        proof {
            lemma_fee_bounds(bet);
        }
        let net: u64 = bet.amount - house_fee;
        let total_red: u64 = self.current_match.betting_state.total_red;
        let total_blue: u64 = self.current_match.betting_state.total_blue;
        if net > u64::MAX - total_red - total_blue {
            return Err(ProgramError::ArithmeticOverflow);
        }
        let house_total: u64 = match self.current_match.financial_state.house_fee.checked_add(
            house_fee,
        ) {
            Some(total) => total,
            None => {
                return Err(ProgramError::ArithmeticOverflow);
            },
        };
        match bet.team {
            Team::Red => {
                self.current_match.betting_state.total_red = total_red + net;
            },
            Team::Blue => {
                self.current_match.betting_state.total_blue = total_blue + net;
            },
        }
        self.current_match.financial_state.house_fee = house_total;
        match bet.referral {
            Some(who) => {
                proof {
                    lemma_referral_within_house(old(self)@.bets, who);
                }
                self.current_match.financial_state.credit(who, referral_fee);
            },
            None => {},
        }
        self.current_match.betting_state.bets.push(bet);
        proof {
            let before = old(self)@;
            let after = self@;
            assert(after.bets.drop_last() == before.bets);
            assert(after.bets.last() == bet);
            assert(after.referral_fees == crate::ledger::credit_referrer(before.referral_fees, bet));
            assert(after == before.after_stake(bet));
        }
        Ok(
            StakeReceipt {
                house_fee,
                referral_fee,
                net_amount: net,
                total_red: self.current_match.betting_state.total_red,
                total_blue: self.current_match.betting_state.total_blue,
            },
        )
    }
}

} // verus!
