//! Settling a round: paying the winners out of the whole pool, and keeping
//! track of transfers that could not be delivered.
//!
//! A winning stake is paid `net * total_pool / winner_pool`, rounded down.
//! Rounding down is the policy: what the division leaves over stays with the
//! house, so the payouts of a round never add up to more than its pool.

use vstd::prelude::*;
use crate::accounts::{
    BettingState, ContractPhase, ContractState, FinancialState, MatchState, Team, Transfer,
    TransferReport,
};
use crate::errors::ProgramError;
use crate::identity::Identity;
use crate::ledger::{lemma_pool_sum_bounds, net_amount, payouts_of, pool_sum};
use crate::matchs::net_of;
use crate::states::StateModel;

verus! {

/// Why the round of `state` cannot be settled, if it cannot.
pub open spec fn settle_rejection(state: StateModel) -> Option<ProgramError> {
    if state.phase != ContractPhase::Result {
        Some(ProgramError::InvalidPhaseTransition)
    } else if state.match_result is None {
        Some(ProgramError::NoWinnerSet)
    } else if state.match_id == u64::MAX {
        Some(ProgramError::ArithmeticOverflow)
    } else {
        None
    }
}

/// The payouts that settling `state` owes.
pub open spec fn payouts_due(state: StateModel) -> Seq<Transfer> {
    payouts_of(
        state.bets,
        state.match_result->Some_0,
        state.total_pool(),
        state.pool(state.match_result->Some_0) as int,
    )
}

/// The transfers of `intents` whose recipient is among `available`, in
/// order.
pub open spec fn deliverable(intents: Seq<Transfer>, available: Seq<Identity>) -> Seq<Transfer>
    decreases intents.len(),
{
    if intents.len() == 0 {
        Seq::empty()
    } else if available.contains(intents.last().recipient) {
        deliverable(intents.drop_last(), available).push(intents.last())
    } else {
        deliverable(intents.drop_last(), available)
    }
}

/// The transfers of `intents` whose recipient is not among `available`, in
/// order.
pub open spec fn undeliverable(intents: Seq<Transfer>, available: Seq<Identity>) -> Seq<Transfer>
    decreases intents.len(),
{
    if intents.len() == 0 {
        Seq::empty()
    } else if available.contains(intents.last().recipient) {
        undeliverable(intents.drop_last(), available)
    } else {
        undeliverable(intents.drop_last(), available).push(intents.last())
    }
}

/// A winning stake is never paid more than the whole pool.
pub proof fn lemma_payout_within_pool(net: int, total_pool: int, winner_pool: int)
    requires
        0 <= net <= winner_pool,
        0 < winner_pool,
        0 <= total_pool,
    ensures
        0 <= net * total_pool / winner_pool <= total_pool,
        (net * total_pool / winner_pool) * winner_pool <= net * total_pool,
{
    assert(0 <= net * total_pool <= winner_pool * total_pool) by (nonlinear_arith)
        requires
            0 <= net <= winner_pool,
            0 <= total_pool,
    ;
    vstd::arithmetic::div_mod::lemma_div_is_ordered(
        net * total_pool,
        winner_pool * total_pool,
        winner_pool,
    );
    vstd::arithmetic::div_mod::lemma_div_multiples_vanish(total_pool, winner_pool);
    vstd::arithmetic::mul::lemma_mul_is_commutative(winner_pool, total_pool);
    vstd::arithmetic::div_mod::lemma_div_pos_is_pos(net * total_pool, winner_pool);
    vstd::arithmetic::div_mod::lemma_fundamental_div_mod(net * total_pool, winner_pool);
    vstd::arithmetic::div_mod::lemma_mod_bound(net * total_pool, winner_pool);
    vstd::arithmetic::mul::lemma_mul_is_commutative(
        winner_pool,
        net * total_pool / winner_pool,
    );
}

/// Whether `who` is among `available`.
pub fn is_available(who: &Identity, available: &Vec<Identity>) -> (found: bool)
    ensures
        found == available@.contains(*who),
{
    let n = available.len();
    let mut i: usize = 0;
    while i < n
        invariant
            i <= n,
            n == available.len(),
            forall|k: int| 0 <= k < i ==> available@[k] != *who,
        decreases n - i,
    {
        if available[i].same(who) {
            return true;
        }
        i += 1;
    }
    false
}

/// Decides one transfer: it goes through when its recipient can be reached,
/// and is reported as `TransferUnavailable` otherwise.
pub fn process_payout(intent: &Transfer, available: &Vec<Identity>) -> (r: Result<
    Transfer,
    ProgramError,
>)
    ensures
        available@.contains(intent.recipient) ==> r == Ok::<Transfer, ProgramError>(*intent),
        !available@.contains(intent.recipient) ==> r == Err::<Transfer, ProgramError>(
            ProgramError::TransferUnavailable,
        ),
{
    if is_available(&intent.recipient, available) {
        Ok(*intent)
    } else {
        Err(ProgramError::TransferUnavailable)
    }
}

/// Decides a batch of transfers one by one. A recipient that cannot be
/// reached holds up nobody else: that transfer is listed as pending, with
/// its amount, and can be offered again later.
pub fn process_transfers(intents: &Vec<Transfer>, available: &Vec<Identity>) -> (report:
    TransferReport)
    ensures
        report.completed@ == deliverable(intents@, available@),
        report.pending@ == undeliverable(intents@, available@),
{
    let mut completed: Vec<Transfer> = Vec::new();
    let mut pending: Vec<Transfer> = Vec::new();
    let n = intents.len();
    let mut i: usize = 0;
    while i < n
        invariant
            i <= n,
            n == intents.len(),
            completed@ == deliverable(intents@.take(i as int), available@),
            pending@ == undeliverable(intents@.take(i as int), available@),
        decreases n - i,
    {
        proof {
            let longer = intents@.take(i + 1);
            assert(longer.drop_last() == intents@.take(i as int));
            assert(longer.last() == intents@[i as int]);
        }
        match process_payout(&intents[i], available) {
            Ok(transfer) => {
                completed.push(transfer);
            },
            Err(_) => {
                pending.push(intents[i]);
            },
        }
        i += 1;
    }
    proof {
        assert(intents@.take(n as int) == intents@);
    }
    TransferReport { completed, pending }
}

impl FinancialState {
    /// Computes what each stake on the declared winner is paid, in the order
    /// the stakes were placed. Stakes on the other side are paid nothing.
    ///
    /// Fails with `NoWinnerSet` when no winner has been declared, and with
    /// `EmptyPool` when nothing was staked on the winner.
    pub fn distribute_payouts(betting_state: &BettingState, match_state: &MatchState) -> (r:
        Result<Vec<Transfer>, ProgramError>)
        requires
            betting_state.total_red == pool_sum(betting_state.bets@, Team::Red),
            betting_state.total_blue == pool_sum(betting_state.bets@, Team::Blue),
            betting_state.total_red + betting_state.total_blue <= u64::MAX,
        ensures
            match match_state.match_result {
                None => r == Err::<Vec<Transfer>, ProgramError>(ProgramError::NoWinnerSet),
                Some(winner) => {
                    let winner_pool = match winner {
                        Team::Red => betting_state.total_red,
                        Team::Blue => betting_state.total_blue,
                    };
                    if winner_pool == 0 {
                        r == Err::<Vec<Transfer>, ProgramError>(ProgramError::EmptyPool)
                    } else {
                        &&& r is Ok
                        &&& r->Ok_0@ == payouts_of(
                            betting_state.bets@,
                            winner,
                            betting_state.total_red + betting_state.total_blue,
                            winner_pool as int,
                        )
                    }
                },
            },
    {
        let winner = match match_state.match_result {
            Some(winner) => winner,
            None => {
                return Err(ProgramError::NoWinnerSet);
            },
        };
        let winner_pool: u64 = match winner {
            Team::Red => betting_state.total_red,
            Team::Blue => betting_state.total_blue,
        };
        if winner_pool == 0 {
            return Err(ProgramError::EmptyPool);
        }
        let total_pool: u64 = betting_state.total_red + betting_state.total_blue;
        let mut out: Vec<Transfer> = Vec::new();
        let n = betting_state.bets.len();
        let mut i: usize = 0;
        while i < n
            invariant
                i <= n,
                n == betting_state.bets.len(),
                0 < winner_pool,
                winner_pool == pool_sum(betting_state.bets@, winner),
                out@ == payouts_of(
                    betting_state.bets@.take(i as int),
                    winner,
                    total_pool as int,
                    winner_pool as int,
                ),
            decreases n - i,
        {
            let bet = betting_state.bets[i];
            proof {
                let longer = betting_state.bets@.take(i + 1);
                assert(longer.drop_last() == betting_state.bets@.take(i as int));
                assert(longer.last() == bet);
            }
            let same_side = match (bet.team, winner) {
                (Team::Red, Team::Red) => true,
                (Team::Blue, Team::Blue) => true,
                _ => false,
            };
            if same_side {
                let net = net_of(&bet);
                proof {
                    lemma_pool_sum_bounds(betting_state.bets@, winner);
                    assert(net_amount(betting_state.bets@[i as int]) <= winner_pool);
                    lemma_payout_within_pool(net as int, total_pool as int, winner_pool as int);
                    assert(net * total_pool <= 0xffff_ffff_ffff_ffff * 0xffff_ffff_ffff_ffff)
                        by (nonlinear_arith)
                        requires
                            0 <= net <= 0xffff_ffff_ffff_ffff,
                            0 <= total_pool <= 0xffff_ffff_ffff_ffff,
                    ;
                }
                let amount: u128 = (net as u128) * (total_pool as u128) / (winner_pool as u128);
                out.push(Transfer { recipient: bet.user, amount: amount as u64 });
            }
            i += 1;
        }
        proof {
            assert(betting_state.bets@.take(n as int) == betting_state.bets@);
        }
        Ok(out)
    }
}

impl ContractState {
    /// Settles the round: computes the payouts of the winning stakes and
    /// begins a new round in the betting phase.
    ///
    /// The payouts come back as instructions for the caller to carry out. On
    /// an error nothing is changed.
    pub fn distribute_payouts(&mut self) -> (r: Result<Vec<Transfer>, ProgramError>)
        requires
            old(self).wf(),
        ensures
            final(self).wf(),
            match r {
                Ok(payouts) => {
                    &&& settle_rejection(old(self)@) is None
                    &&& payouts@ == payouts_due(old(self)@)
                    &&& final(self)@ == old(self)@.after_reset()
                },
                Err(e) => {
                    &&& settle_rejection(old(self)@) == Some(e)
                    &&& *final(self) == *old(self)
                },
            },
    {
        match self.phase {
            ContractPhase::Result => {},
            _ => {
                return Err(ProgramError::InvalidPhaseTransition);
            },
        }
        if self.current_match.match_id == u64::MAX {
            return Err(ProgramError::ArithmeticOverflow);
        }
        let payouts = match FinancialState::distribute_payouts(
            &self.current_match.betting_state,
            &self.current_match.match_state,
        ) {
            Ok(payouts) => payouts,
            Err(e) => {
                return Err(e);
            },
        };
        self.reset();
        Ok(payouts)
    }
}

} // verus!
