//! What holds of every consistent state.

use vstd::prelude::*;
use crate::accounts::{Bet, ContractPhase, Team, Transfer};
use crate::betting::stake_rejection;
use crate::errors::ProgramError;
use crate::identity::Identity;
use crate::ledger::{
    gross_sum, house_sum, lemma_fee_bounds, lemma_pool_sum_bounds, lemma_pools_cover_stakes,
    net_amount, net_sum, payout_amount, payout_of, payouts_of, pool_sum, refunds_of, transfer_sum, weight_of,
    weight_sum, weights_of,
};
use crate::matchs::lock_rejection;
use crate::payouts::{deliverable, lemma_payout_within_pool, payouts_due, undeliverable};
use crate::states::{fresh, StateModel};

verus! {

/// The two pools together hold exactly what the recorded stakes add up to
/// after the house fee.
pub proof fn law_pools_hold_net_stakes(state: StateModel)
    requires
        state.wf(),
    ensures
        state.total_red + state.total_blue == net_sum(state.bets),
{
    lemma_pools_cover_stakes(state.bets);
}

/// Every unit staked is either in a pool or with the house: the two pools and
/// the house's total together are the gross amounts of the recorded stakes.
pub proof fn law_every_stake_is_accounted_for(state: StateModel)
    requires
        state.wf(),
    ensures
        state.total_red + state.total_blue + state.house_fee == gross_sum(state.bets),
{
    lemma_pools_cover_stakes(state.bets);
    lemma_net_and_fee_make_gross(state.bets);
}

/// Net amounts and house fees together are the gross amounts.
pub proof fn lemma_net_and_fee_make_gross(bets: Seq<Bet>)
    ensures
        net_sum(bets) + house_sum(bets) == gross_sum(bets),
    decreases bets.len(),
{
    if bets.len() > 0 {
        lemma_net_and_fee_make_gross(bets.drop_last());
    }
}

/// A refund gives back everything: the refunds of a round add up to the
/// gross amounts of its stakes, fees included.
pub proof fn law_refunds_give_everything_back(bets: Seq<Bet>)
    ensures
        transfer_sum(refunds_of(bets)) == gross_sum(bets),
    decreases bets.len(),
{
    if bets.len() > 0 {
        law_refunds_give_everything_back(bets.drop_last());
        assert(refunds_of(bets).drop_last() =~= refunds_of(bets.drop_last()));
    }
}

/// Every transfer of a batch is either carried out or still owed, and none
/// is lost or made up: the two parts have as many entries, and as much
/// money, as the batch.
pub proof fn law_every_transfer_is_accounted_for(intents: Seq<Transfer>, available: Seq<Identity>)
    ensures
        deliverable(intents, available).len() + undeliverable(intents, available).len()
            == intents.len(),
        transfer_sum(deliverable(intents, available)) + transfer_sum(
            undeliverable(intents, available),
        ) == transfer_sum(intents),
    decreases intents.len(),
{
    if intents.len() > 0 {
        law_every_transfer_is_accounted_for(intents.drop_last(), available);
        let earlier = intents.drop_last();
        if available.contains(intents.last().recipient) {
            assert(deliverable(intents, available).drop_last() =~= deliverable(
                earlier,
                available,
            ));
        } else {
            assert(undeliverable(intents, available).drop_last() =~= undeliverable(
                earlier,
                available,
            ));
        }
    }
}

/// Outside the betting phase every stake is refused as a phase violation,
/// whatever it is.
pub proof fn law_stakes_only_while_betting(state: StateModel, bet: Bet)
    requires
        state.phase != ContractPhase::Betting,
    ensures
        stake_rejection(state, bet) == Some(ProgramError::PhaseViolation),
{
}

/// Locking a round with an empty side is refused with `EmptyPool`: there is
/// one refund per recorded stake, both pools are empty afterwards, and the
/// contract is taking bets again.
pub proof fn law_empty_side_is_refunded(state: StateModel)
    requires
        state.wf(),
        state.phase == ContractPhase::Betting,
        state.total_red == 0 || state.total_blue == 0,
        state.match_id < u64::MAX,
    ensures
        lock_rejection(state) == Some(ProgramError::EmptyPool),
        refunds_of(state.bets).len() == state.bets.len(),
        state.after_reset().wf(),
        state.after_reset().phase == ContractPhase::Betting,
        state.after_reset().total_red == 0,
        state.after_reset().total_blue == 0,
        state.after_reset().bets.len() == 0,
{
    assert(state.after_reset().referral_fees =~= crate::ledger::referral_ledger(
        state.after_reset().bets,
    ));
}

/// The weights of the stakes add up to the pools the stakes add up to.
pub proof fn lemma_weights_cover_pool(bets: Seq<Bet>, total_red: u64, total_blue: u64, team: Team)
    ensures
        weight_sum(weights_of(bets, total_red, total_blue), team) == pool_sum(bets, team),
    decreases bets.len(),
{
    if bets.len() > 0 {
        let weights = weights_of(bets, total_red, total_blue);
        lemma_weights_cover_pool(bets.drop_last(), total_red, total_blue, team);
        lemma_fee_bounds(bets.last());
        assert(weights.drop_last() =~= weights_of(bets.drop_last(), total_red, total_blue));
        assert(weights.last() == weight_of(bets.last(), total_red, total_blue));
    }
}

/// Once a round is locked, the shares on each side add up to exactly one:
/// every weight on `team` is a fraction of that team's pool, greater than
/// zero and at most one, and the numerators add up to the pool.
pub proof fn law_shares_add_up_to_one(state: StateModel, team: Team)
    requires
        state.wf(),
        state.phase != ContractPhase::Betting,
    ensures
        state.bet_weights.len() == state.bets.len(),
        weight_sum(state.bet_weights, team) == state.pool(team),
        state.pool(team) > 0,
        forall|i: int|
            0 <= i < state.bet_weights.len() && (#[trigger] state.bet_weights[i]).team == team ==> {
                &&& state.bet_weights[i].pool_total == state.pool(team)
                &&& 0 < state.bet_weights[i].net_amount <= state.bet_weights[i].pool_total
            },
{
    lemma_weights_cover_pool(state.bets, state.total_red, state.total_blue, team);
    lemma_pool_sum_bounds(state.bets, team);
    assert forall|i: int|
        0 <= i < state.bet_weights.len() && (#[trigger] state.bet_weights[i]).team == team implies {
        &&& state.bet_weights[i].pool_total == state.pool(team)
        &&& 0 < state.bet_weights[i].net_amount <= state.bet_weights[i].pool_total
    } by {
        lemma_fee_bounds(state.bets[i]);
        assert(state.bet_weights[i] == weight_of(state.bets[i], state.total_red, state.total_blue));
        assert(net_amount(state.bets[i]) <= pool_sum(state.bets, team));
    }
}

/// The payouts of `bets`, times the winning pool, stay within what `bets`
/// staked on the winner, times the whole pool.
pub proof fn lemma_payouts_scaled(bets: Seq<Bet>, winner: Team, total_pool: int, winner_pool: int)
    requires
        0 < winner_pool,
        0 <= total_pool <= u64::MAX,
        pool_sum(bets, winner) <= winner_pool,
    ensures
        0 <= transfer_sum(payouts_of(bets, winner, total_pool, winner_pool)),
        transfer_sum(payouts_of(bets, winner, total_pool, winner_pool)) * winner_pool <= pool_sum(
            bets,
            winner,
        ) * total_pool,
    decreases bets.len(),
{
    if bets.len() == 0 {
        assert(0 * winner_pool == 0 && 0 * total_pool == 0) by (nonlinear_arith);
    } else {
        let earlier = bets.drop_last();
        let last = bets.last();
        lemma_fee_bounds(last);
        lemma_pool_sum_bounds(earlier, winner);
        lemma_payouts_scaled(earlier, winner, total_pool, winner_pool);
        if last.team == winner {
            let paid = payouts_of(bets, winner, total_pool, winner_pool);
            let before = payouts_of(earlier, winner, total_pool, winner_pool);
            lemma_payout_within_pool(net_amount(last), total_pool, winner_pool);
            assert(paid.drop_last() =~= before);
            assert(paid.last().amount == payout_amount(last, total_pool, winner_pool));
            let s = transfer_sum(before);
            let a = payout_amount(last, total_pool, winner_pool);
            let p = pool_sum(earlier, winner);
            let n = net_amount(last);
            assert((s + a) * winner_pool <= (p + n) * total_pool) by (nonlinear_arith)
                requires
                    s * winner_pool <= p * total_pool,
                    a * winner_pool <= n * total_pool,
            ;
        }
    }
}

/// Settlement never pays out more than the whole pool: what rounding down
/// leaves over stays with the house.
pub proof fn law_payouts_within_pool(state: StateModel)
    requires
        state.wf(),
        state.phase == ContractPhase::Result,
    ensures
        0 <= transfer_sum(payouts_due(state)) <= state.total_pool(),
{
    let winner = state.match_result->Some_0;
    let winner_pool = state.pool(winner) as int;
    let total_pool = state.total_pool();
    lemma_payouts_scaled(state.bets, winner, total_pool, winner_pool);
    let paid = transfer_sum(payouts_due(state));
    assert(paid <= total_pool) by (nonlinear_arith)
        requires
            paid * winner_pool <= winner_pool * total_pool,
            0 < winner_pool,
    ;
}

/// Whether `due` is what the formula pays one of the stakes of `bets` on
/// `winner`.
pub open spec fn owed_to_a_winner(
    bets: Seq<Bet>,
    winner: Team,
    total_pool: int,
    winner_pool: int,
    due: Transfer,
) -> bool {
    exists|i: int|
        0 <= i < bets.len() && (#[trigger] bets[i]).team == winner && due == payout_of(
            bets[i],
            total_pool,
            winner_pool,
        )
}

/// Settlement pays by the formula and pays nobody else: every stake on the
/// winner is paid its net amount times the whole pool, divided by the winning
/// pool and rounded down, and every payout is that of a stake on the winner.
pub proof fn law_winners_are_paid_by_formula(
    bets: Seq<Bet>,
    winner: Team,
    total_pool: int,
    winner_pool: int,
)
    ensures
        forall|i: int|
            0 <= i < bets.len() && (#[trigger] bets[i]).team == winner ==> payouts_of(
                bets,
                winner,
                total_pool,
                winner_pool,
            ).contains(
                Transfer {
                    recipient: bets[i].user,
                    amount: (net_amount(bets[i]) * total_pool / winner_pool) as u64,
                },
            ),
        forall|k: int|
            0 <= k < payouts_of(bets, winner, total_pool, winner_pool).len() ==> owed_to_a_winner(
                bets,
                winner,
                total_pool,
                winner_pool,
                #[trigger] payouts_of(bets, winner, total_pool, winner_pool)[k],
            ),
    decreases bets.len(),
{
    if bets.len() > 0 {
        let earlier = bets.drop_last();
        let last = bets.len() - 1;
        law_winners_are_paid_by_formula(earlier, winner, total_pool, winner_pool);
        let paid = payouts_of(bets, winner, total_pool, winner_pool);
        let before = payouts_of(earlier, winner, total_pool, winner_pool);
        assert forall|i: int| 0 <= i < bets.len() && (#[trigger] bets[i]).team == winner implies paid.contains(
            payout_of(bets[i], total_pool, winner_pool),
        ) by {
            if i < last {
                assert(earlier[i] == bets[i]);
                let due = payout_of(earlier[i], total_pool, winner_pool);
                assert(before.contains(due));
                let k = choose|k: int| 0 <= k < before.len() && before[k] == due;
                assert(paid[k] == due);
            } else {
                assert(paid[paid.len() - 1] == payout_of(bets[i], total_pool, winner_pool));
            }
        }
        assert forall|k: int| 0 <= k < paid.len() implies owed_to_a_winner(
            bets,
            winner,
            total_pool,
            winner_pool,
            #[trigger] paid[k],
        ) by {
            if k < before.len() {
                assert(owed_to_a_winner(earlier, winner, total_pool, winner_pool, before[k]));
                let i = choose|i: int|
                    0 <= i < earlier.len() && (#[trigger] earlier[i]).team == winner && before[k]
                        == payout_of(earlier[i], total_pool, winner_pool);
                assert(bets[i] == earlier[i]);
                assert(paid[k] == before[k]);
            } else {
                assert(bets[last].team == winner);
                assert(paid[k] == payout_of(bets[last], total_pool, winner_pool));
            }
        }
    }
}

/// A new round begins where a freshly configured contract begins, but for
/// the round number, which has gone up by one. The oracle is kept.
pub proof fn law_reset_returns_to_start(state: StateModel)
    requires
        state.initialized,
        state.match_id < u64::MAX,
    ensures
        state.after_reset() == (StateModel {
            match_id: (state.match_id + 1) as u64,
            ..fresh().after_initialize(state.oracle)
        }),
        state.after_reset().oracle == state.oracle,
        state.after_reset().match_id == state.match_id + 1,
{
}

} // verus!
