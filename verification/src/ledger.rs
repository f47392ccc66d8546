//! What a sequence of stakes adds up to.
//!
//! Everything the contract keeps in running totals is defined here directly
//! from the recorded stakes, so that the totals can be held to it.

use vstd::prelude::*;
use crate::accounts::{Bet, BetWeight, PoolRate, Team, Transfer};
use crate::fees::{fee_overflows, house_fee_of, referral_fee_of};
use crate::identity::Identity;

verus! {

/// The house's cut of `bet`.
pub open spec fn house_cut(bet: Bet) -> int {
    house_fee_of(bet.amount as int, bet.referral is Some)
}

/// The referrer's credit for `bet`; zero without a referral.
pub open spec fn referral_cut(bet: Bet) -> int {
    referral_fee_of(bet.amount as int, bet.referral is Some)
}

/// What `bet` adds to its pool: the gross amount less the house fee.
pub open spec fn net_amount(bet: Bet) -> int {
    bet.amount - house_cut(bet)
}

/// A stake the ledger can record: positive, with a fee that fits.
pub open spec fn acceptable(bet: Bet) -> bool {
    bet.amount > 0 && !fee_overflows(bet.amount as int, bet.referral is Some)
}

/// Every stake of `bets` is acceptable.
pub open spec fn all_acceptable(bets: Seq<Bet>) -> bool {
    forall|i: int| 0 <= i < bets.len() ==> acceptable(#[trigger] bets[i])
}

/// The net amounts staked on `team`, summed.
pub open spec fn pool_sum(bets: Seq<Bet>, team: Team) -> int
    decreases bets.len(),
{
    if bets.len() == 0 {
        0
    } else {
        pool_sum(bets.drop_last(), team) + if bets.last().team == team {
            net_amount(bets.last())
        } else {
            0
        }
    }
}

/// The net amounts of all stakes, summed.
pub open spec fn net_sum(bets: Seq<Bet>) -> int
    decreases bets.len(),
{
    if bets.len() == 0 {
        0
    } else {
        net_sum(bets.drop_last()) + net_amount(bets.last())
    }
}

/// The gross amounts of all stakes, summed.
pub open spec fn gross_sum(bets: Seq<Bet>) -> int
    decreases bets.len(),
{
    if bets.len() == 0 {
        0
    } else {
        gross_sum(bets.drop_last()) + bets.last().amount
    }
}

/// The house fees of all stakes, summed.
pub open spec fn house_sum(bets: Seq<Bet>) -> int
    decreases bets.len(),
{
    if bets.len() == 0 {
        0
    } else {
        house_sum(bets.drop_last()) + house_cut(bets.last())
    }
}

/// What `ledger` holds for `who`: nothing, for somebody it does not list.
pub open spec fn held_for(ledger: Map<Identity, int>, who: Identity) -> int {
    if ledger.dom().contains(who) {
        ledger[who]
    } else {
        0
    }
}

/// A referral ledger after `bet` is recorded: the referrer, if there is one,
/// is credited on top of what the ledger already held for them.
pub open spec fn credit_referrer(ledger: Map<Identity, int>, bet: Bet) -> Map<Identity, int> {
    match bet.referral {
        Some(who) => ledger.insert(who, referral_cut(bet) + held_for(ledger, who)),
        None => ledger,
    }
}

/// The referral credits of all stakes, by referrer.
pub open spec fn referral_ledger(bets: Seq<Bet>) -> Map<Identity, int>
    decreases bets.len(),
{
    if bets.len() == 0 {
        Map::empty()
    } else {
        credit_referrer(referral_ledger(bets.drop_last()), bets.last())
    }
}

/// The pool a stake on `team` shares in.
pub open spec fn pool_of(team: Team, total_red: int, total_blue: int) -> int {
    match team {
        Team::Red => total_red,
        Team::Blue => total_blue,
    }
}

/// The share of `bet` in its side's pool.
pub open spec fn weight_of(bet: Bet, total_red: u64, total_blue: u64) -> BetWeight {
    BetWeight {
        user: bet.user,
        team: bet.team,
        net_amount: net_amount(bet) as u64,
        pool_total: pool_of(bet.team, total_red as int, total_blue as int) as u64,
    }
}

/// One weight per stake, in the order the stakes were placed.
pub open spec fn weights_of(bets: Seq<Bet>, total_red: u64, total_blue: u64) -> Seq<BetWeight> {
    Seq::new(bets.len(), |i: int| weight_of(bets[i], total_red, total_blue))
}

/// The numerators of the weights on `team`, summed.
pub open spec fn weight_sum(weights: Seq<BetWeight>, team: Team) -> int
    decreases weights.len(),
{
    if weights.len() == 0 {
        0
    } else {
        weight_sum(weights.drop_last(), team) + if weights.last().team == team {
            weights.last().net_amount as int
        } else {
            0
        }
    }
}

/// The full refund of `bet`: its gross amount, back to the bettor.
pub open spec fn refund_of(bet: Bet) -> Transfer {
    Transfer { recipient: bet.user, amount: bet.amount }
}

/// One refund per stake, in the order the stakes were placed.
pub open spec fn refunds_of(bets: Seq<Bet>) -> Seq<Transfer> {
    Seq::new(bets.len(), |i: int| refund_of(bets[i]))
}

/// What a winning stake is paid: its net amount times the whole pool, divided
/// by the winning pool, rounded down. The remainder stays with the house.
pub open spec fn payout_amount(bet: Bet, total_pool: int, winner_pool: int) -> int {
    net_amount(bet) * total_pool / winner_pool
}

/// The payout of a winning stake.
pub open spec fn payout_of(bet: Bet, total_pool: int, winner_pool: int) -> Transfer {
    Transfer { recipient: bet.user, amount: payout_amount(bet, total_pool, winner_pool) as u64 }
}

/// One payout per stake on `winner`, in the order the stakes were placed.
/// Stakes on the other side get nothing.
pub open spec fn payouts_of(bets: Seq<Bet>, winner: Team, total_pool: int, winner_pool: int) -> Seq<
    Transfer,
>
    decreases bets.len(),
{
    if bets.len() == 0 {
        Seq::empty()
    } else if bets.last().team == winner {
        payouts_of(bets.drop_last(), winner, total_pool, winner_pool).push(
            payout_of(bets.last(), total_pool, winner_pool),
        )
    } else {
        payouts_of(bets.drop_last(), winner, total_pool, winner_pool)
    }
}

/// The amounts of `transfers`, summed.
pub open spec fn transfer_sum(transfers: Seq<Transfer>) -> int
    decreases transfers.len(),
{
    if transfers.len() == 0 {
        0
    } else {
        transfer_sum(transfers.drop_last()) + transfers.last().amount
    }
}

/// The informational ratio recorded at lock time.
pub open spec fn rate_of(total_red: u64, total_blue: u64) -> PoolRate {
    PoolRate { red: total_red, blue: total_blue }
}

/// The house fee never exceeds the stake, and the referral credit never
/// exceeds the house fee of a referred stake.
pub proof fn lemma_fee_bounds(bet: Bet)
    ensures
        0 <= house_cut(bet) <= bet.amount,
        0 <= referral_cut(bet) <= house_cut(bet),
        0 <= net_amount(bet) <= bet.amount,
        bet.amount > 0 ==> net_amount(bet) > 0,
{
}

/// A stake's net amount is part of its side's pool.
pub proof fn lemma_pool_sum_bounds(bets: Seq<Bet>, team: Team)
    ensures
        0 <= pool_sum(bets, team),
        forall|i: int|
            0 <= i < bets.len() && bets[i].team == team ==> net_amount(#[trigger] bets[i])
                <= pool_sum(bets, team),
    decreases bets.len(),
{
    if bets.len() > 0 {
        lemma_pool_sum_bounds(bets.drop_last(), team);
        lemma_fee_bounds(bets.last());
        assert forall|i: int| 0 <= i < bets.len() && bets[i].team == team implies net_amount(
            #[trigger] bets[i],
        ) <= pool_sum(bets, team) by {
            if i < bets.len() - 1 {
                assert(bets.drop_last()[i] == bets[i]);
            }
        }
    }
}

/// The two pools together hold exactly the net amounts of all stakes.
pub proof fn lemma_pools_cover_stakes(bets: Seq<Bet>)
    ensures
        pool_sum(bets, Team::Red) + pool_sum(bets, Team::Blue) == net_sum(bets),
    decreases bets.len(),
{
    if bets.len() > 0 {
        lemma_pools_cover_stakes(bets.drop_last());
    }
}

/// The house total is never negative.
pub proof fn lemma_house_sum_nonnegative(bets: Seq<Bet>)
    ensures
        0 <= house_sum(bets),
    decreases bets.len(),
{
    if bets.len() > 0 {
        lemma_house_sum_nonnegative(bets.drop_last());
        lemma_fee_bounds(bets.last());
    }
}

/// No referrer is credited more than the house has taken in all.
pub proof fn lemma_referral_within_house(bets: Seq<Bet>, who: Identity)
    ensures
        referral_ledger(bets).dom().contains(who) ==> 0 <= referral_ledger(bets)[who] <= house_sum(
            bets,
        ),
    decreases bets.len(),
{
    if bets.len() > 0 {
        lemma_referral_within_house(bets.drop_last(), who);
        lemma_house_sum_nonnegative(bets.drop_last());
        lemma_fee_bounds(bets.last());
    }
}

} // verus!
