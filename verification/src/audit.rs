//! Checking a state that came from elsewhere.
//!
//! Every operation on the contract asks for a consistent state and leaves
//! one behind. A state that was stored and read back has to be checked
//! before it is used; the check replays the recorded stakes on a fresh
//! contract and holds everything the state claims against what the replay
//! arrives at.

use vstd::prelude::*;
use crate::accounts::{Bet, BetWeight, ContractPhase, ContractState, MatchState, ReferralCredit};
use crate::identity::Identity;
use crate::ledger::{
    acceptable, house_cut, house_sum, lemma_fee_bounds, lemma_pools_cover_stakes, net_amount,
    net_sum,
};
use crate::states::{credits, distinct_referrers, lemma_slot_is_unique, listed, slot_of};

verus! {

/// Whether `entry` is one of `entries`.
pub open spec fn has_entry(entries: Seq<ReferralCredit>, entry: ReferralCredit) -> bool {
    exists|j: int| 0 <= j < entries.len() && #[trigger] entries[j] == entry
}

/// Whether every entry of `a` is one of `b`.
pub open spec fn covered(a: Seq<ReferralCredit>, b: Seq<ReferralCredit>) -> bool {
    forall|i: int| 0 <= i < a.len() ==> has_entry(b, #[trigger] a[i])
}

/// The first stakes of a sequence never add up to more than all of them.
pub proof fn lemma_prefix_sums(bets: Seq<Bet>, k: int)
    requires
        0 <= k <= bets.len(),
    ensures
        0 <= net_sum(bets.take(k)) <= net_sum(bets),
        0 <= house_sum(bets.take(k)) <= house_sum(bets),
    decreases bets.len(),
{
    if k == bets.len() {
        assert(bets.take(k) =~= bets);
        if bets.len() > 0 {
            lemma_prefix_sums(bets.drop_last(), k - 1);
            lemma_fee_bounds(bets.last());
            assert(bets.drop_last().take(k - 1) =~= bets.drop_last());
        }
    } else {
        lemma_prefix_sums(bets.drop_last(), k);
        lemma_fee_bounds(bets.last());
        assert(bets.drop_last().take(k) =~= bets.take(k));
    }
}

/// One more stake adds its net amount and its house fee to the sums.
pub proof fn lemma_next_stake(bets: Seq<Bet>, i: int)
    requires
        0 <= i < bets.len(),
    ensures
        net_sum(bets.take(i + 1)) == net_sum(bets.take(i)) + net_amount(bets[i]),
        house_sum(bets.take(i + 1)) == house_sum(bets.take(i)) + house_cut(bets[i]),
{
    assert(bets.take(i + 1).drop_last() =~= bets.take(i));
    assert(bets.take(i + 1).last() == bets[i]);
}

/// Two ledgers that list nobody twice hold the same credits exactly when
/// each has every entry of the other.
pub proof fn lemma_same_credits(a: Seq<ReferralCredit>, b: Seq<ReferralCredit>)
    requires
        distinct_referrers(a),
        distinct_referrers(b),
    ensures
        credits(a) == credits(b) <==> covered(a, b) && covered(b, a),
{
    if covered(a, b) && covered(b, a) {
        assert forall|w: Identity| credits(a).dom().contains(w) <==> credits(b).dom().contains(
            w,
        ) by {
            if listed(a, w) {
                let i = slot_of(a, w);
                assert(has_entry(b, a[i]));
                let j = choose|j: int| 0 <= j < b.len() && #[trigger] b[j] == a[i];
                assert(b[j].referrer == w);
            }
            if listed(b, w) {
                let i = slot_of(b, w);
                assert(has_entry(a, b[i]));
                let j = choose|j: int| 0 <= j < a.len() && #[trigger] a[j] == b[i];
                assert(a[j].referrer == w);
            }
        }
        assert forall|w: Identity| credits(a).dom().contains(w) implies credits(a)[w] == credits(
            b,
        )[w] by {
            let i = slot_of(a, w);
            assert(has_entry(b, a[i]));
            let j = choose|j: int| 0 <= j < b.len() && #[trigger] b[j] == a[i];
            lemma_slot_is_unique(a, i);
            lemma_slot_is_unique(b, j);
        }
        assert(credits(a) =~= credits(b));
    }
    if credits(a) == credits(b) {
        lemma_entries_follow_credits(a, b);
        lemma_entries_follow_credits(b, a);
    }
}

/// A ledger has every entry of another that holds the same credits.
pub proof fn lemma_entries_follow_credits(a: Seq<ReferralCredit>, b: Seq<ReferralCredit>)
    requires
        distinct_referrers(a),
        distinct_referrers(b),
        credits(a) == credits(b),
    ensures
        covered(a, b),
{
    assert forall|i: int| 0 <= i < a.len() implies has_entry(b, #[trigger] a[i]) by {
        lemma_slot_is_unique(a, i);
        let w = a[i].referrer;
        assert(credits(b).dom().contains(w));
        let j = slot_of(b, w);
        lemma_slot_is_unique(b, j);
        assert(b[j] == a[i]);
    }
}

/// Whether no referrer has two entries in `entries`.
pub fn lists_nobody_twice(entries: &Vec<ReferralCredit>) -> (ok: bool)
    ensures
        ok == distinct_referrers(entries@),
{
    let n = entries.len();
    let mut j: usize = 0;
    while j < n
        invariant
            j <= n,
            n == entries.len(),
            forall|a: int, b: int|
                0 <= a < b < j ==> (#[trigger] entries@[a]).referrer != (
                #[trigger] entries@[b]).referrer,
        decreases n - j,
    {
        let mut i: usize = 0;
        while i < j
            invariant
                i <= j,
                j < n,
                n == entries.len(),
                forall|a: int| 0 <= a < i ==> (#[trigger] entries@[a]).referrer != entries@[j as int].referrer,
            decreases j - i,
        {
            if entries[i].referrer.same(&entries[j].referrer) {
                assert(entries@[i as int].referrer == entries@[j as int].referrer);
                return false;
            }
            i += 1;
        }
        j += 1;
    }
    true
}

/// Whether every entry of `a` is one of `b`.
pub fn covers(a: &Vec<ReferralCredit>, b: &Vec<ReferralCredit>) -> (ok: bool)
    ensures
        ok == covered(a@, b@),
{
    let n = a.len();
    let m = b.len();
    let mut i: usize = 0;
    while i < n
        invariant
            i <= n,
            n == a.len(),
            m == b.len(),
            forall|k: int| 0 <= k < i ==> has_entry(b@, #[trigger] a@[k]),
        decreases n - i,
    {
        let mut found = false;
        let mut j: usize = 0;
        while j < m && !found
            invariant
                j <= m,
                i < n,
                n == a.len(),
                m == b.len(),
                found ==> has_entry(b@, a@[i as int]),
                !found ==> forall|k: int| 0 <= k < j ==> #[trigger] b@[k] != a@[i as int],
            decreases m - j, if found { 0int } else { 1int },
        {
            if b[j].referrer.same(&a[i].referrer) && b[j].amount == a[i].amount {
                assert(b@[j as int] == a@[i as int]);
                found = true;
            } else {
                j += 1;
            }
        }
        if !found {
            assert(!has_entry(b@, a@[i as int]));
            return false;
        }
        i += 1;
    }
    true
}

/// Whether two lists of weights are the same.
pub fn same_weights(a: &Vec<BetWeight>, b: &Vec<BetWeight>) -> (ok: bool)
    ensures
        ok == (a@ == b@),
{
    let n = a.len();
    if n != b.len() {
        return false;
    }
    let mut i: usize = 0;
    while i < n
        invariant
            i <= n,
            n == a.len(),
            n == b.len(),
            forall|k: int| 0 <= k < i ==> a@[k] == b@[k],
        decreases n - i,
    {
        let same = a[i].user.same(&b[i].user) && a[i].team == b[i].team && a[i].net_amount
            == b[i].net_amount && a[i].pool_total == b[i].pool_total;
        if !same {
            assert(a@[i as int] != b@[i as int]);
            return false;
        }
        i += 1;
    }
    assert(a@ =~= b@);
    true
}

impl ContractState {
    /// Whether this state is consistent: whether it is one that the
    /// operations of the contract can be applied to.
    pub fn is_consistent(&self) -> (ok: bool)
        ensures
            ok == self.wf(),
    {
        let bets = &self.current_match.betting_state.bets;
        let mut replayed = ContractState::new();
        let n = bets.len();
        let mut i: usize = 0;
        while i < n
            invariant
                i <= n,
                n == bets.len(),
                bets@ == self@.bets,
                replayed.wf(),
                replayed@.phase == ContractPhase::Betting,
                replayed@.bets == bets@.take(i as int),
            decreases n - i,
        {
            proof {
                lemma_next_stake(bets@, i as int);
                lemma_prefix_sums(bets@, i + 1);
                lemma_pools_cover_stakes(bets@);
                lemma_pools_cover_stakes(bets@.take(i as int));
            }
            match replayed.place_bet(bets[i]) {
                Ok(_) => {
                    assert(replayed@.bets =~= bets@.take(i + 1));
                },
                Err(_) => {
                    assert(!self@.wf()) by {
                        if !acceptable(bets@[i as int]) {
                            assert(!acceptable(self@.bets[i as int]));
                        }
                    }
                    return false;
                },
            }
            i += 1;
        }
        assert(bets@.take(n as int) =~= bets@);
        let betting = &self.current_match.betting_state;
        let replayed_betting = &replayed.current_match.betting_state;
        if betting.total_red != replayed_betting.total_red || betting.total_blue
            != replayed_betting.total_blue {
            return false;
        }
        let fees = &self.current_match.financial_state;
        let replayed_fees = &replayed.current_match.financial_state;
        if fees.house_fee != replayed_fees.house_fee {
            return false;
        }
        if !lists_nobody_twice(&fees.referral_fees) {
            return false;
        }
        proof {
            lemma_same_credits(fees.referral_fees@, replayed_fees.referral_fees@);
        }
        if !covers(&fees.referral_fees, &replayed_fees.referral_fees) || !covers(
            &replayed_fees.referral_fees,
            &fees.referral_fees,
        ) {
            return false;
        }
        let rate = self.current_match.match_state.red_to_blue_rate;
        let decided = self.current_match.match_state.match_result.is_some();
        match self.phase {
            ContractPhase::Betting => {
                betting.bet_weights.len() == 0 && !decided && rate.red == 1 && rate.blue == 1
            },
            _ => {
                if betting.total_red == 0 || betting.total_blue == 0 {
                    return false;
                }
                if rate.red != betting.total_red || rate.blue != betting.total_blue {
                    return false;
                }
                let scratch = MatchState::new();
                match scratch.calculate_bet_weights(&mut replayed.current_match.betting_state) {
                    Ok(()) => {},
                    Err(_) => {
                        return false;
                    },
                }
                if !same_weights(
                    &betting.bet_weights,
                    &replayed.current_match.betting_state.bet_weights,
                ) {
                    return false;
                }
                match self.phase {
                    ContractPhase::Match => !decided,
                    _ => decided,
                }
            },
        }
    }
}

} // verus!
