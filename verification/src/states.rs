//! The contract as a mathematical value, and what makes a state consistent.

use vstd::prelude::*;
use crate::accounts::{
    Bet, BetWeight, ContractPhase, ContractState, PoolRate, ReferralCredit, Team,
};
use crate::identity::{zero_identity, Identity};
use crate::ledger::{
    all_acceptable, credit_referrer, held_for, house_cut, house_sum, net_amount, pool_sum, rate_of,
    referral_ledger, weights_of,
};

verus! {

/// Whether `who` has an entry in `entries`.
pub open spec fn listed(entries: Seq<ReferralCredit>, who: Identity) -> bool {
    exists|i: int| 0 <= i < entries.len() && (#[trigger] entries[i]).referrer == who
}

/// The position of an entry of `who` in `entries`.
pub open spec fn slot_of(entries: Seq<ReferralCredit>, who: Identity) -> int {
    choose|i: int| 0 <= i < entries.len() && (#[trigger] entries[i]).referrer == who
}

/// No referrer has two entries.
pub open spec fn distinct_referrers(entries: Seq<ReferralCredit>) -> bool {
    forall|i: int, j: int|
        0 <= i < j < entries.len() ==> (#[trigger] entries[i]).referrer != (
        #[trigger] entries[j]).referrer
}

/// The entries read as a map from referrer to credit.
pub open spec fn credits(entries: Seq<ReferralCredit>) -> Map<Identity, int> {
    Map::new(
        |who: Identity| listed(entries, who),
        |who: Identity| entries[slot_of(entries, who)].amount as int,
    )
}

/// With distinct referrers, an entry is the one its referrer is looked up to.
pub proof fn lemma_slot_is_unique(entries: Seq<ReferralCredit>, i: int)
    requires
        distinct_referrers(entries),
        0 <= i < entries.len(),
    ensures
        listed(entries, entries[i].referrer),
        slot_of(entries, entries[i].referrer) == i,
        credits(entries).dom().contains(entries[i].referrer),
        credits(entries)[entries[i].referrer] == entries[i].amount,
{
    let who = entries[i].referrer;
    assert(listed(entries, who));
    let j = slot_of(entries, who);
    assert(0 <= j < entries.len() && entries[j].referrer == who);
    if j < i {
        assert(entries[j].referrer != entries[i].referrer);
    } else if i < j {
        assert(entries[i].referrer != entries[j].referrer);
    }
}

/// Raising the entry at `i` by `fee` credits its referrer and nobody else.
pub proof fn lemma_credit_in_place(entries: Seq<ReferralCredit>, i: int, fee: int)
    requires
        distinct_referrers(entries),
        0 <= i < entries.len(),
        entries[i].amount + fee <= u64::MAX,
        0 <= fee,
    ensures
        ({
            let who = entries[i].referrer;
            let raised = entries.update(
                i,
                ReferralCredit { referrer: who, amount: (entries[i].amount + fee) as u64 },
            );
            &&& distinct_referrers(raised)
            &&& credits(raised) == credits(entries).insert(who, fee + held_for(credits(entries), who))
        }),
{
    let who = entries[i].referrer;
    let raised = entries.update(
        i,
        ReferralCredit { referrer: who, amount: (entries[i].amount + fee) as u64 },
    );
    assert forall|k: int| 0 <= k < raised.len() implies (#[trigger] raised[k]).referrer
        == entries[k].referrer by {}
    assert(distinct_referrers(raised)) by {
        assert forall|a: int, b: int| 0 <= a < b < raised.len() implies (#[trigger] raised[a]).referrer
            != (#[trigger] raised[b]).referrer by {
            assert(entries[a].referrer != entries[b].referrer);
        }
    }
    lemma_slot_is_unique(entries, i);
    lemma_slot_is_unique(raised, i);
    let target = credits(entries).insert(who, fee + held_for(credits(entries), who));
    assert forall|w: Identity| credits(raised).dom().contains(w) <==> target.dom().contains(
        w,
    ) by {
        if listed(raised, w) {
            let j = slot_of(raised, w);
            assert(entries[j].referrer == w);
        }
        if listed(entries, w) {
            let j = slot_of(entries, w);
            assert(raised[j].referrer == w);
        }
    }
    assert forall|w: Identity| credits(raised).dom().contains(w) implies credits(raised)[w]
        == target[w] by {
        let j = slot_of(raised, w);
        lemma_slot_is_unique(raised, j);
        lemma_slot_is_unique(entries, j);
    }
    assert(credits(raised) =~= target);
}

/// A new entry for somebody not yet listed credits them and nobody else.
pub proof fn lemma_credit_appended(entries: Seq<ReferralCredit>, who: Identity, fee: u64)
    requires
        distinct_referrers(entries),
        !listed(entries, who),
    ensures
        ({
            let longer = entries.push(ReferralCredit { referrer: who, amount: fee });
            &&& distinct_referrers(longer)
            &&& credits(longer) == credits(entries).insert(who, fee + held_for(credits(entries), who))
        }),
{
    let longer = entries.push(ReferralCredit { referrer: who, amount: fee });
    let last = entries.len() as int;
    assert forall|k: int| 0 <= k < entries.len() implies (#[trigger] longer[k]) == entries[k] by {}
    assert(distinct_referrers(longer)) by {
        assert forall|a: int, b: int| 0 <= a < b < longer.len() implies (#[trigger] longer[a]).referrer
            != (#[trigger] longer[b]).referrer by {
            if b < last {
                assert(entries[a].referrer != entries[b].referrer);
            } else {
                assert(entries[a].referrer != who);
            }
        }
    }
    lemma_slot_is_unique(longer, last);
    let target = credits(entries).insert(who, fee + held_for(credits(entries), who));
    assert forall|w: Identity| credits(longer).dom().contains(w) <==> target.dom().contains(
        w,
    ) by {
        if listed(longer, w) {
            let j = slot_of(longer, w);
            if j < last {
                assert(entries[j].referrer == w);
            }
        }
        if listed(entries, w) {
            let j = slot_of(entries, w);
            assert(longer[j].referrer == w);
        }
    }
    assert forall|w: Identity| credits(longer).dom().contains(w) implies credits(longer)[w]
        == target[w] by {
        let j = slot_of(longer, w);
        lemma_slot_is_unique(longer, j);
        if j < last {
            lemma_slot_is_unique(entries, j);
        }
    }
    assert(credits(longer) =~= target);
}

/// The unit ratio a round starts with.
pub open spec fn unit_rate() -> PoolRate {
    PoolRate { red: 1, blue: 1 }
}

/// The contract as a plain value.
pub struct StateModel {
    pub phase: ContractPhase,
    pub oracle: Identity,
    pub initialized: bool,
    pub match_id: u64,
    pub bets: Seq<Bet>,
    pub bet_weights: Seq<BetWeight>,
    pub total_red: u64,
    pub total_blue: u64,
    pub match_result: Option<Team>,
    pub red_to_blue_rate: PoolRate,
    pub house_fee: u64,
    pub referral_fees: Map<Identity, int>,
}

impl StateModel {
    /// Both pools hold something, and the weights and the ratio are those of
    /// the recorded stakes.
    pub open spec fn locked(self) -> bool {
        &&& self.total_red > 0
        &&& self.total_blue > 0
        &&& self.bet_weights == weights_of(self.bets, self.total_red, self.total_blue)
        &&& self.red_to_blue_rate == rate_of(self.total_red, self.total_blue)
    }

    /// The state is consistent: the totals are those of the recorded stakes,
    /// the whole pool fits in 64 bits, and the weights and the declared
    /// winner are there exactly in the phases that have them.
    pub open spec fn wf(self) -> bool {
        &&& all_acceptable(self.bets)
        &&& self.total_red == pool_sum(self.bets, Team::Red)
        &&& self.total_blue == pool_sum(self.bets, Team::Blue)
        &&& self.total_red + self.total_blue <= u64::MAX
        &&& self.house_fee == house_sum(self.bets)
        &&& self.referral_fees == referral_ledger(self.bets)
        &&& match self.phase {
            ContractPhase::Betting => {
                &&& self.bet_weights.len() == 0
                &&& self.match_result is None
                &&& self.red_to_blue_rate == unit_rate()
            },
            ContractPhase::Match => self.locked() && self.match_result is None,
            ContractPhase::Result => self.locked() && self.match_result is Some,
        }
    }

    /// The pool of `team`.
    pub open spec fn pool(self, team: Team) -> u64 {
        match team {
            Team::Red => self.total_red,
            Team::Blue => self.total_blue,
        }
    }

    /// Both pools together.
    pub open spec fn total_pool(self) -> int {
        self.total_red + self.total_blue
    }

    /// The state with `bet` recorded.
    pub open spec fn after_stake(self, bet: Bet) -> StateModel {
        StateModel {
            bets: self.bets.push(bet),
            total_red: if bet.team == Team::Red {
                (self.total_red + net_amount(bet)) as u64
            } else {
                self.total_red
            },
            total_blue: if bet.team == Team::Blue {
                (self.total_blue + net_amount(bet)) as u64
            } else {
                self.total_blue
            },
            house_fee: (self.house_fee + house_cut(bet)) as u64,
            referral_fees: credit_referrer(self.referral_fees, bet),
            ..self
        }
    }

    /// The state with the round locked.
    pub open spec fn after_lock(self) -> StateModel {
        StateModel {
            phase: ContractPhase::Match,
            bet_weights: weights_of(self.bets, self.total_red, self.total_blue),
            red_to_blue_rate: rate_of(self.total_red, self.total_blue),
            ..self
        }
    }

    /// The state with `winner` declared.
    pub open spec fn after_result(self, winner: Team) -> StateModel {
        StateModel { phase: ContractPhase::Result, match_result: Some(winner), ..self }
    }

    /// The state with `oracle` configured.
    pub open spec fn after_initialize(self, oracle: Identity) -> StateModel {
        StateModel { oracle, initialized: true, ..self }
    }

    /// The state with a new round begun: the oracle stays, the round number
    /// goes up by one, and everything else is as in a fresh contract.
    pub open spec fn after_reset(self) -> StateModel {
        StateModel {
            oracle: self.oracle,
            initialized: self.initialized,
            match_id: (self.match_id + 1) as u64,
            ..fresh()
        }
    }
}

/// The state of a contract that was just deployed: betting is open, nothing
/// is staked and no oracle is configured.
pub open spec fn fresh() -> StateModel {
    StateModel {
        phase: ContractPhase::Betting,
        oracle: zero_identity(),
        initialized: false,
        match_id: 0,
        bets: Seq::empty(),
        bet_weights: Seq::empty(),
        total_red: 0,
        total_blue: 0,
        match_result: None,
        red_to_blue_rate: unit_rate(),
        house_fee: 0,
        referral_fees: Map::empty(),
    }
}

impl View for ContractState {
    type V = StateModel;

    open spec fn view(&self) -> StateModel {
        StateModel {
            phase: self.phase,
            oracle: self.oracle,
            initialized: self.initialized,
            match_id: self.current_match.match_id,
            bets: self.current_match.betting_state.bets@,
            bet_weights: self.current_match.betting_state.bet_weights@,
            total_red: self.current_match.betting_state.total_red,
            total_blue: self.current_match.betting_state.total_blue,
            match_result: self.current_match.match_state.match_result,
            red_to_blue_rate: self.current_match.match_state.red_to_blue_rate,
            house_fee: self.current_match.financial_state.house_fee,
            referral_fees: credits(self.current_match.financial_state.referral_fees@),
        }
    }
}

impl ContractState {
    /// The state is consistent, and its referral ledger lists nobody twice.
    pub open spec fn wf(&self) -> bool {
        &&& distinct_referrers(self.current_match.financial_state.referral_fees@)
        &&& self@.wf()
    }
}

} // verus!
