use soltybet::accounts::{
    Bet, BetWeight, ContractPhase, ContractState, PoolRate, ReferralCredit, Team,
};
use soltybet::audit::{covers, lists_nobody_twice, same_weights};
use soltybet::identity::Identity;

fn id(n: u8) -> Identity {
    Identity::new([n; 32])
}

fn betting() -> ContractState {
    let mut state = ContractState::initialize(id(42));
    state
        .place_bet(Bet { user: id(1), team: Team::Red, amount: 1000, referral: Some(id(9)) })
        .unwrap();
    state.place_bet(Bet { user: id(2), team: Team::Blue, amount: 200, referral: None }).unwrap();
    state
        .place_bet(Bet { user: id(3), team: Team::Blue, amount: 400, referral: Some(id(8)) })
        .unwrap();
    state
}

fn locked() -> ContractState {
    let mut state = betting();
    state.start_match().unwrap();
    state
}

fn decided() -> ContractState {
    let mut state = locked();
    state.end_match(Team::Blue, true).unwrap();
    state
}

#[test]
fn states_made_by_the_contract_are_consistent() {
    assert!(ContractState::new().is_consistent());
    assert!(ContractState::initialize(id(1)).is_consistent());
    assert!(betting().is_consistent());
    assert!(locked().is_consistent());
    assert!(decided().is_consistent());
    let mut settled = decided();
    settled.distribute_payouts().unwrap();
    assert!(settled.is_consistent());
}

#[test]
fn wrong_pool_total_is_found() {
    let mut state = betting();
    state.current_match.betting_state.total_red += 1;
    assert!(!state.is_consistent());
    let mut state = betting();
    state.current_match.betting_state.total_blue -= 1;
    assert!(!state.is_consistent());
    let mut state = locked();
    state.current_match.betting_state.total_red = 0;
    assert!(!state.is_consistent());
}

#[test]
fn wrong_fee_total_is_found() {
    let mut state = betting();
    state.current_match.financial_state.house_fee += 1;
    assert!(!state.is_consistent());
}

#[test]
fn wrong_referral_ledger_is_found() {
    let mut state = betting();
    state.current_match.financial_state.referral_fees[0].amount += 1;
    assert!(!state.is_consistent());
    let mut state = betting();
    state.current_match.financial_state.referral_fees.pop();
    assert!(!state.is_consistent());
    let mut state = betting();
    state
        .current_match
        .financial_state
        .referral_fees
        .push(ReferralCredit { referrer: id(7), amount: 0 });
    assert!(!state.is_consistent());
    let mut state = betting();
    let first = state.current_match.financial_state.referral_fees[0];
    state.current_match.financial_state.referral_fees.push(first);
    assert!(!state.is_consistent());
}

#[test]
fn order_of_the_referral_ledger_does_not_matter() {
    let mut state = betting();
    state.current_match.financial_state.referral_fees.reverse();
    assert!(state.is_consistent());
    assert_eq!(state.referral_fee(&id(9)), 5);
    assert_eq!(state.referral_fee(&id(8)), 2);
}

#[test]
fn unacceptable_stake_is_found() {
    let mut state = betting();
    state
        .current_match
        .betting_state
        .bets
        .push(Bet { user: id(4), team: Team::Red, amount: 0, referral: None });
    assert!(!state.is_consistent());
    let mut state = ContractState::new();
    state.current_match.betting_state.bets.push(Bet {
        user: id(4),
        team: Team::Red,
        amount: u64::MAX,
        referral: None,
    });
    assert!(!state.is_consistent());
}

#[test]
fn pool_that_does_not_fit_is_found() {
    let mut state = ContractState::new();
    let large = u64::MAX / 4;
    for n in 0..5u8 {
        state.current_match.betting_state.bets.push(Bet {
            user: id(n),
            team: Team::Red,
            amount: large,
            referral: None,
        });
    }
    state.current_match.betting_state.total_red = u64::MAX;
    assert!(!state.is_consistent());
}

#[test]
fn weights_must_match_the_phase() {
    let mut state = betting();
    state.phase = ContractPhase::Match;
    assert!(!state.is_consistent());
    let mut state = locked();
    state.phase = ContractPhase::Betting;
    assert!(!state.is_consistent());
    let mut state = locked();
    state.current_match.betting_state.bet_weights[0].net_amount += 1;
    assert!(!state.is_consistent());
    let mut state = locked();
    state.current_match.betting_state.bet_weights.pop();
    assert!(!state.is_consistent());
    let mut state = locked();
    state.current_match.match_state.red_to_blue_rate = PoolRate { red: 1, blue: 1 };
    assert!(!state.is_consistent());
    let mut state = betting();
    state.current_match.match_state.red_to_blue_rate = PoolRate { red: 2, blue: 1 };
    assert!(!state.is_consistent());
}

#[test]
fn declared_winner_must_match_the_phase() {
    let mut state = locked();
    state.current_match.match_state.match_result = Some(Team::Red);
    assert!(!state.is_consistent());
    let mut state = decided();
    state.current_match.match_state.match_result = None;
    assert!(!state.is_consistent());
    let mut state = betting();
    state.current_match.match_state.match_result = Some(Team::Red);
    assert!(!state.is_consistent());
    let mut state = locked();
    state.phase = ContractPhase::Result;
    assert!(!state.is_consistent());
}

#[test]
fn ledger_comparisons() {
    let a = vec![
        ReferralCredit { referrer: id(1), amount: 5 },
        ReferralCredit { referrer: id(2), amount: 6 },
    ];
    let b = vec![
        ReferralCredit { referrer: id(2), amount: 6 },
        ReferralCredit { referrer: id(1), amount: 5 },
        ReferralCredit { referrer: id(3), amount: 0 },
    ];
    assert!(lists_nobody_twice(&a));
    assert!(lists_nobody_twice(&b));
    assert!(lists_nobody_twice(&vec![]));
    assert!(!lists_nobody_twice(&vec![a[0], a[1], a[0]]));
    assert!(covers(&a, &b));
    assert!(!covers(&b, &a));
    assert!(covers(&vec![], &a));
    assert!(!covers(&vec![ReferralCredit { referrer: id(1), amount: 6 }], &a));
}

#[test]
fn weight_lists_are_compared_entry_by_entry() {
    let weight = BetWeight { user: id(1), team: Team::Red, net_amount: 3, pool_total: 9 };
    assert!(same_weights(&vec![weight, weight], &vec![weight, weight]));
    assert!(!same_weights(&vec![weight], &vec![weight, weight]));
    assert!(!same_weights(&vec![weight], &vec![BetWeight { team: Team::Blue, ..weight }]));
    assert!(!same_weights(&vec![weight], &vec![BetWeight { user: id(2), ..weight }]));
    assert!(!same_weights(&vec![weight], &vec![BetWeight { pool_total: 10, ..weight }]));
    assert!(same_weights(&vec![], &vec![]));
}
