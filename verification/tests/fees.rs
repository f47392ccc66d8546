use soltybet::accounts::{Bet, Team};
use soltybet::errors::ProgramError;
use soltybet::fees::calculate_fees;
use soltybet::identity::Identity;
use soltybet::matchs::{net_of, refund_bet};

fn id(n: u8) -> Identity {
    Identity::new([n; 32])
}

#[test]
fn fee_without_referral_is_four_percent() {
    assert_eq!(calculate_fees(100, false), Ok((4, 0)));
    assert_eq!(calculate_fees(777, false), Ok((31, 0)));
}

#[test]
fn fee_with_referral_is_split() {
    assert_eq!(calculate_fees(200, true), Ok((7, 1)));
    assert_eq!(calculate_fees(1000, true), Ok((35, 5)));
    assert_eq!(calculate_fees(12345, true), Ok((432, 61)));
}

#[test]
fn fee_rounds_down() {
    assert_eq!(calculate_fees(1, false), Ok((0, 0)));
    assert_eq!(calculate_fees(24, false), Ok((0, 0)));
    assert_eq!(calculate_fees(25, false), Ok((1, 0)));
    assert_eq!(calculate_fees(999, true), Ok((34, 4)));
    assert_eq!(calculate_fees(199, true), Ok((6, 0)));
}

#[test]
fn fee_of_nothing_is_nothing() {
    assert_eq!(calculate_fees(0, false), Ok((0, 0)));
    assert_eq!(calculate_fees(0, true), Ok((0, 0)));
}

#[test]
fn fee_overflow_without_referral() {
    let largest = u64::MAX / 4;
    assert_eq!(calculate_fees(largest, false), Ok((184467440737095516, 0)));
    assert_eq!(calculate_fees(largest + 1, false), Err(ProgramError::ArithmeticOverflow));
    assert_eq!(calculate_fees(u64::MAX, false), Err(ProgramError::ArithmeticOverflow));
}

#[test]
fn fee_overflow_with_referral() {
    let largest = u64::MAX / 35;
    assert_eq!(calculate_fees(largest, true), Ok((18446744073709551, 2635249153387078)));
    assert_eq!(calculate_fees(largest + 1, true), Err(ProgramError::ArithmeticOverflow));
}

#[test]
fn net_amount_is_gross_less_house_fee() {
    let plain = Bet { user: id(1), team: Team::Red, amount: 100, referral: None };
    let referred = Bet { user: id(2), team: Team::Blue, amount: 200, referral: Some(id(9)) };
    assert_eq!(net_of(&plain), 96);
    assert_eq!(net_of(&referred), 193);
    let huge = Bet { user: id(1), team: Team::Red, amount: u64::MAX, referral: None };
    assert_eq!(net_of(&huge), u64::MAX - 737869762948382064);
}

#[test]
fn refund_is_the_gross_amount() {
    let referred = Bet { user: id(2), team: Team::Blue, amount: 200, referral: Some(id(9)) };
    let refund = refund_bet(&referred);
    assert_eq!(refund.recipient, id(2));
    assert_eq!(refund.amount, 200);
}
