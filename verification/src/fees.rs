//! The fee schedule.
//!
//! A stake without a referral pays 4% to the house. A referred stake pays
//! 3.5% to the house and 0.5% is credited to the referrer. Both fees round
//! down. Only the house fee comes out of what the stake adds to its pool.

use vstd::prelude::*;
use crate::errors::ProgramError;

verus! {

/// The house's cut of a stake of `amount`.
pub open spec fn house_fee_of(amount: int, has_referral: bool) -> int {
    if has_referral {
        amount * 35 / 1000
    } else {
        amount * 4 / 100
    }
}

/// The referrer's credit for a stake of `amount`.
pub open spec fn referral_fee_of(amount: int, has_referral: bool) -> int {
    if has_referral {
        amount * 5 / 1000
    } else {
        0
    }
}

/// Whether the fee multiplication for `amount` leaves 64 bits.
pub open spec fn fee_overflows(amount: int, has_referral: bool) -> bool {
    if has_referral {
        amount * 35 > u64::MAX
    } else {
        amount * 4 > u64::MAX
    }
}

/// Computes `(house_fee, referral_fee)` for a stake of `amount`.
pub fn calculate_fees(amount: u64, has_referral: bool) -> (r: Result<(u64, u64), ProgramError>)
    ensures
        fee_overflows(amount as int, has_referral) ==> r == Err::<(u64, u64), ProgramError>(
            ProgramError::ArithmeticOverflow,
        ),
        !fee_overflows(amount as int, has_referral) ==> r == Ok::<(u64, u64), ProgramError>(
            (
                house_fee_of(amount as int, has_referral) as u64,
                referral_fee_of(amount as int, has_referral) as u64,
            ),
        ),
{
    if has_referral {
        match amount.checked_mul(35) {
            Some(scaled) => Ok((scaled / 1000, amount * 5 / 1000)),
            None => Err(ProgramError::ArithmeticOverflow),
        }
    } else {
        match amount.checked_mul(4) {
            Some(scaled) => Ok((scaled / 100, 0)),
            None => Err(ProgramError::ArithmeticOverflow),
        }
    }
}

} // verus!
