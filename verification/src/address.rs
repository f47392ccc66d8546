//! Program-derived addresses.
//!
//! An address is derived from a list of seeds and the identity of the
//! program that owns it. The derivation itself is the chain's; this module
//! only calls it and checks claimed addresses against what it returns.

use vstd::prelude::*;
use crate::identity::Identity;

verus! {

/// What `solana_program::pubkey::Pubkey::try_find_program_address` returns
/// for the given seeds and program identity: the derived address and its bump
/// seed, or nothing when no address can be derived from them.
pub uninterp spec fn program_address(seeds: Seq<Seq<u8>>, program_id: Seq<u8>) -> Option<
    (Seq<u8>, u8),
>;

/// The seeds as plain byte sequences.
pub open spec fn seed_bytes(seeds: Seq<Vec<u8>>) -> Seq<Seq<u8>> {
    Seq::new(seeds.len(), |i: int| seeds[i]@)
}

/// Calls `solana_program::pubkey::Pubkey::try_find_program_address`.
///
/// Not proved: that the result is the one the chain's derivation gives for
/// these seeds and this program, which is all the contract says. The
/// derivation hashes its arguments and nothing else, so equal arguments give
/// equal results.
#[verifier::external_body]
pub(crate) fn find_program_address(seeds: &Vec<Vec<u8>>, program_id: &Identity) -> (found: Option<
    (Identity, u8),
>)
    ensures
        match found {
            Some((address, bump)) => program_address(seed_bytes(seeds@), program_id.bytes@)
                == Some((address.bytes@, bump)),
            None => program_address(seed_bytes(seeds@), program_id.bytes@) is None,
        },
{
    let slices: Vec<&[u8]> = seeds.iter().map(|seed| seed.as_slice()).collect();
    let program = solana_program::pubkey::Pubkey::new_from_array(program_id.bytes);
    solana_program::pubkey::Pubkey::try_find_program_address(&slices, &program).map(
        |(address, bump)| (Identity { bytes: address.to_bytes() }, bump),
    )
}

/// Holds a claimed address against a derived one.
///
/// The claim stands when an address was derived and it is the claimed one;
/// the derived address and its bump seed are then handed back.
pub fn check_derived(derived: Option<(Identity, u8)>, claimed: &Identity) -> (r: Option<
    (Identity, u8),
>)
    ensures
        r == match derived {
            Some((address, bump)) => if address == *claimed {
                Some((address, bump))
            } else {
                None
            },
            None => None::<(Identity, u8)>,
        },
{
    match derived {
        Some((address, bump)) => {
            if address.same(claimed) {
                Some((address, bump))
            } else {
                None
            }
        },
        None => None,
    }
}

} // verus!
