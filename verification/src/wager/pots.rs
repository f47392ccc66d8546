//! Where the accounts of the wager program live, and what a bet does to a
//! pot.

use vstd::prelude::*;
use crate::address::{check_derived, find_program_address, program_address, seed_bytes};
use crate::identity::Identity;
use crate::wager::state::{PlayerAccount, WagerAccount};
use crate::wager::wire::{put_name, WagerError};

verus! {

/// Whether `claimed` is the address derived from `seeds` for `program_id`.
pub open spec fn is_derived(seeds: Seq<Seq<u8>>, program_id: Identity, claimed: Identity) -> bool {
    program_address(seeds, program_id.bytes@) matches Some((address, _)) && address
        == claimed.bytes@
}

/// What holds of a checked address: the address handed back is the claimed
/// one and is the derived one, or the claim was refused because it is not.
pub open spec fn checked_against(
    seeds: Seq<Seq<u8>>,
    program_id: Identity,
    claimed: Identity,
    r: Result<(Identity, u8), WagerError>,
) -> bool {
    match r {
        Ok((address, bump)) => {
            &&& address == claimed
            &&& program_address(seeds, program_id.bytes@) == Some((claimed.bytes@, bump))
        },
        Err(e) => e == WagerError::InvalidArgument && !is_derived(seeds, program_id, claimed),
    }
}

/// Turns a checked claim into the program's answer.
pub fn accept_derived(derived: Option<(Identity, u8)>, claimed: &Identity) -> (r: Result<
    (Identity, u8),
    WagerError,
>)
    ensures
        r == match derived {
            Some((address, bump)) => if address == *claimed {
                Ok((address, bump))
            } else {
                Err(WagerError::InvalidArgument)
            },
            None => Err::<(Identity, u8), WagerError>(WagerError::InvalidArgument),
        },
{
    match check_derived(derived, claimed) {
        Some(found) => Ok(found),
        None => Err(WagerError::InvalidArgument),
    }
}

/// The address of the pot of the wager called `name`, with its bump seed;
/// nothing, when no address can be derived.
pub fn get_pot_address(name: [u8; 20], program_id: &Identity) -> (r: Option<(Identity, u8)>)
    ensures
        match r {
            Some((address, bump)) => program_address(seq![name@], program_id.bytes@) == Some(
                (address.bytes@, bump),
            ),
            None => program_address(seq![name@], program_id.bytes@) is None,
        },
{
    let mut seed: Vec<u8> = Vec::new();
    put_name(&mut seed, &name);
    let mut seeds: Vec<Vec<u8>> = Vec::new();
    seeds.push(seed);
    proof {
        assert(seeds@[0]@ =~= name@);
        assert(seed_bytes(seeds@) =~= seq![name@]);
    }
    find_program_address(&seeds, program_id)
}

/// Checks that `pot_address` is the address of the pot of the wager called
/// `name`.
pub fn get_pot_address_checked(name: [u8; 20], pot_address: &Identity, program_id: &Identity) -> (r:
    Result<(Identity, u8), WagerError>)
    ensures
        checked_against(seq![name@], *program_id, *pot_address, r),
{
    let derived = get_pot_address(name, program_id);
    proof {
        lemma_same_bytes(derived, *pot_address);
    }
    accept_derived(derived, pot_address)
}

/// The address of the account of the player `funder_info` in the wager
/// `bet_identifier`, with its bump seed; nothing, when no address can be
/// derived.
pub fn get_player_address(bet_identifier: [u8; 20], funder_info: [u8; 32], program_id: &Identity)
    -> (r: Option<(Identity, u8)>)
    ensures
        match r {
            Some((address, bump)) => program_address(
                seq![bet_identifier@, funder_info@],
                program_id.bytes@,
            ) == Some((address.bytes@, bump)),
            None => program_address(seq![bet_identifier@, funder_info@], program_id.bytes@)
                is None,
        },
{
    let mut first: Vec<u8> = Vec::new();
    put_name(&mut first, &bet_identifier);
    let mut second: Vec<u8> = Vec::new();
    let mut i: usize = 0;
    while i < 32
        invariant
            i <= 32,
            second@ == funder_info@.take(i as int),
        decreases 32 - i,
    {
        second.push(funder_info[i]);
        i += 1;
        assert(second@ =~= funder_info@.take(i as int));
    }
    let mut seeds: Vec<Vec<u8>> = Vec::new();
    seeds.push(first);
    seeds.push(second);
    proof {
        assert(funder_info@.take(32) =~= funder_info@);
        assert(seeds@[0]@ =~= bet_identifier@);
        assert(seed_bytes(seeds@) =~= seq![bet_identifier@, funder_info@]);
    }
    find_program_address(&seeds, program_id)
}

/// Checks that `player_address` is the address of the account of the player
/// `funder_info` in the wager `bet_identifier`.
pub fn get_player_address_checked(
    bet_identifier: [u8; 20],
    funder_info: [u8; 32],
    player_address: &Identity,
    program_id: &Identity,
) -> (r: Result<(Identity, u8), WagerError>)
    ensures
        checked_against(seq![bet_identifier@, funder_info@], *program_id, *player_address, r),
{
    let derived = get_player_address(bet_identifier, funder_info, program_id);
    proof {
        lemma_same_bytes(derived, *player_address);
    }
    accept_derived(derived, player_address)
}

/// Two identities are the same exactly when their bytes are.
pub proof fn lemma_same_bytes(derived: Option<(Identity, u8)>, claimed: Identity)
    ensures
        derived matches Some((address, _)) ==> (address == claimed <==> address.bytes@
            == claimed.bytes@),
{
    match derived {
        Some((address, _)) => {
            if address.bytes@ == claimed.bytes@ {
                assert(address.bytes =~= claimed.bytes);
            }
        },
        None => {},
    }
}

/// What a pot is after a bet: one more player, and the bet's amount on top
/// of the balance.
pub open spec fn pot_after_bet(pot: WagerAccount, player: PlayerAccount) -> WagerAccount {
    WagerAccount {
        player_counter: (pot.player_counter + 1) as u16,
        balance: (pot.balance + player.bet_amount) as u32,
        ..pot
    }
}

impl WagerAccount {
    /// Counts `player` in and adds the bet to the balance.
    ///
    /// Fails, changing nothing, when the counter or the balance would leave
    /// its width.
    pub fn record_bet(&mut self, player: &PlayerAccount) -> (r: Result<(), WagerError>)
        ensures
            old(self).player_counter < u16::MAX && old(self).balance + player.bet_amount
                <= u32::MAX ==> r == Ok::<(), WagerError>(()) && *final(self) == pot_after_bet(
                *old(self),
                *player,
            ),
            !(old(self).player_counter < u16::MAX && old(self).balance + player.bet_amount
                <= u32::MAX) ==> r == Err::<(), WagerError>(WagerError::ArithmeticOverflow)
                && *final(self) == *old(self),
    {
        let counter = match self.player_counter.checked_add(1) {
            Some(counter) => counter,
            None => {
                return Err(WagerError::ArithmeticOverflow);
            },
        };
        let balance = match self.balance.checked_add(player.bet_amount) {
            Some(balance) => balance,
            None => {
                return Err(WagerError::ArithmeticOverflow);
            },
        };
        self.player_counter = counter;
        self.balance = balance;
        Ok(())
    }
}

} // verus!
