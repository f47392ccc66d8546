//! The oracle: who may declare a winner, and how a declaration is checked.
//!
//! A result counts only when it comes from the configured oracle and carries
//! a signature that the oracle's key accepts. Both checks are made here, even
//! where the caller has already been authenticated elsewhere.

use vstd::prelude::*;
use crate::accounts::{ContractPhase, ContractState, Rejection, Team, Transfer};
use crate::address::{find_program_address, program_address};
use crate::errors::ProgramError;
use crate::identity::Identity;
use crate::matchs::lock_rejection;
use crate::payouts::{payouts_due, settle_rejection};
use crate::states::{fresh, StateModel};

verus! {

/// Whether `ed25519_dalek::PublicKey::verify` accepts `signature` for
/// `message` under the public key `key`. Bytes that are no public key, or no
/// signature, are not accepted.
pub uninterp spec fn ed25519_accepts(key: Seq<u8>, message: Seq<u8>, signature: Seq<u8>) -> bool;

/// Calls `ed25519_dalek::PublicKey::verify`, after parsing the key with
/// `PublicKey::from_bytes` and the signature with `Signature::from_bytes`.
///
/// Not proved: that the answer is the one Ed25519 verification gives for
/// these bytes, which is all the contract says. Verification computes on its
/// arguments alone, so equal arguments give equal answers.
#[verifier::external_body]
pub(crate) fn signature_accepted(key: &Identity, message: &[u8], signature: &[u8]) -> (ok: bool)
    ensures
        ok == ed25519_accepts(key.bytes@, message@, signature@),
{
    match (
        ed25519_dalek::PublicKey::from_bytes(&key.bytes),
        ed25519_dalek::Signature::from_bytes(signature),
    ) {
        (Ok(public), Ok(parsed)) => ed25519_dalek::Verifier::verify(&public, message, &parsed)
            .is_ok(),
        _ => false,
    }
}

/// The seed the oracle's program-derived address is derived from.
pub open spec fn oracle_seed() -> Seq<u8> {
    seq![111u8, 114u8, 97u8, 99u8, 108u8, 101u8]
}

/// Whether a report by `identity`, signed with `signature` over `message`,
/// is attested by the oracle of `state`.
///
/// A contract whose oracle was never configured trusts nobody.
pub open spec fn attested_by_oracle(
    state: StateModel,
    identity: Identity,
    signature: Seq<u8>,
    message: Seq<u8>,
) -> bool {
    &&& state.initialized
    &&& identity == state.oracle
    &&& ed25519_accepts(state.oracle.bytes@, message, signature)
}

/// Why a winner cannot be declared in `state`, if it cannot.
pub open spec fn result_rejection(state: StateModel, attested: bool) -> Option<ProgramError> {
    if state.phase != ContractPhase::Match {
        Some(ProgramError::InvalidPhaseTransition)
    } else if !attested {
        Some(ProgramError::OracleVerificationFailed)
    } else {
        None
    }
}

/// Why `state` cannot move to `new_phase` on request, if it cannot.
///
/// Two moves can be asked for by naming the phase to reach: locking the
/// round, and settling it. The move from the match phase to the result phase
/// takes an attested result and cannot be asked for this way.
pub open spec fn transition_rejection(state: StateModel, new_phase: ContractPhase) -> Option<
    ProgramError,
> {
    match (state.phase, new_phase) {
        (ContractPhase::Betting, ContractPhase::Match) => lock_rejection(state),
        (ContractPhase::Result, ContractPhase::Betting) => settle_rejection(state),
        _ => Some(ProgramError::InvalidPhaseTransition),
    }
}

impl ContractState {
    /// A freshly deployed contract whose oracle is the address derived for
    /// the program `program_id` from the seed `"oracle"`; nothing, when no
    /// address can be derived.
    pub fn launch_pda_oracle(program_id: &Identity) -> (r: Option<ContractState>)
        ensures
            match r {
                Some(state) => {
                    &&& state.wf()
                    &&& state@ == fresh().after_initialize(state.oracle)
                    &&& exists|bump: u8|
                        program_address(seq![oracle_seed()], program_id.bytes@) == Some(
                            (state.oracle.bytes@, bump),
                        )
                },
                None => program_address(seq![oracle_seed()], program_id.bytes@) is None,
            },
    {
        let mut seed: Vec<u8> = Vec::new();
        seed.push(111u8);
        seed.push(114u8);
        seed.push(97u8);
        seed.push(99u8);
        seed.push(108u8);
        seed.push(101u8);
        let mut seeds: Vec<Vec<u8>> = Vec::new();
        seeds.push(seed);
        proof {
            assert(seeds@[0]@ =~= oracle_seed());
            assert(crate::address::seed_bytes(seeds@) =~= seq![oracle_seed()]);
        }
        match find_program_address(&seeds, program_id) {
            Some((address, _)) => Some(ContractState::initialize(address)),
            None => None,
        }
    }

    /// Whether a report by `identity`, signed with `signature` over `data`,
    /// comes from the trusted oracle: the identity must be the configured
    /// oracle, and the oracle's key must accept the signature.
    pub fn verify_oracle_signature(
        &self,
        identity: &Identity,
        signature: &Vec<u8>,
        data: &Vec<u8>,
    ) -> (ok: bool)
        ensures
            ok == attested_by_oracle(self@, *identity, signature@, data@),
    {
        if !self.initialized {
            return false;
        }
        if !identity.same(&self.oracle) {
            return false;
        }
        signature_accepted(&self.oracle, data.as_slice(), signature.as_slice())
    }

    /// Declares `winner`, given whether the report was attested by the
    /// oracle.
    ///
    /// A winner is declared only during the match phase and only on an
    /// attested report; the result phase then begins. On an error nothing is
    /// changed.
    pub fn end_match(&mut self, winner: Team, attested: bool) -> (r: Result<(), ProgramError>)
        requires
            old(self).wf(),
        ensures
            final(self).wf(),
            match r {
                Ok(()) => {
                    &&& result_rejection(old(self)@, attested) is None
                    &&& final(self)@ == old(self)@.after_result(winner)
                },
                Err(e) => {
                    &&& result_rejection(old(self)@, attested) == Some(e)
                    &&& *final(self) == *old(self)
                },
            },
    {
        match self.phase {
            ContractPhase::Match => {},
            _ => {
                return Err(ProgramError::InvalidPhaseTransition);
            },
        }
        if !attested {
            return Err(ProgramError::OracleVerificationFailed);
        }
        self.current_match.match_state.match_result = Some(winner);
        self.phase = ContractPhase::Result;
        Ok(())
    }

    /// Takes the oracle's report of the winner: checks that it comes from
    /// the trusted oracle and, if so, declares `new_result`.
    pub fn update_match_result(
        &mut self,
        identity: &Identity,
        new_result: Team,
        oracle_sig: &Vec<u8>,
        oracle_data: &Vec<u8>,
    ) -> (r: Result<(), ProgramError>)
        requires
            old(self).wf(),
        ensures
            final(self).wf(),
            match r {
                Ok(()) => {
                    &&& result_rejection(
                        old(self)@,
                        attested_by_oracle(old(self)@, *identity, oracle_sig@, oracle_data@),
                    ) is None
                    &&& final(self)@ == old(self)@.after_result(new_result)
                },
                Err(e) => {
                    &&& result_rejection(
                        old(self)@,
                        attested_by_oracle(old(self)@, *identity, oracle_sig@, oracle_data@),
                    ) == Some(e)
                    &&& *final(self) == *old(self)
                },
            },
    {
        let attested = self.verify_oracle_signature(identity, oracle_sig, oracle_data);
        self.end_match(new_result, attested)
    }

    /// Moves the contract to `new_phase`, if that is a move that can be
    /// asked for: locking the round, or settling it.
    ///
    /// Settling hands back the payouts. A lock refused for an empty side
    /// hands back the refunds inside the rejection and begins a new round.
    /// Every other refusal changes nothing.
    pub fn change_phase(&mut self, new_phase: ContractPhase) -> (r: Result<
        Vec<Transfer>,
        Rejection,
    >)
        requires
            old(self).wf(),
        ensures
            final(self).wf(),
            match r {
                Ok(transfers) => {
                    &&& transition_rejection(old(self)@, new_phase) is None
                    &&& old(self)@.phase == ContractPhase::Betting ==> {
                        &&& transfers@.len() == 0
                        &&& final(self)@ == old(self)@.after_lock()
                    }
                    &&& old(self)@.phase == ContractPhase::Result ==> {
                        &&& transfers@ == payouts_due(old(self)@)
                        &&& final(self)@ == old(self)@.after_reset()
                    }
                },
                Err(rejection) => {
                    &&& transition_rejection(old(self)@, new_phase) == Some(rejection.kind)
                    &&& rejection.kind == ProgramError::EmptyPool ==> {
                        &&& rejection.refunds@ == crate::ledger::refunds_of(old(self)@.bets)
                        &&& final(self)@ == old(self)@.after_reset()
                    }
                    &&& rejection.kind != ProgramError::EmptyPool ==> {
                        &&& rejection.refunds@.len() == 0
                        &&& *final(self) == *old(self)
                    }
                },
            },
    {
        match (self.phase, new_phase) {
            (ContractPhase::Betting, ContractPhase::Match) => {
                match self.start_match() {
                    Ok(()) => Ok(Vec::new()),
                    Err(rejection) => Err(rejection),
                }
            },
            (ContractPhase::Result, ContractPhase::Betting) => {
                match self.distribute_payouts() {
                    Ok(payouts) => Ok(payouts),
                    Err(kind) => Err(Rejection { kind, refunds: Vec::new() }),
                }
            },
            _ => Err(Rejection { kind: ProgramError::InvalidPhaseTransition, refunds: Vec::new() }),
        }
    }
}

} // verus!
