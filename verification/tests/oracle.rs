use ed25519_dalek::{Keypair, PublicKey, SecretKey, Signer};
use solana_program::pubkey::Pubkey;
use soltybet::accounts::{ContractPhase, ContractState, Team};
use soltybet::accounts::Bet;
use soltybet::address::check_derived;
use soltybet::errors::ProgramError;
use soltybet::identity::Identity;

fn keys(seed: u8) -> Keypair {
    let secret = SecretKey::from_bytes(&[seed; 32]).unwrap();
    let public = PublicKey::from(&secret);
    Keypair { secret, public }
}

fn identity_of(pair: &Keypair) -> Identity {
    Identity::new(pair.public.to_bytes())
}

fn locked_contract(oracle: Identity) -> ContractState {
    let mut state = ContractState::initialize(oracle);
    for (n, team) in [(1u8, Team::Red), (2u8, Team::Blue)] {
        let bet = Bet { user: Identity::new([n; 32]), team, amount: 100, referral: None };
        state.place_bet(bet).unwrap();
    }
    state.start_match().unwrap();
    state
}

#[test]
fn oracle_signature_is_accepted() {
    let oracle = keys(7);
    let state = ContractState::initialize(identity_of(&oracle));
    let message = b"red wins round 0".to_vec();
    let signature = oracle.sign(&message).to_bytes().to_vec();
    assert!(state.verify_oracle_signature(&identity_of(&oracle), &signature, &message));
}

#[test]
fn signature_over_another_message_is_refused() {
    let oracle = keys(7);
    let state = ContractState::initialize(identity_of(&oracle));
    let signature = oracle.sign(b"red wins round 0").to_bytes().to_vec();
    let other = b"blue wins round 0".to_vec();
    assert!(!state.verify_oracle_signature(&identity_of(&oracle), &signature, &other));
    assert!(!state.verify_oracle_signature(&identity_of(&oracle), &signature, &signature));
    assert!(!state.verify_oracle_signature(&identity_of(&oracle), &other, &other));
}

#[test]
fn signature_of_another_key_is_refused() {
    let oracle = keys(7);
    let stranger = keys(8);
    let state = ContractState::initialize(identity_of(&oracle));
    let message = b"red wins round 0".to_vec();
    let forged = stranger.sign(&message).to_bytes().to_vec();
    assert!(!state.verify_oracle_signature(&identity_of(&oracle), &forged, &message));
    assert!(!state.verify_oracle_signature(&identity_of(&stranger), &forged, &message));
}

#[test]
fn valid_signature_presented_by_somebody_else_is_refused() {
    let oracle = keys(7);
    let stranger = keys(8);
    let state = ContractState::initialize(identity_of(&oracle));
    let message = b"red wins round 0".to_vec();
    let signature = oracle.sign(&message).to_bytes().to_vec();
    assert!(!state.verify_oracle_signature(&identity_of(&stranger), &signature, &message));
}

#[test]
fn malformed_signature_is_refused() {
    let oracle = keys(7);
    let state = ContractState::initialize(identity_of(&oracle));
    let message = b"red wins round 0".to_vec();
    let mut signature = oracle.sign(&message).to_bytes().to_vec();
    signature.pop();
    assert!(!state.verify_oracle_signature(&identity_of(&oracle), &signature, &message));
    assert!(!state.verify_oracle_signature(&identity_of(&oracle), &Vec::new(), &message));
    let mut flipped = oracle.sign(&message).to_bytes().to_vec();
    flipped[0] ^= 1;
    assert!(!state.verify_oracle_signature(&identity_of(&oracle), &flipped, &message));
}

#[test]
fn unconfigured_contract_trusts_nobody() {
    let oracle = keys(7);
    let mut state = ContractState::new();
    state.oracle = identity_of(&oracle);
    let message = b"red wins round 0".to_vec();
    let signature = oracle.sign(&message).to_bytes().to_vec();
    assert!(!state.verify_oracle_signature(&identity_of(&oracle), &signature, &message));
    let blank = ContractState::new();
    assert!(!blank.verify_oracle_signature(&Identity::zero(), &signature, &message));
}

#[test]
fn attested_result_is_declared() {
    let oracle = keys(7);
    let mut state = locked_contract(identity_of(&oracle));
    let message = b"blue".to_vec();
    let signature = oracle.sign(&message).to_bytes().to_vec();
    assert_eq!(
        state.update_match_result(&identity_of(&oracle), Team::Blue, &signature, &message),
        Ok(())
    );
    assert_eq!(state.phase(), ContractPhase::Result);
    assert_eq!(state.declared_outcome(), Some(Team::Blue));
    assert_eq!(state.pool_total(Team::Red), 96);
    assert_eq!(state.weights().len(), 2);
}

#[test]
fn unattested_result_changes_nothing() {
    let oracle = keys(7);
    let stranger = keys(8);
    let mut state = locked_contract(identity_of(&oracle));
    let before = state.clone();
    let message = b"blue".to_vec();
    let forged = stranger.sign(&message).to_bytes().to_vec();
    assert_eq!(
        state.update_match_result(&identity_of(&oracle), Team::Blue, &forged, &message),
        Err(ProgramError::OracleVerificationFailed)
    );
    assert_eq!(
        state.update_match_result(&identity_of(&stranger), Team::Blue, &forged, &message),
        Err(ProgramError::OracleVerificationFailed)
    );
    assert_eq!(state, before);
    assert_eq!(state.end_match(Team::Blue, false), Err(ProgramError::OracleVerificationFailed));
    assert_eq!(state, before);
}

#[test]
fn result_outside_the_match_phase_is_refused() {
    let oracle = keys(7);
    let message = b"blue".to_vec();
    let signature = oracle.sign(&message).to_bytes().to_vec();
    let mut betting = ContractState::initialize(identity_of(&oracle));
    assert_eq!(
        betting.update_match_result(&identity_of(&oracle), Team::Blue, &signature, &message),
        Err(ProgramError::InvalidPhaseTransition)
    );
    assert_eq!(betting, ContractState::initialize(identity_of(&oracle)));
    assert_eq!(betting.end_match(Team::Red, true), Err(ProgramError::InvalidPhaseTransition));
    let mut decided = locked_contract(identity_of(&oracle));
    assert_eq!(decided.end_match(Team::Red, true), Ok(()));
    let before = decided.clone();
    assert_eq!(
        decided.update_match_result(&identity_of(&oracle), Team::Blue, &signature, &message),
        Err(ProgramError::InvalidPhaseTransition)
    );
    assert_eq!(decided.end_match(Team::Blue, true), Err(ProgramError::InvalidPhaseTransition));
    assert_eq!(decided, before);
    assert_eq!(decided.declared_outcome(), Some(Team::Red));
}

#[test]
fn oracle_address_is_derived_from_its_seed() {
    let program = [3u8; 32];
    let (expected, _) = Pubkey::find_program_address(&[b"oracle"], &Pubkey::new_from_array(program));
    let state = ContractState::launch_pda_oracle(&Identity::new(program)).unwrap();
    assert_eq!(state.oracle, Identity::new(expected.to_bytes()));
    assert_ne!(state.oracle, Identity::new(program));
    assert!(state.initialized);
    assert_eq!(state, ContractState::initialize(state.oracle));
    let other = ContractState::launch_pda_oracle(&Identity::new([4u8; 32])).unwrap();
    assert_ne!(other.oracle, state.oracle);
}

#[test]
fn claimed_address_is_held_against_the_derived_one() {
    let derived = Some((Identity::new([1; 32]), 254u8));
    assert_eq!(check_derived(derived, &Identity::new([1; 32])), derived);
    assert_eq!(check_derived(derived, &Identity::new([2; 32])), None);
    assert_eq!(check_derived(None, &Identity::new([1; 32])), None);
}

#[test]
fn identities_compare_byte_by_byte() {
    let mut bytes = [5u8; 32];
    let a = Identity::new(bytes);
    bytes[31] = 6;
    let b = Identity::new(bytes);
    assert!(a.same(&a));
    assert!(!a.same(&b));
    assert!(Identity::zero().same(&Identity::new([0; 32])));
}
