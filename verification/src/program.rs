//! Configuring the oracle of a deployed contract.

use vstd::prelude::*;
use crate::accounts::ContractState;
use crate::errors::ProgramError;
use crate::identity::Identity;
use crate::states::StateModel;

verus! {

/// Why the oracle of `state` cannot be configured by `user`, if it cannot.
///
/// Only the deployer, `authority`, may configure the oracle, and only once.
pub open spec fn initialize_rejection(state: StateModel, user: Identity, authority: Identity)
    -> Option<ProgramError> {
    if user != authority {
        Some(ProgramError::Unauthorized)
    } else if state.initialized {
        Some(ProgramError::AlreadyInitialized)
    } else {
        None
    }
}

/// Configures `oracle` as the trusted oracle of `state`, on behalf of `user`.
///
/// Nothing but the oracle and the mark that it is configured changes. On an
/// error nothing changes at all.
pub fn initialize(
    state: &mut ContractState,
    user: &Identity,
    authority: &Identity,
    oracle: Identity,
) -> (r: Result<(), ProgramError>)
    requires
        old(state).wf(),
    ensures
        final(state).wf(),
        match r {
            Ok(()) => {
                &&& initialize_rejection(old(state)@, *user, *authority) is None
                &&& final(state)@ == old(state)@.after_initialize(oracle)
            },
            Err(e) => {
                &&& initialize_rejection(old(state)@, *user, *authority) == Some(e)
                &&& *final(state) == *old(state)
            },
        },
{
    if !user.same(authority) {
        return Err(ProgramError::Unauthorized);
    }
    if state.initialized {
        return Err(ProgramError::AlreadyInitialized);
    }
    state.oracle = oracle;
    state.initialized = true;
    Ok(())
}

} // verus!
