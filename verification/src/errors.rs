//! Every way an operation can fail.

use vstd::prelude::*;

verus! {

/// The failure kinds of the wagering ledger.
///
/// All of them but `TransferUnavailable` abort the operation that raised them
/// and leave the state as it was. `TransferUnavailable` is reported per
/// recipient inside an otherwise successful result.
#[derive(Clone, Copy, Debug, PartialEq, Eq, Structural)]
pub enum ProgramError {
    /// The caller is not the deployer.
    Unauthorized,
    /// The oracle has already been configured.
    AlreadyInitialized,
    /// A stake was offered outside the betting phase.
    PhaseViolation,
    /// A stake of zero was offered.
    InvalidAmount,
    /// One side of the pool holds nothing.
    EmptyPool,
    /// The requested phase change is not one the state machine allows.
    InvalidPhaseTransition,
    /// The reported result was not attested by the trusted oracle.
    OracleVerificationFailed,
    /// Settlement was asked for before a winner was declared.
    NoWinnerSet,
    /// An amount does not fit in 64 bits.
    ArithmeticOverflow,
    /// A recipient's destination cannot receive a transfer right now.
    TransferUnavailable,
}

} // verus!
