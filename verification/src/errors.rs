//! Error taxonomy of the resolution core.
//!
//! Genuine faults (verification failure, linkage inconsistency, gas
//! exhaustion, protocol misuse) surface as a `VMStatus` carried in the `Err`
//! arm of a `VMResult`.  The absence of a module or member is *not* a fault:
//! it travels as `Ok(None)` through every level of resolution.

use vstd::prelude::*;

verus! {

/// The kind of fault that aborted an operation.
#[derive(Clone, Copy, PartialEq, Eq, Structural, Debug)]
pub enum StatusCode {
    /// A module is present and verified but lacks a name or a native-type
    /// registration that a dependent expected: the chain state is
    /// internally inconsistent.
    LinkerError,
    /// The bytecode checker rejected a module yet reported no error at all;
    /// an internal fault of the checker, not of the dependency graph.
    VerifierInvariantViolation,
    /// The gas meter ran out of budget in the middle of a resolution chain.
    OutOfGas,
    /// A type-parameter index fell outside its substitution context.
    TypeResolutionFailure,
    /// A protocol guard was hit: the operation is never legal on this tier.
    Unreachable,
    /// The transaction's signature does not check out.
    InvalidSignature,
    /// The sending account does not exist.
    SendingAccountDoesNotExist,
    /// The sender cannot pay the transaction fee.
    InsufficientBalanceForTransactionFee,
    /// The transaction's sequence number is ahead of the account's.
    SequenceNumberTooNew,
    /// The transaction's sequence number is behind the account's.
    SequenceNumberTooOld,
    /// The transaction expired before it was admitted.
    TransactionExpired,
    /// The authentication key does not match the sending account.
    InvalidAuthKey,
}

/// A fault report: the major status code of what went wrong.
#[derive(Clone, Copy, PartialEq, Eq, Structural, Debug)]
pub struct VMStatus {
    pub major: StatusCode,
}

impl VMStatus {
    pub fn new(major: StatusCode) -> (r: VMStatus)
        ensures
            r.major == major,
    {
        VMStatus { major }
    }
}

/// Every fallible operation of the core reports faults as a `VMStatus`.
pub type VMResult<T> = Result<T, VMStatus>;

} // verus!
