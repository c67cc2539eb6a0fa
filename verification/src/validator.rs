//! A mock transaction-admission check.
//!
//! The surrounding system admits a transaction only after a simple
//! validation step; this mock drives that path in tests without a real
//! virtual machine.  It answers with a canned status chosen by the
//! sender's address: each of a handful of well-known test addresses
//! stands for one rejection reason, and any other sender is admitted.

use vstd::prelude::*;
use crate::errors::{StatusCode, VMStatus};

verus! {

/// What the admission check reads off a signed transaction: the sending
/// account's address and whether the signature checks out against it.
#[derive(Clone, Copy, PartialEq, Eq, Structural, Debug)]
pub struct SignedTransaction {
    pub sender: u64,
    pub good_signature: bool,
}

impl SignedTransaction {
    pub fn new(sender: u64, good_signature: bool) -> (r: SignedTransaction)
        ensures
            r.sender == sender,
            r.good_signature == good_signature,
    {
        SignedTransaction { sender, good_signature }
    }
}

/// The canned status the mock validator answers for a sender address,
/// once the signature has checked out: `None` admits the transaction.
pub open spec fn spec_mock_status(sender: u64) -> Option<VMStatus> {
    if sender == 0 {
        Some(VMStatus { major: StatusCode::SendingAccountDoesNotExist })
    } else if sender == 1 {
        Some(VMStatus { major: StatusCode::InvalidSignature })
    } else if sender == 2 {
        Some(VMStatus { major: StatusCode::InsufficientBalanceForTransactionFee })
    } else if sender == 3 {
        Some(VMStatus { major: StatusCode::SequenceNumberTooNew })
    } else if sender == 4 {
        Some(VMStatus { major: StatusCode::SequenceNumberTooOld })
    } else if sender == 5 {
        Some(VMStatus { major: StatusCode::TransactionExpired })
    } else if sender == 6 {
        Some(VMStatus { major: StatusCode::InvalidAuthKey })
    } else {
        None
    }
}

/// A validator that admits or rejects by the sender's address alone.
#[derive(Clone, Copy, PartialEq, Eq, Structural, Debug)]
pub struct MockVMValidator;

impl MockVMValidator {
    pub fn new() -> (r: MockVMValidator)
        ensures
            r == (MockVMValidator),
    {
        MockVMValidator
    }

    /// Rejects a transaction whose signature does not check out, then
    /// answers the canned status for the sender: address 0 stands for a
    /// missing account, 1 for a bad signature, 2 for an unpayable fee, 3
    /// and 4 for a sequence number too new or too old, 5 for an expired
    /// transaction, 6 for a wrong authentication key; any other sender is
    /// admitted.
    pub fn validate_transaction(&self, txn: SignedTransaction) -> (r: Option<VMStatus>)
        ensures
            !txn.good_signature ==> r == Some(VMStatus { major: StatusCode::InvalidSignature }),
            txn.good_signature ==> r == spec_mock_status(txn.sender),
    {
        if !txn.good_signature {
            return Some(VMStatus::new(StatusCode::InvalidSignature));
        }
        let sender = txn.sender;
        let account_dne_test_add: u64 = 0;
        let invalid_sig_test_add: u64 = 1;
        let insufficient_balance_test_add: u64 = 2;
        let seq_number_too_new_test_add: u64 = 3;
        let seq_number_too_old_test_add: u64 = 4;
        let txn_expiration_time_test_add: u64 = 5;
        let invalid_auth_key_test_add: u64 = 6;
        if sender == account_dne_test_add {
            Some(VMStatus::new(StatusCode::SendingAccountDoesNotExist))
        } else if sender == invalid_sig_test_add {
            Some(VMStatus::new(StatusCode::InvalidSignature))
        } else if sender == insufficient_balance_test_add {
            Some(VMStatus::new(StatusCode::InsufficientBalanceForTransactionFee))
        } else if sender == seq_number_too_new_test_add {
            Some(VMStatus::new(StatusCode::SequenceNumberTooNew))
        } else if sender == seq_number_too_old_test_add {
            Some(VMStatus::new(StatusCode::SequenceNumberTooOld))
        } else if sender == txn_expiration_time_test_add {
            Some(VMStatus::new(StatusCode::TransactionExpired))
        } else if sender == invalid_auth_key_test_add {
            Some(VMStatus::new(StatusCode::InvalidAuthKey))
        } else {
            None
        }
    }
}

} // verus!
