//! Exercises the mock transaction-admission check and the gas meter.

use code_cache::errors::StatusCode;
use code_cache::gas_meter::GasMeter;
use code_cache::validator::{MockVMValidator, SignedTransaction};

#[test]
fn test_validate_transaction_canned_statuses() {
    let validator = MockVMValidator::new();
    let expected = [
        (0u64, Some(StatusCode::SendingAccountDoesNotExist)),
        (1u64, Some(StatusCode::InvalidSignature)),
        (2u64, Some(StatusCode::InsufficientBalanceForTransactionFee)),
        (3u64, Some(StatusCode::SequenceNumberTooNew)),
        (4u64, Some(StatusCode::SequenceNumberTooOld)),
        (5u64, Some(StatusCode::TransactionExpired)),
        (6u64, Some(StatusCode::InvalidAuthKey)),
        (7u64, None),
        (1000u64, None),
    ];
    for (sender, code) in expected {
        let r = validator.validate_transaction(SignedTransaction::new(sender, true));
        assert_eq!(r.map(|s| s.major), code);
    }
}

#[test]
fn test_validate_transaction_bad_signature() {
    let validator = MockVMValidator::new();
    let r = validator.validate_transaction(SignedTransaction::new(9, false));
    assert_eq!(r.unwrap().major, StatusCode::InvalidSignature);
}

#[test]
fn test_gas_meter_charges_and_exhausts() {
    let mut gas = GasMeter::new(3);
    assert!(gas.charge(1).is_ok());
    assert_eq!(gas.remaining, 2);
    assert!(gas.charge(2).is_ok());
    assert_eq!(gas.remaining, 0);
    let r = gas.charge(1);
    assert_eq!(r.unwrap_err().major, StatusCode::OutOfGas);
    assert_eq!(gas.remaining, 0);
}
