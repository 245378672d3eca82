use ledger_engine::error::Error;
use ledger_engine::reader::{
    parse_scaled_value, parse_transaction_type, trim_ascii, TransactionType,
};

#[test]
fn test_trim_ascii() {
    assert_eq!(trim_ascii(b"  hello  "), b"hello");
    assert_eq!(trim_ascii(b"hello"), b"hello");
    assert_eq!(trim_ascii(b"  "), b"");
    assert_eq!(trim_ascii(b""), b"");
    assert_eq!(trim_ascii(b" \t\n"), b"");
}

#[test]
fn test_parse_transaction_type() {
    assert!(matches!(parse_transaction_type(b"deposit", 1), Ok(TransactionType::Deposit)));
    assert!(matches!(parse_transaction_type(b"withdrawal", 1), Ok(TransactionType::Withdrawal)));
    assert!(matches!(parse_transaction_type(b"dispute", 1), Ok(TransactionType::Dispute)));
    assert!(matches!(parse_transaction_type(b"resolve", 1), Ok(TransactionType::Resolve)));
    assert!(matches!(parse_transaction_type(b"chargeback", 1), Ok(TransactionType::Chargeback)));
    assert!(matches!(parse_transaction_type(b"invalid", 1), Err(Error::UnknownTransactionType(1))));
    assert!(matches!(parse_transaction_type(b"  deposit  ", 1), Ok(TransactionType::Deposit)));
}

#[test]
fn test_parse_mu_u32_1e4() {
    // Valid amounts
    assert!(parse_scaled_value(b"100.0", 1).unwrap().is_some());
    assert!(parse_scaled_value(b"0.1234", 1).unwrap().is_some());
    assert!(parse_scaled_value(b"  50.25  ", 1).unwrap().is_some());

    // Empty amount
    assert!(parse_scaled_value(b"", 1).unwrap().is_none());
    assert!(parse_scaled_value(b"   ", 1).unwrap().is_none());

    // Negative amount should error
    assert!(matches!(parse_scaled_value(b"-100.0", 1), Err(Error::NegativeAmount(1))));
}
