use ledger_engine::account::{Account, AccountError, AccountRecord};
use ledger_engine::amount::Amount;
use ledger_engine::error::Error;

fn amount(text: &str) -> Amount {
    Amount::parse(text).unwrap()
}

fn three_transactions() -> Account {
    let mut account = Account::new(1);
    account.deposit(1, amount("100.0"));
    account.deposit(2, amount("50.0"));
    account.withdraw(3, amount("30.0"));
    account
}

#[test]
fn deposits_and_withdrawals_sum_up() {
    let account = three_transactions();
    assert_eq!(account.available(), amount("120.0"));
    assert_eq!(account.held(), Amount::zero());
    assert!(!account.is_locked());
}

#[test]
fn dispute_then_resolve_moves_funds_there_and_back() {
    let mut account = three_transactions();
    assert_eq!(account.dispute(1), Ok(()));
    assert_eq!(account.available(), amount("20.0"));
    assert_eq!(account.held(), amount("100.0"));
    assert_eq!(account.resolve(1), Ok(()));
    assert_eq!(account.available(), amount("120.0"));
    assert_eq!(account.held(), Amount::zero());
}

#[test]
fn chargeback_removes_funds_and_locks() {
    let mut account = Account::new(1);
    account.deposit(1, amount("100.0"));
    assert_eq!(account.dispute(1), Ok(()));
    assert_eq!(account.chargeback(1), Ok(()));
    assert_eq!(account.available(), Amount::zero());
    assert_eq!(account.held(), Amount::zero());
    assert!(account.is_locked());
}

#[test]
fn latest_amount_of_a_reused_id_is_disputed() {
    let mut account = Account::new(1);
    account.deposit(1, amount("100.0"));
    account.deposit(1, amount("50.0"));
    assert_eq!(account.dispute(1), Ok(()));
    assert_eq!(account.held(), amount("50.0"));
    assert_eq!(account.available(), amount("100.0"));
}

#[test]
fn total_is_unchanged_by_dispute_and_resolve() {
    let mut account = three_transactions();
    assert_eq!(account.total(), amount("120.0"));
    account.dispute(2).unwrap();
    assert_eq!(account.total(), amount("120.0"));
    account.dispute(3).unwrap();
    assert_eq!(account.total(), amount("120.0"));
    account.resolve(2).unwrap();
    assert_eq!(account.total(), amount("120.0"));
}

#[test]
fn total_drops_by_what_is_charged_back() {
    let mut account = three_transactions();
    account.dispute(2).unwrap();
    account.chargeback(2).unwrap();
    assert_eq!(account.total(), amount("70.0"));
}

#[test]
fn dispute_after_resolve_repeats_the_first_dispute() {
    let mut account = three_transactions();
    account.dispute(1).unwrap();
    let (available, held) = (account.available(), account.held());
    account.resolve(1).unwrap();
    account.dispute(1).unwrap();
    assert_eq!(account.available(), available);
    assert_eq!(account.held(), held);
    assert!(account.is_disputed(1));
    assert!(!account.is_disputable(1));
}

#[test]
fn refused_requests_change_nothing() {
    let mut account = three_transactions();
    account.dispute(1).unwrap();
    let before = account.snapshot();
    assert_eq!(account.dispute(1), Err(AccountError::NoTransaction(1)));
    assert_eq!(account.dispute(9), Err(AccountError::NoTransaction(9)));
    assert_eq!(account.resolve(2), Err(AccountError::NoDispute(2)));
    assert_eq!(account.chargeback(2), Err(AccountError::NoDispute(2)));
    assert_eq!(account.snapshot(), before);
    assert!(account.is_disputed(1));
    assert!(account.is_disputable(2));
}

#[test]
fn charged_back_transaction_is_closed_for_good() {
    let mut account = three_transactions();
    account.dispute(1).unwrap();
    account.chargeback(1).unwrap();
    assert_eq!(account.dispute(1), Err(AccountError::NoTransaction(1)));
    assert_eq!(account.resolve(1), Err(AccountError::NoDispute(1)));
    assert_eq!(account.chargeback(1), Err(AccountError::NoDispute(1)));
    account.deposit(7, amount("1.0"));
    account.dispute(7).unwrap();
    account.resolve(7).unwrap();
    assert!(account.is_locked());
    assert_eq!(account.dispute(1), Err(AccountError::NoTransaction(1)));
}

#[test]
fn locked_account_still_takes_transactions() {
    let mut account = Account::new(3);
    account.deposit(1, amount("10.0"));
    account.dispute(1).unwrap();
    account.chargeback(1).unwrap();
    account.deposit(2, amount("5.0"));
    account.withdraw(3, amount("1.5"));
    assert_eq!(account.available(), amount("3.5"));
    assert!(account.is_locked());
}

#[test]
fn snapshot_reports_four_fractional_digits() {
    let mut account = three_transactions();
    account.dispute(2).unwrap();
    let record = account.snapshot();
    assert_eq!(record.client, 1);
    assert_eq!(record.available, "70.0000");
    assert_eq!(record.held, "50.0000");
    assert_eq!(record.total, "120.0000");
    assert!(!record.locked);
    assert_eq!(AccountRecord::from(account), record);
}

#[test]
fn accessors_agree_with_fields() {
    let account = three_transactions();
    assert_eq!(account.client(), account.client);
    assert_eq!(account.available(), account.funds_available);
    assert_eq!(account.held(), account.funds_held);
    assert_eq!(account.is_locked(), account.locked);
}

#[test]
fn default_account_is_fresh() {
    let account = Account::default();
    assert_eq!(account.client(), 0);
    assert_eq!(account.available(), Amount::zero());
    assert_eq!(account.held(), Amount::zero());
    assert!(!account.is_locked());
    assert!(!account.is_disputable(0));
    assert!(!account.is_disputed(0));
}

#[test]
fn account_failure_gets_the_line() {
    assert!(matches!(
        Error::from_account(AccountError::NoTransaction(7), 3),
        Error::NoTransaction(7, 3)
    ));
    assert!(matches!(
        Error::from_account(AccountError::NoDispute(8), 4),
        Error::NoDispute(8, 4)
    ));
}
