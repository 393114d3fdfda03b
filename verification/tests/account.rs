use payments_engine::account::{Account, AccountError};
use payments_engine::amount::{Amount, MAX_MANTISSA};
use rust_decimal::Decimal;
use std::str::FromStr;

fn dec(text: &str) -> Amount {
    let decimal = Decimal::from_str(text).unwrap();
    Amount::new(decimal.mantissa(), decimal.scale()).unwrap()
}

fn assert_balanced(account: &Account) {
    assert_eq!(account.available.checked_add(account.held), Some(account.total));
}

#[test]
fn account_test_deposit() {
    let mut account = Account::empty(123);
    account.deposit(dec("100")).unwrap();

    assert_eq!(account.available, dec("100"));
    assert_eq!(account.total, dec("100"));
}

#[test]
fn test_withdraw() {
    let mut account = Account::empty(123);
    account.deposit(dec("100")).unwrap();
    account.withdraw(dec("50")).unwrap();

    assert_eq!(account.available, dec("50"));
    assert_eq!(account.total, dec("50"));
}

#[test]
fn test_withdraw_insufficient_available_funds() {
    let mut account = Account::empty(123);
    assert!(account.withdraw(dec("50")).is_err());
}

#[test]
fn account_test_dispute() {
    let mut account = Account::empty(123);
    account.deposit(dec("100")).unwrap();
    account.dispute(dec("50")).unwrap();

    assert_eq!(account.available, dec("50"));
    assert_eq!(account.held, dec("50"));
    assert_eq!(account.total, dec("100"));
}

#[test]
fn test_dispute_insufficient_available_funds() {
    let mut account = Account::empty(123);
    assert!(account.dispute(dec("50")).is_err());
}

#[test]
fn account_test_resolve() {
    let mut account = Account::empty(123);
    account.deposit(dec("100")).unwrap();
    account.dispute(dec("50")).unwrap();
    account.resolve(dec("50")).unwrap();

    assert_eq!(account.available, dec("100"));
    assert_eq!(account.held, dec("0"));
    assert_eq!(account.total, dec("100"));
}

#[test]
fn test_resolve_insufficient_held_funds() {
    let mut account = Account::empty(123);
    assert!(account.resolve(dec("50")).is_err());
}

#[test]
fn account_test_chargeback() {
    let mut account = Account::empty(123);
    account.deposit(dec("100")).unwrap();
    account.dispute(dec("50")).unwrap();
    account.chargeback(dec("50")).unwrap();

    assert_eq!(account.available, dec("50"));
    assert_eq!(account.held, dec("0"));
    assert_eq!(account.total, dec("50"));
}

#[test]
fn test_chargeback_insufficient_held_funds() {
    let mut account = Account::empty(123);
    assert!(account.chargeback(dec("50")).is_err());
}

#[test]
fn empty_account_is_zero_and_unlocked() {
    let account = Account::empty(7);
    assert_eq!(account.client, 7);
    assert_eq!(account.available, Amount::zero());
    assert_eq!(account.held, Amount::zero());
    assert_eq!(account.total, Amount::zero());
    assert!(!account.locked);
}

#[test]
fn new_account_has_the_sum_as_total() {
    let account = Account::new(5, dec("1.25"), dec("7.5"), true);
    assert_eq!(account.client, 5);
    assert_eq!(account.available, dec("1.25"));
    assert_eq!(account.held, dec("7.5"));
    assert_eq!(account.total, dec("8.75"));
    assert!(account.locked);
}

#[test]
fn try_new_gives_the_same_account_as_new() {
    let account = Account::try_new(5, dec("1.25"), dec("7.5"), false);
    assert_eq!(account, Some(Account::new(5, dec("1.25"), dec("7.5"), false)));
}

#[test]
fn try_new_refuses_a_total_out_of_range() {
    let largest = Amount::new(MAX_MANTISSA, 0).unwrap();
    assert_eq!(Account::try_new(5, largest, dec("1"), false), None);
}

#[test]
fn withdraw_names_insufficient_available_funds() {
    let mut account = Account::empty(1);
    account.deposit(dec("10")).unwrap();
    let before = account;
    assert_eq!(account.withdraw(dec("10.01")), Err(AccountError::InsufficientAvailableFunds));
    assert_eq!(account, before);
}

#[test]
fn withdraw_of_all_that_is_available_goes_through() {
    let mut account = Account::empty(1);
    account.deposit(dec("10")).unwrap();
    assert_eq!(account.withdraw(dec("10.00")), Ok(()));
    assert_eq!(account.available, Amount::zero());
    assert_eq!(account.total, Amount::zero());
}

#[test]
fn dispute_names_insufficient_available_funds() {
    let mut account = Account::empty(1);
    account.deposit(dec("10")).unwrap();
    let before = account;
    assert_eq!(account.dispute(dec("11")), Err(AccountError::InsufficientAvailableFunds));
    assert_eq!(account, before);
}

#[test]
fn resolve_names_insufficient_held_funds() {
    let mut account = Account::empty(1);
    account.deposit(dec("10")).unwrap();
    account.dispute(dec("4")).unwrap();
    let before = account;
    assert_eq!(account.resolve(dec("5")), Err(AccountError::InsufficientHeldFunds));
    assert_eq!(account, before);
}

#[test]
fn chargeback_names_insufficient_held_funds() {
    let mut account = Account::empty(1);
    account.deposit(dec("10")).unwrap();
    account.dispute(dec("4")).unwrap();
    let before = account;
    assert_eq!(account.chargeback(dec("5")), Err(AccountError::InsufficientHeldFunds));
    assert_eq!(account, before);
    assert!(!account.locked);
}

#[test]
fn chargeback_locks_the_account() {
    let mut account = Account::empty(1);
    account.deposit(dec("10")).unwrap();
    account.dispute(dec("4")).unwrap();
    assert!(!account.locked);
    account.chargeback(dec("4")).unwrap();
    assert!(account.locked);
    assert_eq!(account.available, dec("6"));
    assert_eq!(account.held, dec("0"));
    assert_eq!(account.total, dec("6"));
}

#[test]
fn locked_account_still_takes_deposits_and_withdrawals() {
    let mut account = Account::new(1, dec("10"), dec("0"), true);
    account.deposit(dec("5")).unwrap();
    account.withdraw(dec("3")).unwrap();
    assert_eq!(account.available, dec("12"));
    assert_eq!(account.total, dec("12"));
    assert!(account.locked);
}

#[test]
fn deposit_out_of_range_changes_nothing() {
    let mut account = Account::empty(1);
    account.deposit(Amount::new(MAX_MANTISSA, 0).unwrap()).unwrap();
    let before = account;
    assert_eq!(account.deposit(dec("1")), Err(AccountError::AmountOutOfRange));
    assert_eq!(account, before);
}

#[test]
fn deposit_that_would_be_rounded_is_out_of_range() {
    let mut account = Account::empty(1);
    account.deposit(Amount::new(MAX_MANTISSA, 0).unwrap()).unwrap();
    let before = account;
    assert_eq!(account.deposit(dec("-0.4")), Err(AccountError::AmountOutOfRange));
    assert_eq!(account, before);
}

#[test]
fn negative_amounts_are_not_refused() {
    let mut account = Account::empty(1);
    account.deposit(dec("-5")).unwrap();
    assert_eq!(account.available, dec("-5"));
    assert_eq!(account.total, dec("-5"));
    account.withdraw(dec("-7")).unwrap();
    assert_eq!(account.available, dec("2"));
    assert_eq!(account.total, dec("2"));
}

#[test]
fn total_is_available_and_held_together_after_every_operation() {
    let mut account = Account::empty(9);
    assert_balanced(&account);
    account.deposit(dec("3.1234")).unwrap();
    assert_balanced(&account);
    account.withdraw(dec("0.1")).unwrap();
    assert_balanced(&account);
    account.dispute(dec("1.5")).unwrap();
    assert_balanced(&account);
    account.resolve(dec("0.5")).unwrap();
    assert_balanced(&account);
    account.chargeback(dec("1")).unwrap();
    assert_balanced(&account);
    assert_eq!(account.available, dec("2.0234"));
    assert_eq!(account.held, dec("0"));
    assert_eq!(account.total, dec("2.0234"));
}

#[test]
fn balances_stay_at_or_above_zero_within_the_preconditions() {
    let mut account = Account::empty(9);
    account.deposit(dec("10")).unwrap();
    account.dispute(dec("10")).unwrap();
    account.chargeback(dec("10")).unwrap();
    for balance in [account.available, account.held, account.total] {
        assert!(!balance.is_negative());
    }
    assert_eq!(account.total, Amount::zero());
}

#[test]
fn account_errors_in_words() {
    assert_eq!(
        AccountError::InsufficientAvailableFunds.message(),
        "Insufficient available funds"
    );
    assert_eq!(AccountError::InsufficientHeldFunds.message(), "Insufficient held funds");
    assert_eq!(AccountError::AmountOutOfRange.message(), "Amount out of range");
}
