use payments_engine::account::{Account, AccountError};
use payments_engine::account_repository::AccountRepository;
use payments_engine::amount::{Amount, MAX_MANTISSA};
use payments_engine::cached_amounts::CachedAmounts;
use payments_engine::failure::{Failure, TransactionError};
use payments_engine::ledger::{apply, replay};
use payments_engine::transaction::{Transaction, TransactionKind};

fn sum_of(mantissa: i128, scale: u32) -> Amount {
    Amount::new(mantissa, scale).unwrap()
}

struct Tables {
    accounts: AccountRepository,
    applied: CachedAmounts,
    disputed: CachedAmounts,
}

fn tables() -> Tables {
    Tables {
        accounts: AccountRepository::new(),
        applied: CachedAmounts::new(),
        disputed: CachedAmounts::new(),
    }
}

fn run(
    t: &mut Tables,
    kind: &str,
    client: u16,
    tx: u32,
    amount: Amount,
) -> Result<(), TransactionError> {
    let transaction = Transaction::new(kind.to_string(), client, tx, amount);
    apply(&mut t.accounts, &mut t.applied, &mut t.disputed, &transaction)
}

#[test]
fn deposit_is_applied_and_remembered() {
    let mut t = tables();
    assert_eq!(run(&mut t, "deposit", 1, 10, sum_of(25, 1)), Ok(()));
    assert_eq!(t.applied.get(10), Some(sum_of(25, 1)));
    assert_eq!(t.disputed.get(10), None);
    assert_eq!(t.accounts.all(), vec![Account::new(1, sum_of(25, 1), sum_of(0, 0), false)]);
}

#[test]
fn refused_withdrawal_is_not_remembered() {
    let mut t = tables();
    assert_eq!(
        run(&mut t, "withdrawal", 1, 10, sum_of(25, 1)),
        Err(TransactionError {
            tx: 10,
            failure: Failure::Refused(AccountError::InsufficientAvailableFunds)
        })
    );
    assert_eq!(t.applied.get(10), None);
    assert_eq!(t.accounts.all(), vec![Account::empty(1)]);
}

#[test]
fn withdrawal_is_remembered_and_can_be_disputed() {
    let mut t = tables();
    run(&mut t, "deposit", 1, 1, sum_of(10, 0)).unwrap();
    run(&mut t, "withdrawal", 1, 2, sum_of(4, 0)).unwrap();
    assert_eq!(t.applied.get(2), Some(sum_of(4, 0)));
    run(&mut t, "dispute", 1, 2, sum_of(0, 0)).unwrap();
    assert_eq!(t.disputed.get(2), Some(sum_of(4, 0)));
    assert_eq!(t.accounts.all(), vec![Account::new(1, sum_of(2, 0), sum_of(4, 0), false)]);
}

#[test]
fn deposit_out_of_range_is_refused() {
    let mut t = tables();
    run(&mut t, "deposit", 1, 1, sum_of(MAX_MANTISSA, 0)).unwrap();
    assert_eq!(
        run(&mut t, "deposit", 1, 2, sum_of(1, 0)),
        Err(TransactionError { tx: 2, failure: Failure::Refused(AccountError::AmountOutOfRange) })
    );
    assert_eq!(t.applied.get(2), None);
}

#[test]
fn dispute_of_unknown_transaction_is_not_applied() {
    let mut t = tables();
    run(&mut t, "deposit", 1, 1, sum_of(10, 0)).unwrap();
    assert_eq!(
        run(&mut t, "dispute", 1, 999, sum_of(0, 0)),
        Err(TransactionError { tx: 999, failure: Failure::NotApplied })
    );
    assert_eq!(t.disputed.get(999), None);
    assert_eq!(t.accounts.all(), vec![Account::new(1, sum_of(10, 0), sum_of(0, 0), false)]);
}

#[test]
fn dispute_beyond_what_is_available_is_refused() {
    let mut t = tables();
    run(&mut t, "deposit", 1, 1, sum_of(10, 0)).unwrap();
    run(&mut t, "withdrawal", 1, 2, sum_of(4, 0)).unwrap();
    assert_eq!(
        run(&mut t, "dispute", 1, 1, sum_of(0, 0)),
        Err(TransactionError {
            tx: 1,
            failure: Failure::DisputeRefused(AccountError::InsufficientAvailableFunds)
        })
    );
    assert_eq!(t.disputed.get(1), None);
    assert_eq!(t.accounts.all(), vec![Account::new(1, sum_of(6, 0), sum_of(0, 0), false)]);
}

#[test]
fn resolve_of_undisputed_transaction_is_not_disputed() {
    let mut t = tables();
    run(&mut t, "deposit", 1, 1, sum_of(10, 0)).unwrap();
    assert_eq!(
        run(&mut t, "resolve", 1, 1, sum_of(0, 0)),
        Err(TransactionError { tx: 1, failure: Failure::NotDisputed })
    );
    assert_eq!(
        run(&mut t, "chargeback", 1, 1, sum_of(0, 0)),
        Err(TransactionError { tx: 1, failure: Failure::NotDisputed })
    );
}

#[test]
fn resolve_beyond_what_is_held_is_refused() {
    let mut t = tables();
    run(&mut t, "deposit", 1, 1, sum_of(10, 0)).unwrap();
    run(&mut t, "dispute", 1, 1, sum_of(0, 0)).unwrap();
    assert_eq!(
        run(&mut t, "resolve", 2, 1, sum_of(0, 0)),
        Err(TransactionError {
            tx: 1,
            failure: Failure::ResolveRefused(AccountError::InsufficientHeldFunds)
        })
    );
    assert_eq!(t.disputed.get(1), Some(sum_of(10, 0)));
}

#[test]
fn chargeback_beyond_what_is_held_is_refused() {
    let mut t = tables();
    run(&mut t, "deposit", 1, 1, sum_of(10, 0)).unwrap();
    run(&mut t, "dispute", 1, 1, sum_of(0, 0)).unwrap();
    assert_eq!(
        run(&mut t, "chargeback", 2, 1, sum_of(0, 0)),
        Err(TransactionError {
            tx: 1,
            failure: Failure::ChargebackRefused(AccountError::InsufficientHeldFunds)
        })
    );
    assert_eq!(t.disputed.get(1), Some(sum_of(10, 0)));
    let mut accounts = t.accounts.all();
    accounts.sort_by_key(|account| account.client);
    assert_eq!(
        accounts,
        vec![Account::new(1, sum_of(0, 0), sum_of(10, 0), false), Account::empty(2)]
    );
}

#[test]
fn resolve_and_chargeback_forget_the_dispute() {
    let mut t = tables();
    run(&mut t, "deposit", 1, 1, sum_of(10, 0)).unwrap();
    run(&mut t, "deposit", 1, 2, sum_of(20, 0)).unwrap();
    run(&mut t, "dispute", 1, 1, sum_of(0, 0)).unwrap();
    run(&mut t, "dispute", 1, 2, sum_of(0, 0)).unwrap();
    run(&mut t, "resolve", 1, 1, sum_of(0, 0)).unwrap();
    assert_eq!(t.disputed.get(1), None);
    assert_eq!(t.disputed.get(2), Some(sum_of(20, 0)));
    run(&mut t, "chargeback", 1, 2, sum_of(0, 0)).unwrap();
    assert_eq!(t.disputed.get(2), None);
    assert_eq!(t.applied.get(1), Some(sum_of(10, 0)));
    assert_eq!(t.applied.get(2), Some(sum_of(20, 0)));
    assert_eq!(t.accounts.all(), vec![Account::new(1, sum_of(10, 0), sum_of(0, 0), true)]);
}

#[test]
fn unknown_kind_is_an_error_and_makes_the_account() {
    let mut t = tables();
    assert_eq!(
        run(&mut t, "refund", 3, 1, sum_of(10, 0)),
        Err(TransactionError { tx: 1, failure: Failure::UnknownKind })
    );
    assert_eq!(t.accounts.all(), vec![Account::empty(3)]);
    assert_eq!(t.applied.get(1), None);
}

#[test]
fn replay_gives_the_messages_in_the_order_of_the_log() {
    let mut t = tables();
    let log = vec![
        Transaction::new("resolve".into(), 1, 4294967295, sum_of(0, 0)),
        Transaction::new("deposit".into(), 1, 0, sum_of(1, 0)),
        Transaction::new("dispute".into(), 1, 7, sum_of(0, 0)),
    ];
    let errors = replay(&mut t.accounts, &mut t.applied, &mut t.disputed, &log);
    assert_eq!(
        errors,
        vec![
            "Could not find disputed transaction \"4294967295\" to resolve".to_string(),
            "Could not find applied transaction \"7\" to dispute".to_string(),
        ]
    );
    assert_eq!(t.applied.get(0), Some(sum_of(1, 0)));
}

#[test]
fn every_failure_in_words() {
    let refused = AccountError::InsufficientAvailableFunds;
    let held = AccountError::InsufficientHeldFunds;
    let range = AccountError::AmountOutOfRange;
    let cases = [
        (
            Failure::UnknownKind,
            "Error when handling transaction \"10\": Unhandled transaction type",
        ),
        (
            Failure::Refused(refused),
            "Error when handling transaction \"10\": Insufficient available funds",
        ),
        (Failure::Refused(range), "Error when handling transaction \"10\": Amount out of range"),
        (Failure::NotApplied, "Could not find applied transaction \"10\" to dispute"),
        (
            Failure::DisputeRefused(refused),
            "Could not dispute transaction \"10\": Insufficient available funds",
        ),
        (Failure::NotDisputed, "Could not find disputed transaction \"10\" to resolve"),
        (
            Failure::ResolveRefused(held),
            "Could not resolve disputed transaction \"10\": Insufficient held funds",
        ),
        (
            Failure::ChargebackRefused(held),
            "Could not charge back disputed transaction \"10\": Insufficient held funds",
        ),
    ];
    for (failure, text) in cases {
        assert_eq!(TransactionError { tx: 10, failure }.message(), text);
    }
}

#[test]
fn message_writes_the_transaction_id_in_decimal() {
    let error = |tx| TransactionError { tx, failure: Failure::NotApplied };
    assert_eq!(error(0).message(), "Could not find applied transaction \"0\" to dispute");
    assert_eq!(error(9).message(), "Could not find applied transaction \"9\" to dispute");
    assert_eq!(error(120).message(), "Could not find applied transaction \"120\" to dispute");
    assert_eq!(
        error(u32::MAX).message(),
        "Could not find applied transaction \"4294967295\" to dispute"
    );
}

#[test]
fn kinds_are_parsed_by_their_names() {
    assert_eq!(TransactionKind::parse("deposit"), Some(TransactionKind::Deposit));
    assert_eq!(TransactionKind::parse("withdrawal"), Some(TransactionKind::Withdrawal));
    assert_eq!(TransactionKind::parse("dispute"), Some(TransactionKind::Dispute));
    assert_eq!(TransactionKind::parse("resolve"), Some(TransactionKind::Resolve));
    assert_eq!(TransactionKind::parse("chargeback"), Some(TransactionKind::Chargeback));
    assert_eq!(TransactionKind::parse("withdraw"), None);
    assert_eq!(TransactionKind::parse("DEPOSIT"), None);
    assert_eq!(TransactionKind::parse("deposit "), None);
    assert_eq!(TransactionKind::parse(""), None);
}

#[test]
fn transaction_keeps_its_fields() {
    let t = Transaction::new("dispute".to_string(), 3, 17, sum_of(5, 2));
    assert_eq!(t.transaction_type, "dispute");
    assert_eq!(t.client, 3);
    assert_eq!(t.tx, 17);
    assert_eq!(t.amount, sum_of(5, 2));
    assert_eq!(t.kind(), Some(TransactionKind::Dispute));
}

#[test]
fn dispute_that_takes_what_is_held_out_of_range_is_refused() {
    let mut t = tables();
    run(&mut t, "deposit", 1, 1, sum_of(MAX_MANTISSA, 0)).unwrap();
    run(&mut t, "dispute", 1, 1, sum_of(0, 0)).unwrap();
    run(&mut t, "deposit", 1, 2, sum_of(1, 0)).unwrap_err();
    assert_eq!(
        t.accounts.all(),
        vec![Account::new(1, sum_of(0, 0), sum_of(MAX_MANTISSA, 0), false)]
    );
}

#[test]
fn dispute_with_sufficient_funds_fails_only_when_out_of_range() {
    let mut t = tables();
    *t.accounts.get_or_create(1) = Account {
        client: 1,
        available: sum_of(1, 0),
        held: sum_of(MAX_MANTISSA, 0),
        total: sum_of(MAX_MANTISSA, 0),
        locked: false,
    };
    t.applied.add(2, sum_of(1, 0));
    assert_eq!(
        run(&mut t, "dispute", 1, 2, sum_of(0, 0)),
        Err(TransactionError {
            tx: 2,
            failure: Failure::DisputeRefused(AccountError::AmountOutOfRange)
        })
    );
    assert_eq!(t.disputed.get(2), None);
}
