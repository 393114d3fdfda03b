use payments_engine::account::Account;
use payments_engine::account_repository::AccountRepository;
use payments_engine::amount::Amount;
use payments_engine::cached_amounts::CachedAmounts;
use payments_engine::engine::Engine;
use payments_engine::engine_extended::EngineExtended;
use payments_engine::transaction::Transaction;

fn money(mantissa: i128, scale: u32) -> Amount {
    Amount::new(mantissa, scale).unwrap()
}

fn fresh() -> EngineExtended {
    EngineExtended::new(AccountRepository::new(), CachedAmounts::new(), CachedAmounts::new())
}

fn by_client(mut accounts: Vec<Account>) -> Vec<Account> {
    accounts.sort_by_key(|account| account.client);
    accounts
}

#[test]
fn extended_engine_with_no_transactions_reports_nothing() {
    let mut engine = fresh();
    let (accounts, errors) = engine.analyze(vec![]);
    assert!(accounts.is_empty());
    assert!(errors.is_empty());
}

#[test]
fn extended_engine_replays_deposit_dispute_and_chargeback() {
    let mut engine = fresh();
    let (accounts, errors) = engine.analyze(vec![
        Transaction::new("deposit".into(), 1, 1, money(100, 0)),
        Transaction::new("deposit".into(), 1, 2, money(50, 0)),
        Transaction::new("dispute".into(), 1, 1, money(0, 0)),
        Transaction::new("chargeback".into(), 1, 1, money(0, 0)),
    ]);
    assert_eq!(accounts, vec![Account::new(1, money(50, 0), money(0, 0), true)]);
    assert!(errors.is_empty());
}

#[test]
fn extended_engine_keeps_its_ledger_between_two_logs() {
    let mut engine = fresh();
    let (accounts, errors) = engine.analyze(vec![
        Transaction::new("deposit".into(), 1, 1, money(100, 0)),
    ]);
    assert_eq!(accounts, vec![Account::new(1, money(100, 0), money(0, 0), false)]);
    assert!(errors.is_empty());

    let (accounts, errors) = engine.analyze(vec![
        Transaction::new("dispute".into(), 1, 1, money(0, 0)),
        Transaction::new("deposit".into(), 2, 2, money(5, 1)),
    ]);
    assert_eq!(
        by_client(accounts),
        vec![
            Account::new(1, money(0, 0), money(100, 0), false),
            Account::new(2, money(5, 1), money(0, 0), false),
        ]
    );
    assert!(errors.is_empty());

    let (accounts, errors) = engine.analyze(vec![
        Transaction::new("resolve".into(), 1, 1, money(0, 0)),
        Transaction::new("resolve".into(), 1, 1, money(0, 0)),
    ]);
    assert_eq!(
        by_client(accounts),
        vec![
            Account::new(1, money(100, 0), money(0, 0), false),
            Account::new(2, money(5, 1), money(0, 0), false),
        ]
    );
    assert_eq!(errors, vec!["Could not find disputed transaction \"1\" to resolve".to_string()]);
}

#[test]
fn extended_engine_starts_from_the_tables_it_is_given() {
    let mut repository = AccountRepository::new();
    *repository.get_or_create(8) = Account::new(8, money(10, 0), money(30, 0), false);
    let mut applied = CachedAmounts::new();
    applied.add(5, money(10, 0));
    let mut disputed = CachedAmounts::new();
    disputed.add(6, money(30, 0));
    let mut engine = EngineExtended::new(repository, applied, disputed);

    let (accounts, errors) = engine.analyze(vec![
        Transaction::new("dispute".into(), 8, 5, money(0, 0)),
        Transaction::new("chargeback".into(), 8, 6, money(0, 0)),
        Transaction::new("resolve".into(), 8, 5, money(0, 0)),
    ]);
    assert_eq!(accounts, vec![Account::new(8, money(10, 0), money(0, 0), true)]);
    assert!(errors.is_empty());
}

#[test]
fn both_engines_report_the_same() {
    let log = || {
        vec![
            Transaction::new("deposit".into(), 1, 1, money(31234, 4)),
            Transaction::new("withdrawal".into(), 1, 2, money(5, 0)),
            Transaction::new("deposit".into(), 2, 3, money(7, 0)),
            Transaction::new("dispute".into(), 2, 3, money(0, 0)),
            Transaction::new("refund".into(), 2, 4, money(0, 0)),
            Transaction::new("chargeback".into(), 2, 3, money(0, 0)),
            Transaction::new("dispute".into(), 1, 1, money(0, 0)),
            Transaction::new("resolve".into(), 3, 1, money(0, 0)),
        ]
    };
    let (simple_accounts, simple_errors) =
        payments_engine::engine_simple::EngineSimple::new().analyze(log());
    let (extended_accounts, extended_errors) = fresh().analyze(log());
    assert_eq!(by_client(simple_accounts), by_client(extended_accounts));
    assert_eq!(simple_errors, extended_errors);
    assert_eq!(
        extended_errors,
        vec![
            "Error when handling transaction \"2\": Insufficient available funds".to_string(),
            "Error when handling transaction \"4\": Unhandled transaction type".to_string(),
            "Could not resolve disputed transaction \"1\": Insufficient held funds".to_string(),
        ]
    );
}
