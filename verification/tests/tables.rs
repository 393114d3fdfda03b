use payments_engine::account::Account;
use payments_engine::account_repository::AccountRepository;
use payments_engine::amount::Amount;
use payments_engine::cached_amounts::CachedAmounts;

fn value(mantissa: i128, scale: u32) -> Amount {
    Amount::new(mantissa, scale).unwrap()
}

#[test]
fn lookup_in_an_empty_table_finds_nothing() {
    let mut table = CachedAmounts::new();
    assert_eq!(table.get(1), None);
}

#[test]
fn repeated_lookups_find_the_same_amount() {
    let mut table = CachedAmounts::new();
    table.add(1, value(125, 2));
    assert_eq!(table.get(1), Some(value(125, 2)));
    assert_eq!(table.get(1), Some(value(125, 2)));
    assert_eq!(table.get(2), None);
    assert_eq!(table.get(1), Some(value(125, 2)));
}

#[test]
fn lookup_keeps_the_scale_of_what_was_added() {
    let mut table = CachedAmounts::new();
    table.add(1, value(1250, 3));
    let found = table.get(1).unwrap();
    assert_eq!((found.mantissa(), found.scale()), (1250, 3));
}

#[test]
fn add_overwrites_and_remove_forgets() {
    let mut table = CachedAmounts::new();
    table.add(1, value(1, 0));
    table.add(2, value(2, 0));
    table.add(1, value(3, 0));
    assert_eq!(table.get(1), Some(value(3, 0)));
    assert_eq!(table.get(2), Some(value(2, 0)));
    table.remove(1);
    assert_eq!(table.get(1), None);
    assert_eq!(table.get(2), Some(value(2, 0)));
    table.remove(1);
    assert_eq!(table.get(1), None);
}

#[test]
fn repository_starts_empty() {
    let repository = AccountRepository::new();
    assert!(repository.all().is_empty());
}

#[test]
fn get_or_create_makes_an_empty_account_once() {
    let mut repository = AccountRepository::new();
    assert_eq!(*repository.get_or_create(4), Account::empty(4));
    repository.get_or_create(4).deposit(value(10, 0)).unwrap();
    assert_eq!(
        *repository.get_or_create(4),
        Account::new(4, value(10, 0), value(0, 0), false)
    );
    assert_eq!(repository.all().len(), 1);
}

#[test]
fn all_gives_a_copy_of_every_account() {
    let mut repository = AccountRepository::new();
    repository.get_or_create(2).deposit(value(20, 0)).unwrap();
    repository.get_or_create(1).deposit(value(10, 0)).unwrap();
    repository.get_or_create(3);
    let mut accounts = repository.all();
    accounts.sort_by_key(|account| account.client);
    assert_eq!(
        accounts,
        vec![
            Account::new(1, value(10, 0), value(0, 0), false),
            Account::new(2, value(20, 0), value(0, 0), false),
            Account::empty(3),
        ]
    );
    accounts[0].locked = true;
    assert!(!repository.get_or_create(1).locked);
}
