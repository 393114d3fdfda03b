//! What every engine does with a log.

use crate::account::Account;
use crate::account_repository::lists;
use crate::failure::TransactionError;
use crate::laws::{all_in_range, amounts_not_negative, views};
use crate::ledger::{worded, Ledger};
use crate::rules::LedgerView;
use crate::transaction::Transaction;
use vstd::prelude::*;

verus! {

/// Whether `accounts` and `errors` report `outcome`: `accounts` holds each account of the
/// ledger once, in any order, and `errors` holds the messages of the errors in their order.
pub open spec fn reports(
    outcome: (Ledger, Seq<TransactionError>),
    accounts: Seq<Account>,
    errors: Seq<String>,
) -> bool {
    &&& exists|clients: Seq<u16>| lists(outcome.0.accounts, clients, accounts)
    &&& worded(outcome.1, errors)
}

/// Whether the total of each of `accounts` is what is available and what is held together.
pub open spec fn all_balanced(accounts: Seq<Account>) -> bool {
    forall|i: int| 0 <= i < accounts.len() ==> (#[trigger] accounts[i])@.balanced()
}

/// Whether no balance of any of `accounts` is negative.
pub open spec fn none_negative(accounts: Seq<Account>) -> bool {
    forall|i: int| 0 <= i < accounts.len() ==> (#[trigger] accounts[i])@.non_negative()
}

/// Whether no two of `accounts` have the same client.
pub open spec fn distinct_clients(accounts: Seq<Account>) -> bool {
    forall|i: int, j: int|
        0 <= i < accounts.len() && 0 <= j < accounts.len() && i != j
            ==> (#[trigger] accounts[i]).client != (#[trigger] accounts[j]).client
}

/// A report of a ledger holds balanced accounts only where those of the ledger are
/// balanced, no negative balance where the ledger has none, and one account for each client
/// where the accounts of the ledger stand under their own clients.
pub proof fn lemma_report(
    outcome: (Ledger, Seq<TransactionError>),
    accounts: Seq<Account>,
    errors: Seq<String>,
)
    requires
        reports(outcome, accounts, errors),
    ensures
        outcome.0@.balanced() ==> all_balanced(accounts),
        outcome.0@.non_negative() ==> none_negative(accounts),
        outcome.0@.keyed_by_client() ==> distinct_clients(accounts),
{
    let clients = choose|clients: Seq<u16>| lists(outcome.0.accounts, clients, accounts);
    assert forall|i: int| 0 <= i < accounts.len() implies outcome.0.accounts.contains_key(
        #[trigger] clients[i],
    ) by {
        assert(clients.to_set().contains(clients[i]));
    }
    if outcome.0@.balanced() {
        assert forall|i: int| 0 <= i < accounts.len() implies
            (#[trigger] accounts[i])@.balanced() by {
            assert(accounts[i] == outcome.0.accounts[clients[i]]);
            assert(outcome.0@.accounts[clients[i]] == accounts[i]@);
        }
    }
    if outcome.0@.non_negative() {
        assert forall|i: int| 0 <= i < accounts.len() implies
            (#[trigger] accounts[i])@.non_negative() by {
            assert(accounts[i] == outcome.0.accounts[clients[i]]);
            assert(outcome.0@.accounts[clients[i]] == accounts[i]@);
        }
    }
    if outcome.0@.keyed_by_client() {
        assert forall|i: int, j: int|
            0 <= i < accounts.len() && 0 <= j < accounts.len() && i != j implies
            (#[trigger] accounts[i]).client != (#[trigger] accounts[j]).client by {
            assert(accounts[i] == outcome.0.accounts[clients[i]]);
            assert(accounts[j] == outcome.0.accounts[clients[j]]);
            assert(outcome.0@.accounts[clients[i]] == accounts[i]@);
            assert(outcome.0@.accounts[clients[j]] == accounts[j]@);
        }
    }
}

/// Whether `accounts` and `errors` report `outcome` in numbers: the numbers of `accounts`
/// are those of each account of the ledger once, in any order, and `errors` holds the
/// messages of the errors in their order.
pub open spec fn reports_numbers(
    outcome: (LedgerView, Seq<TransactionError>),
    accounts: Seq<Account>,
    errors: Seq<String>,
) -> bool {
    &&& exists|clients: Seq<u16>|
        {
            &&& clients.no_duplicates()
            &&& clients.len() == accounts.len()
            &&& clients.to_set() == outcome.0.accounts.dom()
            &&& forall|i: int|
                0 <= i < clients.len() ==> accounts[i]@ == #[trigger] outcome.0.accounts[clients[i]]
        }
    &&& worded(outcome.1, errors)
}

/// A report of a replay in which no amount was refused as out of range tells what the
/// rules on numbers give for the log.
pub proof fn lemma_report_follows_rules(
    start: Ledger,
    log: Seq<Transaction>,
    accounts: Seq<Account>,
    errors: Seq<String>,
)
    requires
        reports(start.replay(log), accounts, errors),
        all_in_range(start.replay(log).1),
    ensures
        reports_numbers(start@.replay(views(log)), accounts, errors),
{
    start.lemma_replay_follows_rules(log);
    let ledger = start.replay(log).0;
    let clients = choose|clients: Seq<u16>| lists(ledger.accounts, clients, accounts);
    assert(clients.to_set() =~= ledger@.accounts.dom());
    assert forall|i: int| 0 <= i < clients.len() implies accounts[i]@
        == #[trigger] ledger@.accounts[clients[i]] by {
        assert(clients.to_set().contains(clients[i]));
        assert(accounts[i] == ledger.accounts[clients[i]]);
    }
}

/// Replays a log of transactions and reports the accounts and the errors.
pub trait Engine {
    /// The ledger that the next log is replayed on.
    spec fn ledger(&self) -> Ledger;

    /// Replays `transactions` in their order. No transaction stops the replay: one that
    /// cannot be applied is skipped and reported among the errors.
    fn analyze(&mut self, transactions: Vec<Transaction>) -> (r: (Vec<Account>, Vec<String>))
        ensures
            reports(old(self).ledger().replay(transactions@), r.0@, r.1@),
            old(self).ledger()@.balanced() ==> all_balanced(r.0@),
            old(self).ledger()@.balanced() && old(self).ledger()@.non_negative()
                && amounts_not_negative(transactions@) ==> none_negative(r.0@),
            old(self).ledger()@.keyed_by_client() ==> distinct_clients(r.0@),
    ;
}

} // verus!
