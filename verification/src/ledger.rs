//! The ledger that a log is replayed on, the step that one transaction makes on it, and
//! the replay of a whole log.
//!
//! The ledger holds accounts and amounts as they are stored, as decimals with a mantissa
//! and a scale, and a step on it refuses what `rust_decimal` cannot compute exactly.
//! [`crate::rules`] states the same rules on plain numbers, and [`crate::laws`] shows that
//! the two agree.

use crate::account::{Account, AccountView};
use crate::account_repository::AccountRepository;
use crate::amount::Amount;
use crate::cached_amounts::CachedAmounts;
use crate::failure::{Failure, TransactionError};
use crate::rules::LedgerView;
use crate::transaction::{Transaction, TransactionKind};
use vstd::prelude::*;

verus! {

/// The state that a log is replayed on: the account of each client seen so far, the
/// amount of each transaction that was applied, and the amount of each transaction that
/// is under dispute.
pub struct Ledger {
    pub accounts: Map<u16, Account>,
    pub applied: Map<u32, Amount>,
    pub disputed: Map<u32, Amount>,
}

/// The accounts of `accounts` as numbers.
pub open spec fn account_views(accounts: Map<u16, Account>) -> Map<u16, AccountView> {
    Map::new(|client: u16| accounts.contains_key(client), |client: u16| accounts[client]@)
}

/// The amounts of `amounts` as numbers.
pub open spec fn amount_views(amounts: Map<u32, Amount>) -> Map<u32, int> {
    Map::new(|tx: u32| amounts.contains_key(tx), |tx: u32| amounts[tx]@)
}

impl View for Ledger {
    type V = LedgerView;

    open spec fn view(&self) -> LedgerView {
        LedgerView {
            accounts: account_views(self.accounts),
            applied: amount_views(self.applied),
            disputed: amount_views(self.disputed),
        }
    }
}

impl Ledger {
    /// The ledger before any transaction.
    pub open spec fn empty() -> Ledger {
        Ledger { accounts: Map::empty(), applied: Map::empty(), disputed: Map::empty() }
    }

    /// The account of `client`: an empty one where the ledger has none yet.
    pub open spec fn account(self, client: u16) -> Account {
        if self.accounts.contains_key(client) {
            self.accounts[client]
        } else {
            Account::spec_empty(client)
        }
    }

    /// The ledger with `account` as the account of `client`.
    pub open spec fn with_account(self, client: u16, account: Account) -> Ledger {
        Ledger { accounts: self.accounts.insert(client, account), ..self }
    }

    /// The ledger in which `t` was skipped for `failure`: the client of `t` has an account,
    /// and nothing else has changed.
    pub open spec fn skip(self, t: Transaction, failure: Failure) -> (
        Ledger,
        Option<TransactionError>,
    ) {
        (
            self.with_account(t.client, self.account(t.client)),
            Some(TransactionError { tx: t.tx, failure }),
        )
    }

    /// The ledger after the transaction `t`, and the error if `t` was skipped.
    ///
    /// The client of `t` has an account afterwards whatever comes of `t`. A deposit or a
    /// withdrawal that goes through is remembered as applied, with its amount. A dispute
    /// takes the amount that was applied under its transaction id, and once it goes
    /// through that amount is remembered as disputed. A resolve or a chargeback takes the
    /// amount that is disputed under its transaction id, and once it goes through that
    /// amount is forgotten as disputed. A transaction that is skipped changes nothing else.
    pub open spec fn step(self, t: Transaction) -> (Ledger, Option<TransactionError>) {
        let account = self.account(t.client);
        match t.spec_kind() {
            None => self.skip(t, Failure::UnknownKind),
            Some(TransactionKind::Deposit) => match account.deposited(t.amount) {
                Ok(a) => (
                    Ledger {
                        applied: self.applied.insert(t.tx, t.amount),
                        ..self.with_account(t.client, a)
                    },
                    None,
                ),
                Err(e) => self.skip(t, Failure::Refused(e)),
            },
            Some(TransactionKind::Withdrawal) => match account.withdrawn(t.amount) {
                Ok(a) => (
                    Ledger {
                        applied: self.applied.insert(t.tx, t.amount),
                        ..self.with_account(t.client, a)
                    },
                    None,
                ),
                Err(e) => self.skip(t, Failure::Refused(e)),
            },
            Some(TransactionKind::Dispute) => match self.applied.get(t.tx) {
                None => self.skip(t, Failure::NotApplied),
                Some(amount) => match account.disputed(amount) {
                    Ok(a) => (
                        Ledger {
                            disputed: self.disputed.insert(t.tx, amount),
                            ..self.with_account(t.client, a)
                        },
                        None,
                    ),
                    Err(e) => self.skip(t, Failure::DisputeRefused(e)),
                },
            },
            Some(TransactionKind::Resolve) => match self.disputed.get(t.tx) {
                None => self.skip(t, Failure::NotDisputed),
                Some(amount) => match account.resolved(amount) {
                    Ok(a) => (
                        Ledger {
                            disputed: self.disputed.remove(t.tx),
                            ..self.with_account(t.client, a)
                        },
                        None,
                    ),
                    Err(e) => self.skip(t, Failure::ResolveRefused(e)),
                },
            },
            Some(TransactionKind::Chargeback) => match self.disputed.get(t.tx) {
                None => self.skip(t, Failure::NotDisputed),
                Some(amount) => match account.charged_back(amount) {
                    Ok(a) => (
                        Ledger {
                            disputed: self.disputed.remove(t.tx),
                            ..self.with_account(t.client, a)
                        },
                        None,
                    ),
                    Err(e) => self.skip(t, Failure::ChargebackRefused(e)),
                },
            },
        }
    }

    /// The ledger after the transactions of `log` in their order, and the errors of those
    /// that were skipped, in the same order.
    pub open spec fn replay(self, log: Seq<Transaction>) -> (Ledger, Seq<TransactionError>)
        decreases log.len(),
    {
        if log.len() == 0 {
            (self, Seq::empty())
        } else {
            let (before, errors) = self.replay(log.drop_last());
            let (after, error) = before.step(log.last());
            (
                after,
                match error {
                    Some(e) => errors.push(e),
                    None => errors,
                },
            )
        }
    }
}

/// The ledger that the three tables hold together.
pub open spec fn ledger_of(
    accounts: AccountRepository,
    applied: CachedAmounts,
    disputed: CachedAmounts,
) -> Ledger {
    Ledger { accounts: accounts@, applied: applied@, disputed: disputed@ }
}

/// Applies the transaction `t` to the three tables, or skips it and says why.
pub fn apply(
    accounts: &mut AccountRepository,
    applied: &mut CachedAmounts,
    disputed: &mut CachedAmounts,
    t: &Transaction,
) -> (r: Result<(), TransactionError>)
    ensures
        ledger_of(*final(accounts), *final(applied), *final(disputed)) == ledger_of(
            *old(accounts),
            *old(applied),
            *old(disputed),
        ).step(*t).0,
        match ledger_of(*old(accounts), *old(applied), *old(disputed)).step(*t).1 {
            Some(e) => r == Err::<(), TransactionError>(e),
            None => r is Ok,
        },
{
    let tx = t.tx;
    let account = accounts.get_or_create(t.client);
    match t.kind() {
        None => Err(TransactionError { tx, failure: Failure::UnknownKind }),
        Some(TransactionKind::Deposit) => match account.deposit(t.amount) {
            Ok(()) => {
                applied.add(tx, t.amount);
                Ok(())
            },
            Err(e) => Err(TransactionError { tx, failure: Failure::Refused(e) }),
        },
        Some(TransactionKind::Withdrawal) => match account.withdraw(t.amount) {
            Ok(()) => {
                applied.add(tx, t.amount);
                Ok(())
            },
            Err(e) => Err(TransactionError { tx, failure: Failure::Refused(e) }),
        },
        Some(TransactionKind::Dispute) => match applied.get(tx) {
            None => Err(TransactionError { tx, failure: Failure::NotApplied }),
            Some(amount) => match account.dispute(amount) {
                Ok(()) => {
                    disputed.add(tx, amount);
                    Ok(())
                },
                Err(e) => Err(TransactionError { tx, failure: Failure::DisputeRefused(e) }),
            },
        },
        Some(TransactionKind::Resolve) => match disputed.get(tx) {
            None => Err(TransactionError { tx, failure: Failure::NotDisputed }),
            Some(amount) => match account.resolve(amount) {
                Ok(()) => {
                    disputed.remove(tx);
                    Ok(())
                },
                Err(e) => Err(TransactionError { tx, failure: Failure::ResolveRefused(e) }),
            },
        },
        Some(TransactionKind::Chargeback) => match disputed.get(tx) {
            None => Err(TransactionError { tx, failure: Failure::NotDisputed }),
            Some(amount) => match account.chargeback(amount) {
                Ok(()) => {
                    disputed.remove(tx);
                    Ok(())
                },
                Err(e) => Err(TransactionError { tx, failure: Failure::ChargebackRefused(e) }),
            },
        },
    }
}

/// Whether `texts` are the messages of `errors`, one for one.
pub open spec fn worded(errors: Seq<TransactionError>, texts: Seq<String>) -> bool {
    &&& texts.len() == errors.len()
    &&& forall|i: int| 0 <= i < errors.len() ==> (#[trigger] texts[i])@ == errors[i].message_spec()
}

/// Replaying one transaction more is one step more.
pub proof fn lemma_replay_next(ledger: Ledger, log: Seq<Transaction>, n: int)
    requires
        0 <= n < log.len(),
    ensures
        ledger.replay(log.take(n + 1)).0 == ledger.replay(log.take(n)).0.step(log[n]).0,
        ledger.replay(log.take(n + 1)).1 == (match ledger.replay(log.take(n)).0.step(log[n]).1 {
            Some(e) => ledger.replay(log.take(n)).1.push(e),
            None => ledger.replay(log.take(n)).1,
        }),
{
    assert(log.take(n + 1).drop_last() =~= log.take(n));
}

/// Applies the transactions of the log in their order to the three tables, and gives the
/// messages of those that were skipped, in the same order.
pub fn replay(
    accounts: &mut AccountRepository,
    applied: &mut CachedAmounts,
    disputed: &mut CachedAmounts,
    transactions: &Vec<Transaction>,
) -> (errors: Vec<String>)
    ensures
        ledger_of(*final(accounts), *final(applied), *final(disputed)) == ledger_of(
            *old(accounts),
            *old(applied),
            *old(disputed),
        ).replay(transactions@).0,
        worded(
            ledger_of(*old(accounts), *old(applied), *old(disputed)).replay(transactions@).1,
            errors@,
        ),
{
    let ghost start = ledger_of(*accounts, *applied, *disputed);
    let mut errors: Vec<String> = Vec::new();
    let mut n: usize = 0;
    assert(transactions@.take(0) =~= Seq::<Transaction>::empty());
    while n < transactions.len()
        invariant
            n <= transactions.len(),
            ledger_of(*accounts, *applied, *disputed) == start.replay(
                transactions@.take(n as int),
            ).0,
            worded(start.replay(transactions@.take(n as int)).1, errors@),
        decreases transactions.len() - n,
    {
        proof {
            lemma_replay_next(start, transactions@, n as int);
        }
        match apply(accounts, applied, disputed, &transactions[n]) {
            Ok(()) => {},
            Err(e) => {
                errors.push(e.message());
            },
        }
        n = n + 1;
    }
    assert(transactions@.take(n as int) =~= transactions@);
    errors
}

} // verus!
