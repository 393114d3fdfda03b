//! The rules of the ledger on plain numbers.
//!
//! Here an amount is an integer, a number of units of `10^-28`, and nothing is ever out of
//! range. [`crate::ledger::Ledger`] follows these rules wherever its arithmetic is exact.

use crate::account::AccountView;
use crate::failure::{Failure, TransactionError};
use crate::transaction::TransactionKind;
use vstd::prelude::*;

verus! {

/// A record of the log as numbers.
pub struct TransactionView {
    pub kind: Option<TransactionKind>,
    pub client: u16,
    pub tx: u32,
    pub amount: int,
}

/// A ledger as numbers: the account of each client seen so far, the amount of each
/// transaction that was applied, and the amount of each transaction that is under dispute.
pub struct LedgerView {
    pub accounts: Map<u16, AccountView>,
    pub applied: Map<u32, int>,
    pub disputed: Map<u32, int>,
}

impl LedgerView {
    /// The account of `client`: an empty one where the ledger has none yet.
    pub open spec fn account(self, client: u16) -> AccountView {
        if self.accounts.contains_key(client) {
            self.accounts[client]
        } else {
            AccountView::empty(client)
        }
    }

    /// The ledger with `account` as the account of `client`.
    pub open spec fn with_account(self, client: u16, account: AccountView) -> LedgerView {
        LedgerView { accounts: self.accounts.insert(client, account), ..self }
    }

    /// The ledger in which `t` was skipped for `failure`: the client of `t` has an account,
    /// and nothing else has changed.
    pub open spec fn skip(self, t: TransactionView, failure: Failure) -> (
        LedgerView,
        Option<TransactionError>,
    ) {
        (
            self.with_account(t.client, self.account(t.client)),
            Some(TransactionError { tx: t.tx, failure }),
        )
    }

    /// The ledger after the transaction `t`, and the error if `t` was skipped.
    pub open spec fn step(self, t: TransactionView) -> (LedgerView, Option<TransactionError>) {
        let account = self.account(t.client);
        match t.kind {
            None => self.skip(t, Failure::UnknownKind),
            Some(TransactionKind::Deposit) => (
                LedgerView {
                    applied: self.applied.insert(t.tx, t.amount),
                    ..self.with_account(t.client, account.deposit(t.amount))
                },
                None,
            ),
            Some(TransactionKind::Withdrawal) => match account.withdraw(t.amount) {
                Ok(a) => (
                    LedgerView {
                        applied: self.applied.insert(t.tx, t.amount),
                        ..self.with_account(t.client, a)
                    },
                    None,
                ),
                Err(e) => self.skip(t, Failure::Refused(e)),
            },
            Some(TransactionKind::Dispute) => match self.applied.get(t.tx) {
                None => self.skip(t, Failure::NotApplied),
                Some(amount) => match account.dispute(amount) {
                    Ok(a) => (
                        LedgerView {
                            disputed: self.disputed.insert(t.tx, amount),
                            ..self.with_account(t.client, a)
                        },
                        None,
                    ),
                    Err(e) => self.skip(t, Failure::DisputeRefused(e)),
                },
            },
            Some(TransactionKind::Resolve) => match self.disputed.get(t.tx) {
                None => self.skip(t, Failure::NotDisputed),
                Some(amount) => match account.resolve(amount) {
                    Ok(a) => (
                        LedgerView {
                            disputed: self.disputed.remove(t.tx),
                            ..self.with_account(t.client, a)
                        },
                        None,
                    ),
                    Err(e) => self.skip(t, Failure::ResolveRefused(e)),
                },
            },
            Some(TransactionKind::Chargeback) => match self.disputed.get(t.tx) {
                None => self.skip(t, Failure::NotDisputed),
                Some(amount) => match account.chargeback(amount) {
                    Ok(a) => (
                        LedgerView {
                            disputed: self.disputed.remove(t.tx),
                            ..self.with_account(t.client, a)
                        },
                        None,
                    ),
                    Err(e) => self.skip(t, Failure::ChargebackRefused(e)),
                },
            },
        }
    }

    /// The ledger after the transactions of `log` in their order, and the errors of those
    /// that were skipped, in the same order.
    pub open spec fn replay(self, log: Seq<TransactionView>) -> (LedgerView, Seq<TransactionError>)
        decreases log.len(),
    {
        if log.len() == 0 {
            (self, Seq::empty())
        } else {
            let (before, errors) = self.replay(log.drop_last());
            let (after, error) = before.step(log.last());
            (
                after,
                match error {
                    Some(e) => errors.push(e),
                    None => errors,
                },
            )
        }
    }

    /// Whether the total of every account is what is available and what is held together.
    pub open spec fn balanced(self) -> bool {
        forall|client: u16|
            self.accounts.contains_key(client) ==> (#[trigger] self.accounts[client]).balanced()
    }

    /// Whether no balance and no remembered amount is negative.
    pub open spec fn non_negative(self) -> bool {
        &&& forall|client: u16|
            self.accounts.contains_key(client) ==> (#[trigger] self.accounts[client]).non_negative()
        &&& forall|tx: u32| self.applied.contains_key(tx) ==> #[trigger] self.applied[tx] >= 0
        &&& forall|tx: u32| self.disputed.contains_key(tx) ==> #[trigger] self.disputed[tx] >= 0
    }

    /// Whether every account stands under its own client.
    pub open spec fn keyed_by_client(self) -> bool {
        forall|client: u16|
            self.accounts.contains_key(client) ==> (#[trigger] self.accounts[client]).client
                == client
    }

    /// Whether every transaction that is under dispute was applied.
    pub open spec fn disputes_applied_only(self) -> bool {
        forall|tx: u32| #[trigger] self.disputed.contains_key(tx) ==> self.applied.contains_key(tx)
    }

    /// Skipping a transaction keeps every account balanced and leaves no negative balance.
    pub proof fn lemma_skip_keeps_invariants(self, t: TransactionView, failure: Failure)
        requires
            self.balanced(),
        ensures
            self.skip(t, failure).0.balanced(),
            self.non_negative() ==> self.skip(t, failure).0.non_negative(),
    {
    }

    /// Skipping a transaction keeps every account under its own client, and keeps to
    /// disputes of applied transactions.
    pub proof fn lemma_skip_keeps_keys(self, t: TransactionView, failure: Failure)
        ensures
            self.keyed_by_client() ==> self.skip(t, failure).0.keyed_by_client(),
            self.disputes_applied_only() ==> self.skip(t, failure).0.disputes_applied_only(),
    {
    }

    /// A step keeps every account under its own client, and keeps to disputes of applied
    /// transactions.
    pub proof fn lemma_step_keeps_keys(self, t: TransactionView)
        ensures
            self.keyed_by_client() ==> self.step(t).0.keyed_by_client(),
            self.disputes_applied_only() ==> self.step(t).0.disputes_applied_only(),
    {
    }

    /// A step keeps every account balanced, and where no amount is negative it leaves no
    /// balance negative.
    pub proof fn lemma_step_keeps_invariants(self, t: TransactionView)
        requires
            self.balanced(),
        ensures
            self.step(t).0.balanced(),
            self.non_negative() && t.amount >= 0 ==> self.step(t).0.non_negative(),
    {
        let account = self.account(t.client);
        account.lemma_operations_keep_balance(t.amount);
        if self.applied.contains_key(t.tx) {
            account.lemma_operations_keep_balance(self.applied[t.tx]);
        }
        if self.disputed.contains_key(t.tx) {
            account.lemma_operations_keep_balance(self.disputed[t.tx]);
        }
        if self.non_negative() && t.amount >= 0 {
            account.lemma_operations_keep_non_negative(t.amount);
            if self.applied.contains_key(t.tx) {
                account.lemma_operations_keep_non_negative(self.applied[t.tx]);
            }
            if self.disputed.contains_key(t.tx) {
                account.lemma_operations_keep_non_negative(self.disputed[t.tx]);
            }
        }
    }

    /// At every point of a replay every account is balanced, if it was so at the start; and
    /// no balance is negative, if none was at the start and no record of the log has a
    /// negative amount.
    pub proof fn lemma_replay_keeps_invariants(self, log: Seq<TransactionView>)
        requires
            self.balanced(),
        ensures
            self.replay(log).0.balanced(),
            self.non_negative() && (forall|i: int| 0 <= i < log.len() ==> (#[trigger] log[i]).amount
                >= 0) ==> self.replay(log).0.non_negative(),
        decreases log.len(),
    {
        if log.len() > 0 {
            self.lemma_replay_keeps_invariants(log.drop_last());
            self.replay(log.drop_last()).0.lemma_step_keeps_invariants(log.last());
            if self.non_negative() && (forall|i: int|
                0 <= i < log.len() ==> (#[trigger] log[i]).amount >= 0) {
                assert forall|i: int| 0 <= i < log.drop_last().len() implies
                    (#[trigger] log.drop_last()[i]).amount >= 0 by {
                    assert(log.drop_last()[i] == log[i]);
                }
                assert(log.last() == log[log.len() - 1]);
            }
        }
    }
}

} // verus!
