//! What holds of every ledger and of every replay.

use crate::account::{Account, AccountError, AccountView};
use crate::failure::{Failure, TransactionError};
use crate::ledger::{lemma_replay_next, Ledger};
use crate::rules::TransactionView;
use crate::transaction::{Transaction, TransactionKind};
use vstd::prelude::*;

verus! {

/// The records of `log` as numbers.
pub open spec fn views(log: Seq<Transaction>) -> Seq<TransactionView> {
    Seq::new(log.len(), |i: int| log[i]@)
}

/// Whether no record of `log` has a negative amount.
pub open spec fn amounts_not_negative(log: Seq<Transaction>) -> bool {
    forall|i: int| 0 <= i < log.len() ==> (#[trigger] log[i]).amount@ >= 0
}

/// Whether none of `errors` is an amount out of range.
pub open spec fn all_in_range(errors: Seq<TransactionError>) -> bool {
    forall|i: int| 0 <= i < errors.len() ==> !(#[trigger] errors[i]).failure.out_of_range()
}

impl Ledger {
    /// Whether `t` is a deposit or a withdrawal.
    pub open spec fn moves_funds(t: Transaction) -> bool {
        t.spec_kind() == Some(TransactionKind::Deposit) || t.spec_kind() == Some(
            TransactionKind::Withdrawal,
        )
    }

    /// Skipping a transaction on the ledger is skipping it on its numbers.
    pub proof fn lemma_skip_follows_rules(self, t: Transaction, failure: Failure)
        ensures
            self.skip(t, failure).0@ == self@.skip(t@, failure).0,
            self.skip(t, failure).1 == self@.skip(t@, failure).1,
    {
        Account::lemma_empty(t.client);
        assert(self.skip(t, failure).0@.accounts =~= self@.skip(t@, failure).0.accounts);
    }

    /// A step on the ledger is the step on its numbers, unless it refuses an amount as out
    /// of range. Then the step on numbers goes through, and the step on the ledger skips
    /// the transaction.
    pub proof fn lemma_step_follows_rules(self, t: Transaction)
        ensures
            match self.step(t).1 {
                Some(e) if e.failure.out_of_range() => self.step(t) == self.skip(t, e.failure)
                    && self@.step(t@).1 is None,
                _ => self.step(t).0@ == self@.step(t@).0 && self.step(t).1 == self@.step(t@).1,
            },
    {
        let account = self.account(t.client);
        Account::lemma_empty(t.client);
        match self.step(t).1 {
            Some(e) => {
                self.lemma_skip_follows_rules(t, e.failure);
            },
            None => {},
        }
        account.lemma_operations_follow_numbers(t.amount);
        match t.spec_kind() {
            None => {},
            Some(TransactionKind::Deposit) | Some(TransactionKind::Withdrawal) => {
                let outcome = if t.spec_kind() == Some(TransactionKind::Deposit) {
                    account.deposited(t.amount)
                } else {
                    account.withdrawn(t.amount)
                };
                if let Ok(a) = outcome {
                    let next = self.step(t).0;
                    assert(next@.accounts =~= self@.step(t@).0.accounts);
                    assert(next@.applied =~= self@.step(t@).0.applied);
                }
            },
            Some(TransactionKind::Dispute) => {
                if self.applied.contains_key(t.tx) {
                    let amount = self.applied[t.tx];
                    account.lemma_operations_follow_numbers(amount);
                    if let Ok(a) = account.disputed(amount) {
                        let next = self.step(t).0;
                        assert(next@.accounts =~= self@.step(t@).0.accounts);
                        assert(next@.disputed =~= self@.step(t@).0.disputed);
                    }
                }
            },
            Some(TransactionKind::Resolve) | Some(TransactionKind::Chargeback) => {
                if self.disputed.contains_key(t.tx) {
                    let amount = self.disputed[t.tx];
                    account.lemma_operations_follow_numbers(amount);
                    let outcome = if t.spec_kind() == Some(TransactionKind::Resolve) {
                        account.resolved(amount)
                    } else {
                        account.charged_back(amount)
                    };
                    if let Ok(a) = outcome {
                        let next = self.step(t).0;
                        assert(next@.accounts =~= self@.step(t@).0.accounts);
                        assert(next@.disputed =~= self@.step(t@).0.disputed);
                    }
                }
            },
        }
    }

    /// A replay on the ledger in which no amount is refused as out of range is the replay
    /// on its numbers: it ends in the same numbers and gives the same errors.
    pub proof fn lemma_replay_follows_rules(self, log: Seq<Transaction>)
        requires
            all_in_range(self.replay(log).1),
        ensures
            self.replay(log).0@ == self@.replay(views(log)).0,
            self.replay(log).1 == self@.replay(views(log)).1,
        decreases log.len(),
    {
        if log.len() > 0 {
            let before = self.replay(log.drop_last());
            let errors = self.replay(log).1;
            assert forall|i: int| 0 <= i < before.1.len() implies
                !(#[trigger] before.1[i]).failure.out_of_range() by {
                assert(before.1[i] == errors[i]);
            }
            self.lemma_replay_follows_rules(log.drop_last());
            before.0.lemma_step_follows_rules(log.last());
            assert(views(log).drop_last() =~= views(log.drop_last()));
            match before.0.step(log.last()).1 {
                Some(e) => {
                    assert(errors[errors.len() - 1] == e);
                },
                None => {},
            }
        }
    }

    /// A step keeps every account balanced and under its own client, and keeps to
    /// disputes of applied transactions. Where no amount is negative it leaves no negative
    /// balance.
    pub proof fn lemma_step_keeps_invariants(self, t: Transaction)
        ensures
            self@.balanced() ==> self.step(t).0@.balanced(),
            self@.balanced() && self@.non_negative() && t.amount@ >= 0 ==> self.step(
                t,
            ).0@.non_negative(),
            self@.keyed_by_client() ==> self.step(t).0@.keyed_by_client(),
            self@.disputes_applied_only() ==> self.step(t).0@.disputes_applied_only(),
    {
        self.lemma_step_follows_rules(t);
        if self@.balanced() {
            self@.lemma_step_keeps_invariants(t@);
        }
        self@.lemma_step_keeps_keys(t@);
        match self.step(t).1 {
            Some(e) => {
                self.lemma_skip_follows_rules(t, e.failure);
                if self@.balanced() {
                    self@.lemma_skip_keeps_invariants(t@, e.failure);
                }
                self@.lemma_skip_keeps_keys(t@, e.failure);
            },
            None => {},
        }
    }

    /// At every point of a replay every account is balanced and stands under its own
    /// client, and only applied transactions are under dispute, if it was so at the start.
    /// No balance is negative if none was at the start and no record of the log has a
    /// negative amount.
    pub proof fn lemma_replay_keeps_invariants(self, log: Seq<Transaction>)
        ensures
            self@.balanced() ==> self.replay(log).0@.balanced(),
            self@.balanced() && self@.non_negative() && amounts_not_negative(log)
                ==> self.replay(log).0@.non_negative(),
            self@.keyed_by_client() ==> self.replay(log).0@.keyed_by_client(),
            self@.disputes_applied_only() ==> self.replay(log).0@.disputes_applied_only(),
        decreases log.len(),
    {
        if log.len() > 0 {
            self.lemma_replay_keeps_invariants(log.drop_last());
            self.replay(log.drop_last()).0.lemma_step_keeps_invariants(log.last());
            if amounts_not_negative(log) {
                assert forall|i: int| 0 <= i < log.drop_last().len() implies
                    (#[trigger] log.drop_last()[i]).amount@ >= 0 by {
                    assert(log.drop_last()[i] == log[i]);
                }
                assert(log.last() == log[log.len() - 1]);
            }
        }
    }

    /// The empty ledger has every property that a replay keeps.
    pub proof fn lemma_empty_has_invariants()
        ensures
            Ledger::empty()@.balanced(),
            Ledger::empty()@.non_negative(),
            Ledger::empty()@.keyed_by_client(),
            Ledger::empty()@.disputes_applied_only(),
    {
    }

    /// A dispute that names a transaction which is not applied is skipped, and changes
    /// nothing but that its client has an account afterwards.
    pub proof fn lemma_dispute_of_unknown_fails(self, t: Transaction)
        requires
            t.spec_kind() == Some(TransactionKind::Dispute),
            !self.applied.contains_key(t.tx),
        ensures
            self.step(t) == self.skip(t, Failure::NotApplied),
    {
    }

    /// A dispute that names an applied transaction goes through if what is available
    /// suffices and the new balances can be written exactly: the amount that was applied
    /// moves from available to held, and is remembered as disputed.
    pub proof fn lemma_dispute_of_applied_succeeds(self, t: Transaction)
        requires
            t.spec_kind() == Some(TransactionKind::Dispute),
            self.applied.contains_key(t.tx),
            self.applied[t.tx]@ <= self.account(t.client).available@,
            self.account(t.client).available.difference(self.applied[t.tx]) is Some,
            self.account(t.client).held.sum(self.applied[t.tx]) is Some,
        ensures
            self.step(t).1 is None,
            self.step(t).0.disputed == self.disputed.insert(t.tx, self.applied[t.tx]),
            self.step(t).0.applied == self.applied,
            self.account(t.client)@.dispute(self.applied[t.tx]@) == Ok::<AccountView, AccountError>(
                self.step(t).0.accounts[t.client]@,
            ),
    {
        self.account(t.client).lemma_operations_follow_numbers(self.applied[t.tx]);
    }

    /// A transaction that is applied after a replay was applied before it, or is the
    /// transaction of a deposit or a withdrawal of the log.
    pub proof fn lemma_applied_were_seen(self, log: Seq<Transaction>, tx: u32)
        requires
            self.replay(log).0.applied.contains_key(tx),
        ensures
            self.applied.contains_key(tx) || exists|i: int|
                0 <= i < log.len() && (#[trigger] log[i]).tx == tx && Ledger::moves_funds(log[i]),
        decreases log.len(),
    {
        if log.len() > 0 {
            let before = self.replay(log.drop_last()).0;
            if before.applied.contains_key(tx) {
                self.lemma_applied_were_seen(log.drop_last(), tx);
                if !self.applied.contains_key(tx) {
                    let i = choose|i: int|
                        0 <= i < log.drop_last().len() && (#[trigger] log.drop_last()[i]).tx == tx
                            && Ledger::moves_funds(log.drop_last()[i]);
                    assert(log[i] == log.drop_last()[i]);
                }
            } else {
                assert(log[log.len() - 1] == log.last());
            }
        }
    }

    /// A dispute is skipped when no deposit and no withdrawal with its transaction id
    /// stands before it in the log.
    pub proof fn lemma_dispute_before_its_transaction_fails(log: Seq<Transaction>, t: Transaction)
        requires
            t.spec_kind() == Some(TransactionKind::Dispute),
            forall|i: int|
                0 <= i < log.len() ==> !((#[trigger] log[i]).tx == t.tx && Ledger::moves_funds(
                    log[i],
                )),
        ensures
            Ledger::empty().replay(log).0.step(t).1 == Some(
                TransactionError { tx: t.tx, failure: Failure::NotApplied },
            ),
    {
        let ledger = Ledger::empty().replay(log).0;
        if ledger.applied.contains_key(t.tx) {
            Ledger::empty().lemma_applied_were_seen(log, t.tx);
        }
    }

    /// What is applied stays applied.
    pub proof fn lemma_applied_stays(self, log: Seq<Transaction>, tx: u32)
        requires
            self.applied.contains_key(tx),
        ensures
            self.replay(log).0.applied.contains_key(tx),
        decreases log.len(),
    {
        if log.len() > 0 {
            self.lemma_applied_stays(log.drop_last(), tx);
        }
    }

    /// The transaction of a deposit or a withdrawal that went through is applied from then
    /// on, so that a later dispute finds it.
    pub proof fn lemma_applied_after_its_transaction(self, log: Seq<Transaction>, n: int)
        requires
            0 <= n < log.len(),
            Ledger::moves_funds(log[n]),
            self.replay(log.take(n)).0.step(log[n]).1 is None,
        ensures
            self.replay(log).0.applied.contains_key(log[n].tx),
    {
        lemma_replay_next(self, log, n);
        let after = self.replay(log.take(n + 1)).0;
        after.lemma_applied_stays(log.skip(n + 1), log[n].tx);
        lemma_replay_concat(self, log.take(n + 1), log.skip(n + 1));
        assert(log.take(n + 1) + log.skip(n + 1) =~= log);
    }
}

/// Replaying two logs one after the other is replaying the one log of both, and gives the
/// errors of the first followed by those of the second.
pub proof fn lemma_replay_concat(ledger: Ledger, first: Seq<Transaction>, second: Seq<Transaction>)
    ensures
        ledger.replay(first + second).0 == ledger.replay(first).0.replay(second).0,
        ledger.replay(first + second).1 == ledger.replay(first).1 + ledger.replay(first).0.replay(
            second,
        ).1,
    decreases second.len(),
{
    if second.len() == 0 {
        assert(first + second =~= first);
        assert(ledger.replay(first).1 + Seq::<TransactionError>::empty() =~= ledger.replay(
            first,
        ).1);
    } else {
        lemma_replay_concat(ledger, first, second.drop_last());
        assert((first + second).drop_last() =~= first + second.drop_last());
        let a = ledger.replay(first).1;
        let b = ledger.replay(first).0.replay(second.drop_last()).1;
        let step = ledger.replay(first).0.replay(second.drop_last()).0.step(second.last());
        match step.1 {
            Some(e) => {
                assert((a + b).push(e) =~= a + b.push(e));
            },
            None => {},
        }
    }
}

} // verus!
