//! An engine over tables that it is given, and that it keeps between two logs.

use crate::account::Account;
use crate::account_repository::AccountRepository;
use crate::cached_amounts::CachedAmounts;
use crate::engine::{lemma_report, Engine};
use crate::ledger::{ledger_of, replay, Ledger};
use crate::transaction::Transaction;
use vstd::prelude::*;

verus! {

/// An engine that replays each log on the ledger that the one before has left.
pub struct EngineExtended {
    account_repository: AccountRepository,
    applied_transactions: CachedAmounts,
    disputed_transactions: CachedAmounts,
}

impl EngineExtended {
    /// An engine that starts from the ledger that the three tables hold.
    pub fn new(
        account_repository: AccountRepository,
        applied_transactions: CachedAmounts,
        disputed_transactions: CachedAmounts,
    ) -> (r: Self)
        ensures
            r.ledger() == ledger_of(
                account_repository,
                applied_transactions,
                disputed_transactions,
            ),
    {
        Self { account_repository, applied_transactions, disputed_transactions }
    }
}

impl Engine for EngineExtended {
    closed spec fn ledger(&self) -> Ledger {
        ledger_of(self.account_repository, self.applied_transactions, self.disputed_transactions)
    }

    fn analyze(&mut self, transactions: Vec<Transaction>) -> (r: (Vec<Account>, Vec<String>))
        ensures
            final(self).ledger() == old(self).ledger().replay(transactions@).0,
    {
        let errors = replay(
            &mut self.account_repository,
            &mut self.applied_transactions,
            &mut self.disputed_transactions,
            &transactions,
        );
        assert(self.account_repository@ == old(self).ledger().replay(transactions@).0.accounts);
        let all = self.account_repository.all();
        proof {
            let outcome = old(self).ledger().replay(transactions@);
            old(self).ledger().lemma_replay_keeps_invariants(transactions@);
            lemma_report(outcome, all@, errors@);
        }
        (all, errors)
    }
}

} // verus!
