//! An engine that keeps nothing between two logs.

use crate::account::Account;
use crate::account_repository::AccountRepository;
use crate::cached_amounts::CachedAmounts;
use crate::engine::{all_balanced, distinct_clients, lemma_report, none_negative, Engine};
use crate::laws::amounts_not_negative;
use crate::ledger::{replay, Ledger};
use crate::transaction::Transaction;
use vstd::prelude::*;

verus! {

/// An engine that replays every log on an empty ledger.
pub struct EngineSimple {}

impl EngineSimple {
    /// An engine, which has nothing to start from.
    pub fn new() -> (r: Self)
        ensures
            r.ledger() == Ledger::empty(),
    {
        Self {}
    }
}

impl Engine for EngineSimple {
    open spec fn ledger(&self) -> Ledger {
        Ledger::empty()
    }

    fn analyze(&mut self, transactions: Vec<Transaction>) -> (r: (Vec<Account>, Vec<String>))
        ensures
            all_balanced(r.0@),
            distinct_clients(r.0@),
            amounts_not_negative(transactions@) ==> none_negative(r.0@),
    {
        let mut accounts = AccountRepository::new();
        let mut applied = CachedAmounts::new();
        let mut disputed = CachedAmounts::new();
        let errors = replay(&mut accounts, &mut applied, &mut disputed, &transactions);
        assert(accounts@ == Ledger::empty().replay(transactions@).0.accounts);
        let all = accounts.all();
        proof {
            let outcome = Ledger::empty().replay(transactions@);
            Ledger::lemma_empty_has_invariants();
            Ledger::empty().lemma_replay_keeps_invariants(transactions@);
            lemma_report(outcome, all@, errors@);
        }
        (all, errors)
    }
}

} // verus!
