//! One record of the transaction log.

use crate::amount::Amount;
use crate::rules::TransactionView;
use vstd::prelude::*;

verus! {

/// What a transaction asks for.
#[derive(Clone, Copy, Debug, PartialEq, Eq, Structural)]
pub enum TransactionKind {
    Deposit,
    Withdrawal,
    Dispute,
    Resolve,
    Chargeback,
}

impl TransactionKind {
    /// The kind that `name` names, if it names one.
    pub open spec fn of(name: Seq<char>) -> Option<TransactionKind> {
        if name == "deposit"@ {
            Some(TransactionKind::Deposit)
        } else if name == "withdrawal"@ {
            Some(TransactionKind::Withdrawal)
        } else if name == "dispute"@ {
            Some(TransactionKind::Dispute)
        } else if name == "resolve"@ {
            Some(TransactionKind::Resolve)
        } else if name == "chargeback"@ {
            Some(TransactionKind::Chargeback)
        } else {
            None
        }
    }

    /// Each of the five names names its own kind.
    pub proof fn lemma_names()
        ensures
            TransactionKind::of("deposit"@) == Some(TransactionKind::Deposit),
            TransactionKind::of("withdrawal"@) == Some(TransactionKind::Withdrawal),
            TransactionKind::of("dispute"@) == Some(TransactionKind::Dispute),
            TransactionKind::of("resolve"@) == Some(TransactionKind::Resolve),
            TransactionKind::of("chargeback"@) == Some(TransactionKind::Chargeback),
    {
        reveal_strlit("deposit");
        reveal_strlit("withdrawal");
        reveal_strlit("dispute");
        reveal_strlit("resolve");
        reveal_strlit("chargeback");
        assert("withdrawal"@[0] != "chargeback"@[0]);
        assert("dispute"@[1] != "deposit"@[1]);
        assert("resolve"@[0] != "deposit"@[0]);
        assert("resolve"@[0] != "dispute"@[0]);
    }

    /// The kind that `name` names, if it names one.
    pub fn parse(name: &str) -> (r: Option<TransactionKind>)
        ensures
            r == TransactionKind::of(name@),
    {
        let name = name.to_owned();
        if name == "deposit".to_owned() {
            Some(TransactionKind::Deposit)
        } else if name == "withdrawal".to_owned() {
            Some(TransactionKind::Withdrawal)
        } else if name == "dispute".to_owned() {
            Some(TransactionKind::Dispute)
        } else if name == "resolve".to_owned() {
            Some(TransactionKind::Resolve)
        } else if name == "chargeback".to_owned() {
            Some(TransactionKind::Chargeback)
        } else {
            None
        }
    }
}

/// A record of the log: the name of its kind, the client, the transaction id, and an
/// amount, which counts for deposits and withdrawals only.
#[derive(Debug)]
pub struct Transaction {
    pub transaction_type: String,
    pub client: u16,
    pub tx: u32,
    pub amount: Amount,
}

impl View for Transaction {
    type V = TransactionView;

    open spec fn view(&self) -> TransactionView {
        TransactionView {
            kind: self.spec_kind(),
            client: self.client,
            tx: self.tx,
            amount: self.amount@,
        }
    }
}

impl Transaction {
    /// A record with the given name of its kind, client, transaction id and amount.
    pub fn new(transaction_type: String, client: u16, tx: u32, amount: Amount) -> (r: Self)
        ensures
            r.transaction_type == transaction_type,
            r.client == client,
            r.tx == tx,
            r.amount == amount,
    {
        Self { transaction_type, client, tx, amount }
    }

    /// The kind that the record names, if it names one of the five.
    pub open spec fn spec_kind(self) -> Option<TransactionKind> {
        TransactionKind::of(self.transaction_type@)
    }

    /// The kind that the record names, if it names one of the five.
    pub fn kind(&self) -> (r: Option<TransactionKind>)
        ensures
            r == self.spec_kind(),
    {
        TransactionKind::parse(self.transaction_type.as_str())
    }
}

} // verus!
