//! The errors of transactions that were skipped, and their wording.

use crate::account::AccountError;
use vstd::prelude::*;

verus! {

/// What went wrong with a transaction.
#[derive(Clone, Copy, Debug, PartialEq, Eq, Structural)]
pub enum Failure {
    /// The name of the kind is none of the five.
    UnknownKind,
    /// The account refused a deposit or a withdrawal.
    Refused(AccountError),
    /// A dispute names a transaction that was not applied.
    NotApplied,
    /// The account refused a dispute.
    DisputeRefused(AccountError),
    /// A resolve or a chargeback names a transaction that is not under dispute.
    NotDisputed,
    /// The account refused a resolve.
    ResolveRefused(AccountError),
    /// The account refused a chargeback.
    ChargebackRefused(AccountError),
}

/// A transaction that was skipped, and why.
#[derive(Clone, Copy, Debug, PartialEq, Eq, Structural)]
pub struct TransactionError {
    pub tx: u32,
    pub failure: Failure,
}

/// The digit `d` as a character.
pub open spec fn digit_char(d: nat) -> char {
    if d == 0 {
        '0'
    } else if d == 1 {
        '1'
    } else if d == 2 {
        '2'
    } else if d == 3 {
        '3'
    } else if d == 4 {
        '4'
    } else if d == 5 {
        '5'
    } else if d == 6 {
        '6'
    } else if d == 7 {
        '7'
    } else if d == 8 {
        '8'
    } else {
        '9'
    }
}

/// `n` written in decimal, without leading zeros.
pub open spec fn decimal_digits(n: nat) -> Seq<char>
    decreases n,
{
    if n < 10 {
        seq![digit_char(n)]
    } else {
        decimal_digits(n / 10).push(digit_char(n % 10))
    }
}

/// Appends `tail` to `text` with `String::push_str`.
///
/// Not proved: that the text afterwards is the text before, followed by `tail`.
#[verifier::external_body]
fn append(text: &mut String, tail: &str)
    ensures
        final(text)@ == old(text)@ + tail@,
{
    text.push_str(tail)
}

/// The digit `d` as a text of one character.
fn digit_text(d: u32) -> (r: &'static str)
    requires
        d < 10,
    ensures
        r@ == seq![digit_char(d as nat)],
{
    proof {
        reveal_strlit("0");
        reveal_strlit("1");
        reveal_strlit("2");
        reveal_strlit("3");
        reveal_strlit("4");
        reveal_strlit("5");
        reveal_strlit("6");
        reveal_strlit("7");
        reveal_strlit("8");
        reveal_strlit("9");
    }
    if d == 0 {
        "0"
    } else if d == 1 {
        "1"
    } else if d == 2 {
        "2"
    } else if d == 3 {
        "3"
    } else if d == 4 {
        "4"
    } else if d == 5 {
        "5"
    } else if d == 6 {
        "6"
    } else if d == 7 {
        "7"
    } else if d == 8 {
        "8"
    } else {
        "9"
    }
}

/// Appends `n` in decimal to `text`.
fn append_decimal(text: &mut String, n: u32)
    ensures
        final(text)@ == old(text)@ + decimal_digits(n as nat),
    decreases n,
{
    if n >= 10 {
        append_decimal(text, n / 10);
    }
    append(text, digit_text(n % 10));
    proof {
        let before = old(text)@;
        let last = seq![digit_char((n % 10) as nat)];
        if n >= 10 {
            let front = decimal_digits((n / 10) as nat);
            assert(before + front + last =~= before + front.push(digit_char((n % 10) as nat)));
        }
    }
}

impl Failure {
    /// Whether an account refused the transaction because a new balance cannot be written
    /// exactly.
    pub open spec fn out_of_range(self) -> bool {
        self == Failure::Refused(AccountError::AmountOutOfRange) || self == Failure::DisputeRefused(
            AccountError::AmountOutOfRange,
        ) || self == Failure::ResolveRefused(AccountError::AmountOutOfRange) || self
            == Failure::ChargebackRefused(AccountError::AmountOutOfRange)
    }

    /// The words before the transaction id.
    pub open spec fn head_spec(self) -> Seq<char> {
        match self {
            Failure::UnknownKind => "Error when handling transaction \""@,
            Failure::Refused(_) => "Error when handling transaction \""@,
            Failure::NotApplied => "Could not find applied transaction \""@,
            Failure::DisputeRefused(_) => "Could not dispute transaction \""@,
            Failure::NotDisputed => "Could not find disputed transaction \""@,
            Failure::ResolveRefused(_) => "Could not resolve disputed transaction \""@,
            Failure::ChargebackRefused(_) => "Could not charge back disputed transaction \""@,
        }
    }

    /// The words after the transaction id.
    pub open spec fn tail_spec(self) -> Seq<char> {
        match self {
            Failure::UnknownKind => "\": Unhandled transaction type"@,
            Failure::Refused(e) => "\": "@ + e.message_spec(),
            Failure::NotApplied => "\" to dispute"@,
            Failure::DisputeRefused(e) => "\": "@ + e.message_spec(),
            Failure::NotDisputed => "\" to resolve"@,
            Failure::ResolveRefused(e) => "\": "@ + e.message_spec(),
            Failure::ChargebackRefused(e) => "\": "@ + e.message_spec(),
        }
    }

    fn head(&self) -> (r: &'static str)
        ensures
            r@ == self.head_spec(),
    {
        match self {
            Failure::UnknownKind => "Error when handling transaction \"",
            Failure::Refused(_) => "Error when handling transaction \"",
            Failure::NotApplied => "Could not find applied transaction \"",
            Failure::DisputeRefused(_) => "Could not dispute transaction \"",
            Failure::NotDisputed => "Could not find disputed transaction \"",
            Failure::ResolveRefused(_) => "Could not resolve disputed transaction \"",
            Failure::ChargebackRefused(_) => "Could not charge back disputed transaction \"",
        }
    }

    fn tail(&self) -> (r: String)
        ensures
            r@ == self.tail_spec(),
    {
        match self {
            Failure::UnknownKind => "\": Unhandled transaction type".to_owned(),
            Failure::NotApplied => "\" to dispute".to_owned(),
            Failure::NotDisputed => "\" to resolve".to_owned(),
            Failure::Refused(e)
            | Failure::DisputeRefused(e)
            | Failure::ResolveRefused(e)
            | Failure::ChargebackRefused(e) => {
                let mut text = "\": ".to_owned();
                append(&mut text, e.message().as_str());
                text
            },
        }
    }
}

impl TransactionError {
    /// The error in words: what was tried, the transaction id in decimal between
    /// quotation marks, and what came of it.
    pub open spec fn message_spec(self) -> Seq<char> {
        self.failure.head_spec() + decimal_digits(self.tx as nat) + self.failure.tail_spec()
    }

    /// The error in words.
    pub fn message(&self) -> (r: String)
        ensures
            r@ == self.message_spec(),
    {
        let mut text = self.failure.head().to_owned();
        append_decimal(&mut text, self.tx);
        append(&mut text, self.failure.tail().as_str());
        text
    }
}

} // verus!
