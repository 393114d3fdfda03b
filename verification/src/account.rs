//! One client's balances, and the five operations that change them.

use crate::amount::{
    amount_of, lemma_amount_of_parts, lemma_difference_is_exact, lemma_sum_is_exact, Amount,
};
use vstd::prelude::*;

verus! {

/// Why an operation on an account was refused.
#[derive(Clone, Copy, Debug, PartialEq, Eq, Structural)]
pub enum AccountError {
    /// The amount is larger than what is available.
    InsufficientAvailableFunds,
    /// The amount is larger than what is held.
    InsufficientHeldFunds,
    /// A new balance cannot be written exactly as a decimal within the limits.
    AmountOutOfRange,
}

impl AccountError {
    /// The error in words.
    pub open spec fn message_spec(self) -> Seq<char> {
        match self {
            AccountError::InsufficientAvailableFunds => "Insufficient available funds"@,
            AccountError::InsufficientHeldFunds => "Insufficient held funds"@,
            AccountError::AmountOutOfRange => "Amount out of range"@,
        }
    }

    /// The error in words.
    pub fn message(&self) -> (r: String)
        ensures
            r@ == self.message_spec(),
    {
        match self {
            AccountError::InsufficientAvailableFunds => "Insufficient available funds".to_owned(),
            AccountError::InsufficientHeldFunds => "Insufficient held funds".to_owned(),
            AccountError::AmountOutOfRange => "Amount out of range".to_owned(),
        }
    }
}

/// An account as numbers: each balance in units of `10^-28`.
pub struct AccountView {
    pub client: u16,
    pub available: int,
    pub held: int,
    pub total: int,
    pub locked: bool,
}

impl AccountView {
    /// The total is what is available and what is held together.
    pub open spec fn balanced(self) -> bool {
        self.total == self.available + self.held
    }

    /// Whether no balance is negative.
    pub open spec fn non_negative(self) -> bool {
        self.available >= 0 && self.held >= 0 && self.total >= 0
    }

    /// The account of `client` with nothing in it.
    pub open spec fn empty(client: u16) -> AccountView {
        AccountView { client, available: 0, held: 0, total: 0, locked: false }
    }

    /// Adds `amount` to what is available.
    pub open spec fn deposit(self, amount: int) -> AccountView {
        AccountView { available: self.available + amount, total: self.total + amount, ..self }
    }

    /// Takes `amount` from what is available.
    pub open spec fn withdraw(self, amount: int) -> Result<AccountView, AccountError> {
        if amount > self.available {
            Err(AccountError::InsufficientAvailableFunds)
        } else {
            Ok(
                AccountView {
                    available: self.available - amount,
                    total: self.total - amount,
                    ..self
                },
            )
        }
    }

    /// Moves `amount` from what is available to what is held.
    pub open spec fn dispute(self, amount: int) -> Result<AccountView, AccountError> {
        if amount > self.available {
            Err(AccountError::InsufficientAvailableFunds)
        } else {
            Ok(
                AccountView {
                    available: self.available - amount,
                    held: self.held + amount,
                    ..self
                },
            )
        }
    }

    /// Moves `amount` from what is held back to what is available.
    pub open spec fn resolve(self, amount: int) -> Result<AccountView, AccountError> {
        if amount > self.held {
            Err(AccountError::InsufficientHeldFunds)
        } else {
            Ok(
                AccountView {
                    available: self.available + amount,
                    held: self.held - amount,
                    ..self
                },
            )
        }
    }

    /// Takes `amount` from what is held for good, and locks the account.
    pub open spec fn chargeback(self, amount: int) -> Result<AccountView, AccountError> {
        if amount > self.held {
            Err(AccountError::InsufficientHeldFunds)
        } else {
            Ok(
                AccountView {
                    held: self.held - amount,
                    total: self.total - amount,
                    locked: true,
                    ..self
                },
            )
        }
    }

    /// Each operation keeps the total equal to what is available and what is held together.
    pub proof fn lemma_operations_keep_balance(self, amount: int)
        requires
            self.balanced(),
        ensures
            self.deposit(amount).balanced(),
            self.withdraw(amount) matches Ok(a) ==> a.balanced(),
            self.dispute(amount) matches Ok(a) ==> a.balanced(),
            self.resolve(amount) matches Ok(a) ==> a.balanced(),
            self.chargeback(amount) matches Ok(a) ==> a.balanced(),
    {
    }

    /// On a balanced account without a negative balance, no operation with an amount that
    /// is not negative leaves a negative balance.
    pub proof fn lemma_operations_keep_non_negative(self, amount: int)
        requires
            self.balanced(),
            self.non_negative(),
            amount >= 0,
        ensures
            self.deposit(amount).non_negative(),
            self.withdraw(amount) matches Ok(a) ==> a.non_negative(),
            self.dispute(amount) matches Ok(a) ==> a.non_negative(),
            self.resolve(amount) matches Ok(a) ==> a.non_negative(),
            self.chargeback(amount) matches Ok(a) ==> a.non_negative(),
    {
    }
}

/// The balances of one client.
#[derive(Clone, Copy, Debug, PartialEq)]
pub struct Account {
    pub client: u16,
    pub available: Amount,
    pub held: Amount,
    pub total: Amount,
    pub locked: bool,
}

impl View for Account {
    type V = AccountView;

    open spec fn view(&self) -> AccountView {
        AccountView {
            client: self.client,
            available: self.available@,
            held: self.held@,
            total: self.total@,
            locked: self.locked,
        }
    }
}

impl Account {
    /// The account with nothing in it: each balance is zero with scale 0.
    pub open spec fn spec_empty(client: u16) -> Account {
        Account {
            client,
            available: amount_of(0, 0),
            held: amount_of(0, 0),
            total: amount_of(0, 0),
            locked: false,
        }
    }

    /// The account after a deposit of `amount`, or why there is none.
    pub open spec fn deposited(self, amount: Amount) -> Result<Account, AccountError> {
        match (self.available.sum(amount), self.total.sum(amount)) {
            (Some(available), Some(total)) => Ok(Account { available, total, ..self }),
            _ => Err(AccountError::AmountOutOfRange),
        }
    }

    /// The account after a withdrawal of `amount`, or why there is none.
    pub open spec fn withdrawn(self, amount: Amount) -> Result<Account, AccountError> {
        if amount@ > self.available@ {
            Err(AccountError::InsufficientAvailableFunds)
        } else {
            match (self.available.difference(amount), self.total.difference(amount)) {
                (Some(available), Some(total)) => Ok(Account { available, total, ..self }),
                _ => Err(AccountError::AmountOutOfRange),
            }
        }
    }

    /// The account after a dispute over `amount`, or why there is none.
    pub open spec fn disputed(self, amount: Amount) -> Result<Account, AccountError> {
        if amount@ > self.available@ {
            Err(AccountError::InsufficientAvailableFunds)
        } else {
            match (self.available.difference(amount), self.held.sum(amount)) {
                (Some(available), Some(held)) => Ok(Account { available, held, ..self }),
                _ => Err(AccountError::AmountOutOfRange),
            }
        }
    }

    /// The account after a dispute over `amount` is resolved, or why there is none.
    pub open spec fn resolved(self, amount: Amount) -> Result<Account, AccountError> {
        if amount@ > self.held@ {
            Err(AccountError::InsufficientHeldFunds)
        } else {
            match (self.available.sum(amount), self.held.difference(amount)) {
                (Some(available), Some(held)) => Ok(Account { available, held, ..self }),
                _ => Err(AccountError::AmountOutOfRange),
            }
        }
    }

    /// The account after `amount` is charged back, or why there is none.
    pub open spec fn charged_back(self, amount: Amount) -> Result<Account, AccountError> {
        if amount@ > self.held@ {
            Err(AccountError::InsufficientHeldFunds)
        } else {
            match (self.held.difference(amount), self.total.difference(amount)) {
                (Some(held), Some(total)) => Ok(Account { held, total, locked: true, ..self }),
                _ => Err(AccountError::AmountOutOfRange),
            }
        }
    }

    /// An operation that goes through changes the balances as the same operation on
    /// numbers does, and one that is refused for want of funds is refused on numbers too.
    pub proof fn lemma_operations_follow_numbers(self, amount: Amount)
        ensures
            self.deposited(amount) matches Ok(a) ==> a@ == self@.deposit(amount@),
            self.withdrawn(amount) matches Ok(a) ==> self@.withdraw(amount@) == Ok::<
                AccountView,
                AccountError,
            >(a@),
            self.disputed(amount) matches Ok(a) ==> self@.dispute(amount@) == Ok::<
                AccountView,
                AccountError,
            >(a@),
            self.resolved(amount) matches Ok(a) ==> self@.resolve(amount@) == Ok::<
                AccountView,
                AccountError,
            >(a@),
            self.charged_back(amount) matches Ok(a) ==> self@.chargeback(amount@) == Ok::<
                AccountView,
                AccountError,
            >(a@),
            self@.withdraw(amount@) matches Err(e) ==> self.withdrawn(amount) == Err::<
                Account,
                AccountError,
            >(e),
            self@.dispute(amount@) matches Err(e) ==> self.disputed(amount) == Err::<
                Account,
                AccountError,
            >(e),
            self@.resolve(amount@) matches Err(e) ==> self.resolved(amount) == Err::<
                Account,
                AccountError,
            >(e),
            self@.chargeback(amount@) matches Err(e) ==> self.charged_back(amount) == Err::<
                Account,
                AccountError,
            >(e),
    {
        lemma_sum_is_exact(self.available, amount);
        lemma_sum_is_exact(self.held, amount);
        lemma_sum_is_exact(self.total, amount);
        lemma_difference_is_exact(self.available, amount);
        lemma_difference_is_exact(self.held, amount);
        lemma_difference_is_exact(self.total, amount);
    }

    /// The empty account has nothing in it.
    pub proof fn lemma_empty(client: u16)
        ensures
            Account::spec_empty(client)@ == AccountView::empty(client),
    {
        lemma_amount_of_parts(0, 0);
    }

    /// A new account with the given balances, whose total is their sum.
    pub fn new(client: u16, available: Amount, held: Amount, locked: bool) -> (r: Account)
        requires
            available.sum(held) is Some,
        ensures
            r == (Account { client, available, held, total: available.sum(held)->0, locked }),
            r@.balanced(),
    {
        let total = available.checked_add(held).unwrap();
        Account { client, available, held, total, locked }
    }

    /// A new account with the given balances, unless their sum cannot be written exactly.
    pub fn try_new(client: u16, available: Amount, held: Amount, locked: bool) -> (r: Option<
        Account,
    >)
        ensures
            match available.sum(held) {
                Some(total) => r == Some(Account { client, available, held, total, locked }),
                None => r is None,
            },
            r matches Some(a) ==> a@.balanced(),
    {
        if available.checked_add(held).is_some() {
            Some(Account::new(client, available, held, locked))
        } else {
            None
        }
    }

    /// A new account with nothing in it.
    pub fn empty(client: u16) -> (r: Account)
        ensures
            r == Account::spec_empty(client),
            r@ == AccountView::empty(client),
    {
        Account {
            client,
            available: Amount::zero(),
            held: Amount::zero(),
            total: Amount::zero(),
            locked: false,
        }
    }

    /// Adds `amount` to what is available. Fails only where a new balance cannot be
    /// written exactly, and then changes nothing.
    pub fn deposit(&mut self, amount: Amount) -> (r: Result<(), AccountError>)
        ensures
            match old(self).deposited(amount) {
                Ok(a) => r is Ok && *final(self) == a,
                Err(e) => r == Err::<(), AccountError>(e) && *final(self) == *old(self),
            },
            r is Ok ==> final(self)@ == old(self)@.deposit(amount@),
            old(self)@.balanced() ==> final(self)@.balanced(),
            old(self)@.balanced() && old(self)@.non_negative() && amount@ >= 0
                ==> final(self)@.non_negative(),
    {
        proof {
            self.lemma_operations_follow_numbers(amount);
        }
        match (self.available.checked_add(amount), self.total.checked_add(amount)) {
            (Some(available), Some(total)) => {
                self.available = available;
                self.total = total;
                Ok(())
            },
            _ => Err(AccountError::AmountOutOfRange),
        }
    }

    /// Takes `amount` from what is available, unless it is more than that. Where it fails it
    /// changes nothing.
    pub fn withdraw(&mut self, amount: Amount) -> (r: Result<(), AccountError>)
        ensures
            match old(self).withdrawn(amount) {
                Ok(a) => r is Ok && *final(self) == a,
                Err(e) => r == Err::<(), AccountError>(e) && *final(self) == *old(self),
            },
            r is Ok ==> old(self)@.withdraw(amount@) == Ok::<AccountView, AccountError>(
                final(self)@,
            ),
            old(self)@.withdraw(amount@) matches Err(e) ==> r == Err::<(), AccountError>(e),
            old(self)@.balanced() ==> final(self)@.balanced(),
            old(self)@.balanced() && old(self)@.non_negative() && amount@ >= 0
                ==> final(self)@.non_negative(),
    {
        proof {
            self.lemma_operations_follow_numbers(amount);
        }
        if amount.gt(self.available) {
            return Err(AccountError::InsufficientAvailableFunds);
        }
        match (self.available.checked_sub(amount), self.total.checked_sub(amount)) {
            (Some(x), Some(y)) => {
                self.available = x;
                self.total = y;
                Ok(())
            },
            _ => Err(AccountError::AmountOutOfRange),
        }
    }

    /// Moves `amount` from what is available to what is held, unless it is more than what is
    /// available. Where it fails it changes nothing.
    pub fn dispute(&mut self, amount: Amount) -> (r: Result<(), AccountError>)
        ensures
            match old(self).disputed(amount) {
                Ok(a) => r is Ok && *final(self) == a,
                Err(e) => r == Err::<(), AccountError>(e) && *final(self) == *old(self),
            },
            r is Ok ==> old(self)@.dispute(amount@) == Ok::<AccountView, AccountError>(
                final(self)@,
            ),
            old(self)@.dispute(amount@) matches Err(e) ==> r == Err::<(), AccountError>(e),
            old(self)@.balanced() ==> final(self)@.balanced(),
            old(self)@.balanced() && old(self)@.non_negative() && amount@ >= 0
                ==> final(self)@.non_negative(),
    {
        proof {
            self.lemma_operations_follow_numbers(amount);
        }
        if amount.gt(self.available) {
            return Err(AccountError::InsufficientAvailableFunds);
        }
        match (self.available.checked_sub(amount), self.held.checked_add(amount)) {
            (Some(x), Some(y)) => {
                self.available = x;
                self.held = y;
                Ok(())
            },
            _ => Err(AccountError::AmountOutOfRange),
        }
    }

    /// Moves `amount` from what is held back to what is available, unless it is more than
    /// what is held. Where it fails it changes nothing.
    pub fn resolve(&mut self, amount: Amount) -> (r: Result<(), AccountError>)
        ensures
            match old(self).resolved(amount) {
                Ok(a) => r is Ok && *final(self) == a,
                Err(e) => r == Err::<(), AccountError>(e) && *final(self) == *old(self),
            },
            r is Ok ==> old(self)@.resolve(amount@) == Ok::<AccountView, AccountError>(
                final(self)@,
            ),
            old(self)@.resolve(amount@) matches Err(e) ==> r == Err::<(), AccountError>(e),
            old(self)@.balanced() ==> final(self)@.balanced(),
            old(self)@.balanced() && old(self)@.non_negative() && amount@ >= 0
                ==> final(self)@.non_negative(),
    {
        proof {
            self.lemma_operations_follow_numbers(amount);
        }
        if amount.gt(self.held) {
            return Err(AccountError::InsufficientHeldFunds);
        }
        match (self.available.checked_add(amount), self.held.checked_sub(amount)) {
            (Some(x), Some(y)) => {
                self.available = x;
                self.held = y;
                Ok(())
            },
            _ => Err(AccountError::AmountOutOfRange),
        }
    }

    /// Takes `amount` from what is held for good and locks the account, unless it is more
    /// than what is held. Where it fails it changes nothing.
    pub fn chargeback(&mut self, amount: Amount) -> (r: Result<(), AccountError>)
        ensures
            match old(self).charged_back(amount) {
                Ok(a) => r is Ok && *final(self) == a,
                Err(e) => r == Err::<(), AccountError>(e) && *final(self) == *old(self),
            },
            r is Ok ==> old(self)@.chargeback(amount@) == Ok::<AccountView, AccountError>(
                final(self)@,
            ),
            old(self)@.chargeback(amount@) matches Err(e) ==> r == Err::<(), AccountError>(e),
            old(self)@.balanced() ==> final(self)@.balanced(),
            old(self)@.balanced() && old(self)@.non_negative() && amount@ >= 0
                ==> final(self)@.non_negative(),
    {
        proof {
            self.lemma_operations_follow_numbers(amount);
        }
        if amount.gt(self.held) {
            return Err(AccountError::InsufficientHeldFunds);
        }
        match (self.held.checked_sub(amount), self.total.checked_sub(amount)) {
            (Some(x), Some(y)) => {
                self.held = x;
                self.total = y;
                self.locked = true;
                Ok(())
            },
            _ => Err(AccountError::AmountOutOfRange),
        }
    }
}

} // verus!
