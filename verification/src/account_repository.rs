//! The accounts of all clients, by client id.

use crate::account::Account;
use std::collections::HashMap;
use vstd::prelude::*;
use vstd::std_specs::iter::IteratorSpec;

verus! {

broadcast use vstd::std_specs::hash::group_hash_axioms;

/// A table from client ids to accounts.
pub struct AccountRepository {
    pub data: HashMap<u16, Account>,
}

impl View for AccountRepository {
    type V = Map<u16, Account>;

    open spec fn view(&self) -> Map<u16, Account> {
        self.data@
    }
}

/// Whether `accounts` holds the accounts of `table` one for one: `clients` names each
/// client of the table once, and `accounts` holds their accounts in the same order.
pub open spec fn lists(
    table: Map<u16, Account>,
    clients: Seq<u16>,
    accounts: Seq<Account>,
) -> bool {
    &&& clients.no_duplicates()
    &&& clients.len() == accounts.len()
    &&& clients.len() == table.dom().len()
    &&& clients.to_set() == table.dom()
    &&& forall|i: int| 0 <= i < clients.len() ==> accounts[i] == #[trigger] table[clients[i]]
}

impl AccountRepository {
    /// An empty table.
    pub fn new() -> (r: Self)
        ensures
            r@ == Map::<u16, Account>::empty(),
    {
        Self { data: HashMap::new() }
    }

    /// The account of `client`, which is made empty where the table has none.
    pub fn get_or_create(&mut self, client: u16) -> (account: &mut Account)
        ensures
            *account == (if old(self)@.contains_key(client) {
                old(self)@[client]
            } else {
                Account::spec_empty(client)
            }),
            final(self)@ == old(self)@.insert(client, *final(account)),
    {
        self.data.entry(client).or_insert(Account::empty(client))
    }

    /// A copy of every account in the table, in no particular order.
    pub fn all(&self) -> (accounts: Vec<Account>)
        ensures
            exists|clients: Seq<u16>| lists(self@, clients, accounts@),
    {
        let mut accounts: Vec<Account> = Vec::new();
        let ghost entries = self.data.iter().remaining();
        for entry in it: self.data.iter()
            invariant
                it.seq() == entries,
                accounts@.len() == it.index(),
                forall|i: int| 0 <= i < it.index() ==> accounts@[i] == *entries[i].1,
        {
            accounts.push(*entry.1);
        }
        proof {
            let clients = Seq::new(entries.len(), |i: int| *entries[i].0);
            assert forall|i: int| 0 <= i < clients.len() implies accounts@[i]
                == #[trigger] self@[clients[i]] by {
                assert(self@.contains_key(*entries[i].0));
            }
            assert forall|i: int, j: int|
                0 <= i < clients.len() && 0 <= j < clients.len() && i != j implies clients[i]
                != clients[j] by {
                assert(self@.contains_key(*entries[i].0));
                assert(self@.contains_key(*entries[j].0));
                if clients[i] == clients[j] {
                    assert(entries[i] == entries[j]);
                }
            }
            assert(clients.to_set() =~= self@.dom()) by {
                assert forall|k: u16| self@.dom().contains(k) implies clients.to_set().contains(
                    k,
                ) by {
                    assert(self@.contains_key(k));
                    assert(entries.contains((&k, &self@[k])));
                    let i = choose|i: int| 0 <= i < entries.len() && entries[i] == (&k, &self@[k]);
                    assert(clients[i] == k);
                }
                assert forall|k: u16| clients.to_set().contains(k) implies self@.dom().contains(
                    k,
                ) by {
                    let i = choose|i: int| 0 <= i < clients.len() && clients[i] == k;
                    assert(self@.contains_key(*entries[i].0));
                }
            }
            assert(lists(self@, clients, accounts@));
        }
        accounts
    }
}

} // verus!
