//! Amounts remembered by transaction id.

use crate::amount::Amount;
use std::collections::HashMap;
use vstd::prelude::*;

verus! {

broadcast use vstd::std_specs::hash::group_hash_axioms;

/// A table from transaction ids to amounts.
pub struct CachedAmounts {
    data: HashMap<u32, Amount>,
}

impl View for CachedAmounts {
    type V = Map<u32, Amount>;

    closed spec fn view(&self) -> Map<u32, Amount> {
        self.data@
    }
}

impl CachedAmounts {
    /// An empty table.
    pub fn new() -> (r: Self)
        ensures
            r@ == Map::<u32, Amount>::empty(),
    {
        Self { data: HashMap::new() }
    }

    /// Remembers `amount` for `tx`, in place of what was remembered for it before.
    pub fn add(&mut self, tx: u32, amount: Amount)
        ensures
            final(self)@ == old(self)@.insert(tx, amount),
    {
        self.data.insert(tx, amount);
    }

    /// Forgets what was remembered for `tx`.
    pub fn remove(&mut self, tx: u32)
        ensures
            final(self)@ == old(self)@.remove(tx),
    {
        self.data.remove(&tx);
    }

    /// What is remembered for `tx`. The table stays as it is.
    pub fn get(&mut self, tx: u32) -> (r: Option<Amount>)
        ensures
            final(self)@ == old(self)@,
            r == old(self)@.get(tx),
    {
        match self.data.get(&tx) {
            Some(amount) => Some(*amount),
            None => None,
        }
    }
}

/// What a lookup finds depends on the last `add` or `remove` for the same transaction id
/// alone: after `add` it is the amount that was added, after `remove` nothing, and an
/// `add` or `remove` for another id leaves it as it was.
pub proof fn lemma_lookup_after_change(table: Map<u32, Amount>, tx: u32, other: u32, amount: Amount)
    ensures
        table.insert(tx, amount).get(tx) == Some(amount),
        table.remove(tx).get(tx) == None::<Amount>,
        other != tx ==> table.insert(tx, amount).get(other) == table.get(other),
        other != tx ==> table.remove(tx).get(other) == table.get(other),
{
}

} // verus!
