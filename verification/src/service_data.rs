//! The part of the state that belongs to the services: a table of byte
//! strings under 32-byte keys, which transactions and hooks read and write.

use crate::crypto;
use crate::table::{Record, Table};
use vstd::prelude::*;

verus! {

/// The tables of the services, as one table from 32-byte keys to values.
pub struct ServiceData {
    entries: Table<crypto::Hash, Vec<u8>>,
}

impl View for ServiceData {
    type V = Map<crypto::Hash, Seq<u8>>;

    closed spec fn view(&self) -> Map<crypto::Hash, Seq<u8>> {
        self.entries@
    }
}

impl ServiceData {
    /// Service data without any entry.
    pub fn new() -> (r: Self)
        ensures
            r@ == Map::<crypto::Hash, Seq<u8>>::empty(),
    {
        ServiceData { entries: Table::new() }
    }

    /// Tells whether a value is stored under `key`.
    pub fn contains(&self, key: &crypto::Hash) -> (r: bool)
        ensures
            r == self@.contains_key(*key),
    {
        self.entries.contains(key)
    }

    /// Returns a copy of the value under `key`, if there is one.
    pub fn get(&self, key: &crypto::Hash) -> (r: Option<Vec<u8>>)
        ensures
            r is Some == self@.contains_key(*key),
            r matches Some(v) ==> v@ == self@[*key],
    {
        self.entries.get(key)
    }

    /// Stores `value` under `key`, in place of what was there.
    pub fn put(&mut self, key: crypto::Hash, value: Vec<u8>)
        ensures
            final(self)@ == old(self)@.insert(key, value@),
    {
        self.entries.put(key, value);
    }

    /// Removes the value under `key`, if there is one.
    pub fn remove(&mut self, key: &crypto::Hash)
        ensures
            final(self)@ == old(self)@.remove(*key),
    {
        let _ = self.entries.remove(key);
    }
}

impl Record for ServiceData {
    fn duplicate(&self) -> (r: Self) {
        ServiceData { entries: self.entries.duplicate_table() }
    }
}

} // verus!
