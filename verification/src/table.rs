//! A small table keyed by address, for the in-memory ledger.

use vstd::prelude::*;
use crate::address::{same_address, Address};

verus! {

/// A finite map from addresses to values. No address occurs twice.
#[derive(Debug)]
pub struct Table<T> {
    keys: Vec<Address>,
    values: Vec<T>,
}

/// Some position of `key` among `keys`.
spec fn slot_of(keys: Seq<Address>, key: Address) -> int {
    choose|i: int| 0 <= i < keys.len() && keys[i] == key
}

impl<T> View for Table<T> {
    type V = Map<Address, T>;

    closed spec fn view(&self) -> Map<Address, T> {
        Map::new(
            |key: Address| exists|i: int| 0 <= i < self.keys@.len() && self.keys@[i] == key,
            |key: Address| self.values@[slot_of(self.keys@, key)],
        )
    }
}

impl<T: Copy> Table<T> {
    /// Keys and values pair up, and the keys are distinct.
    pub closed spec fn wf(&self) -> bool {
        &&& self.keys@.len() == self.values@.len()
        &&& forall|i: int, j: int| 0 <= i < j < self.keys@.len() ==> self.keys@[i] != self.keys@[j]
    }

    /// The entry at position `i` is the table's entry for the key there.
    proof fn lemma_entry(&self, i: int)
        requires
            self.wf(),
            0 <= i < self.keys@.len(),
        ensures
            self@.dom().contains(self.keys@[i]),
            self@[self.keys@[i]] == self.values@[i],
    {
        let key = self.keys@[i];
        let found = slot_of(self.keys@, key);
        assert(0 <= found < self.keys@.len() && self.keys@[found] == key);
        assert(found == i);
    }

    /// The empty table.
    pub fn new() -> (table: Self)
        ensures
            table.wf(),
            table@ == Map::<Address, T>::empty(),
    {
        let table = Table { keys: Vec::new(), values: Vec::new() };
        assert(table@ =~= Map::<Address, T>::empty());
        table
    }

    /// The position of `key`, if the table has it.
    fn find(&self, key: &Address) -> (found: Option<usize>)
        requires
            self.wf(),
        ensures
            match found {
                Some(i) => i < self.keys@.len() && self.keys@[i as int] == *key && self@.dom().contains(*key)
                    && self@[*key] == self.values@[i as int],
                None => !self@.dom().contains(*key) && forall|i: int|
                    0 <= i < self.keys@.len() ==> self.keys@[i] != *key,
            },
    {
        let mut i: usize = 0;
        while i < self.keys.len()
            invariant
                self.wf(),
                i <= self.keys@.len(),
                forall|j: int| 0 <= j < i ==> self.keys@[j] != *key,
            decreases self.keys@.len() - i,
        {
            if same_address(&self.keys[i], key) {
                proof {
                    self.lemma_entry(i as int);
                }
                return Some(i);
            }
            i += 1;
        }
        None
    }

    /// The value at `key`, if the table has one there.
    pub fn get(&self, key: &Address) -> (value: Option<T>)
        requires
            self.wf(),
        ensures
            value == (if self@.dom().contains(*key) {
                Some(self@[*key])
            } else {
                None
            }),
    {
        match self.find(key) {
            Some(i) => Some(self.values[i]),
            None => None,
        }
    }

    /// Puts `value` at `key`, in place of what was there.
    pub fn insert(&mut self, key: Address, value: T)
        requires
            old(self).wf(),
        ensures
            final(self).wf(),
            final(self)@ == old(self)@.insert(key, value),
    {
        let ghost before = *self;
        match self.find(&key) {
            Some(i) => {
                self.values[i] = value;
                proof {
                    assert(self.wf());
                    assert forall|k: Address| #[trigger] self@.dom().contains(k) implies self@[k] == before@.insert(
                        key,
                        value,
                    )[k] by {
                        let j = slot_of(self.keys@, k);
                        self.lemma_entry(j);
                        before.lemma_entry(j);
                    }
                    assert(self@ =~= before@.insert(key, value));
                }
            },
            None => {
                self.keys.push(key);
                self.values.push(value);
                proof {
                    let n = before.keys@.len() as int;
                    assert(self.wf());
                    assert(self.keys@[n] == key);
                    assert forall|k: Address| before@.insert(key, value).dom().contains(k) implies #[trigger] self@.dom().contains(
                        k,
                    ) by {
                        if k == key {
                            assert(self.keys@[n] == k);
                        } else {
                            let j = slot_of(before.keys@, k);
                            assert(self.keys@[j] == k);
                        }
                    }
                    assert forall|k: Address| #[trigger] self@.dom().contains(k) implies before@.insert(
                        key,
                        value,
                    ).dom().contains(k) && self@[k] == before@.insert(key, value)[k] by {
                        let j = slot_of(self.keys@, k);
                        self.lemma_entry(j);
                        if j < n {
                            assert(before.keys@[j] == k);
                            before.lemma_entry(j);
                        }
                    }
                    assert(self@ =~= before@.insert(key, value));
                }
            },
        }
    }

    /// Takes out the entry at `key`, if there is one.
    pub fn remove(&mut self, key: &Address)
        requires
            old(self).wf(),
        ensures
            final(self).wf(),
            final(self)@ == old(self)@.remove(*key),
    {
        let ghost before = *self;
        match self.find(key) {
            Some(i) => {
                self.keys.remove(i);
                self.values.remove(i);
                proof {
                    assert(self.wf());
                    assert forall|k: Address| before@.remove(*key).dom().contains(k) implies #[trigger] self@.dom().contains(
                        k,
                    ) by {
                        let j = slot_of(before.keys@, k);
                        if j < i {
                            assert(self.keys@[j] == k);
                        } else {
                            assert(self.keys@[j - 1] == k);
                        }
                    }
                    assert forall|k: Address| #[trigger] self@.dom().contains(k) implies before@.remove(
                        *key,
                    ).dom().contains(k) && self@[k] == before@.remove(*key)[k] by {
                        let j = slot_of(self.keys@, k);
                        self.lemma_entry(j);
                        if j < i {
                            assert(before.keys@[j] == k);
                            before.lemma_entry(j);
                        } else {
                            assert(before.keys@[j + 1] == k);
                            before.lemma_entry(j + 1);
                        }
                    }
                    assert(self@ =~= before@.remove(*key));
                }
            },
            None => {
                assert(self@ =~= before@.remove(*key));
            },
        }
    }

    /// A table with the same entries.
    pub fn duplicate(&self) -> (copy: Self)
        requires
            self.wf(),
        ensures
            copy.wf(),
            copy@ == self@,
    {
        let mut keys: Vec<Address> = Vec::new();
        let mut values: Vec<T> = Vec::new();
        let mut i: usize = 0;
        while i < self.keys.len()
            invariant
                self.wf(),
                i <= self.keys@.len(),
                keys@ == self.keys@.subrange(0, i as int),
                values@ == self.values@.subrange(0, i as int),
            decreases self.keys@.len() - i,
        {
            keys.push(self.keys[i]);
            values.push(self.values[i]);
            i += 1;
            assert(keys@ =~= self.keys@.subrange(0, i as int));
            assert(values@ =~= self.values@.subrange(0, i as int));
        }
        assert(keys@ =~= self.keys@);
        assert(values@ =~= self.values@);
        let copy = Table { keys, values };
        assert(copy@ =~= self@);
        copy
    }
}

} // verus!
