//! Ordered lists of records: block hashes by height, the transactions of a
//! block, precommits, cached consensus messages.

use crate::table::Record;
use vstd::prelude::*;

verus! {

/// The views of the items of `s`, in order.
pub open spec fn items_view<V: View>(s: Seq<V>) -> Seq<V::V> {
    Seq::new(s.len(), |i: int| s[i]@)
}

/// An append-only list of records.
pub struct List<V: Record> {
    items: Vec<V>,
}

impl<V: Record> View for List<V> {
    type V = Seq<V::V>;

    closed spec fn view(&self) -> Seq<V::V> {
        items_view(self.items@)
    }
}

impl<V: Record> List<V> {
    /// A list without items.
    pub fn new() -> (r: Self)
        ensures
            r@ == Seq::<V::V>::empty(),
    {
        let r = List { items: Vec::new() };
        r
    }

    /// Wraps the items of `items` as a list, in their order.
    pub fn from_vec(items: Vec<V>) -> (r: Self)
        ensures
            r@ == items_view(items@),
    {
        List { items }
    }

    /// The number of items.
    pub fn len(&self) -> (r: usize)
        ensures
            r == self@.len(),
    {
        self.items.len()
    }

    /// Tells whether the list has no item.
    pub fn is_empty(&self) -> (r: bool)
        ensures
            r == (self@.len() == 0),
    {
        self.items.len() == 0
    }

    /// Returns a copy of the item at `index`, if the list is that long.
    pub fn get(&self, index: usize) -> (r: Option<V>)
        ensures
            r is Some == (index < self@.len()),
            r matches Some(v) ==> v@ == self@[index as int],
    {
        if index < self.items.len() {
            Some(self.items[index].duplicate())
        } else {
            None
        }
    }

    /// Returns a copy of the last item, if there is one.
    pub fn last(&self) -> (r: Option<V>)
        ensures
            r is Some == (self@.len() > 0),
            r matches Some(v) ==> v@ == self@.last(),
    {
        if self.items.len() > 0 {
            Some(self.items[self.items.len() - 1].duplicate())
        } else {
            None
        }
    }

    /// Appends `value`.
    pub fn push(&mut self, value: V)
        ensures
            final(self)@ == old(self)@.push(value@),
    {
        self.items.push(value);
    }

    /// Appends the items of `values`, in their order.
    pub fn extend(&mut self, values: Vec<V>)
        ensures
            final(self)@ == old(self)@ + items_view(values@),
    {
        let mut values = values;
        self.items.append(&mut values);
    }

    /// Removes every item.
    pub fn clear(&mut self)
        ensures
            final(self)@ == Seq::<V::V>::empty(),
    {
        self.items.clear();
    }

    /// The items as a vector, for code that reads them in order.
    pub fn as_vec(&self) -> (r: &Vec<V>)
        ensures
            items_view(r@) == self@,
    {
        &self.items
    }

    /// Returns a list with the same view.
    pub fn duplicate_list(&self) -> (r: Self)
        ensures
            r@ == self@,
    {
        let mut items: Vec<V> = Vec::new();
        let mut i: usize = 0;
        while i < self.items.len()
            invariant
                0 <= i <= self.items@.len(),
                items@.len() == i,
                forall|j: int| 0 <= j < i ==> (#[trigger] items@[j])@ == self.items@[j]@,
            decreases self.items@.len() - i,
        {
            items.push(self.items[i].duplicate());
            i += 1;
        }
        let r = List { items };
        r
    }
}

impl<V: Record> Record for List<V> {
    fn duplicate(&self) -> (r: Self) {
        self.duplicate_list()
    }
}

} // verus!
