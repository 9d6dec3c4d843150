//! The set of keys or buttons that are held down.

use crate::protocol::{KeyCode, MouseButton};
use vstd::prelude::*;

verus! {

/// Values that can be told apart by comparing them.
pub trait Identity: Copy {
    fn same(self, other: Self) -> (same: bool)
        ensures
            same == (self == other),
    ;
}

impl Identity for KeyCode {
    fn same(self, other: Self) -> (same: bool) {
        self == other
    }
}

impl Identity for MouseButton {
    fn same(self, other: Self) -> (same: bool) {
        self == other
    }
}

/// A set of held inputs. Nothing occurs in it twice.
pub struct HeldSet<T: Identity> {
    items: Vec<T>,
}

impl<T: Identity> View for HeldSet<T> {
    type V = Set<T>;

    closed spec fn view(&self) -> Set<T> {
        self.items@.to_set()
    }
}

impl<T: Identity> HeldSet<T> {
    #[verifier::type_invariant]
    spec fn nothing_twice(self) -> bool {
        self.items@.no_duplicates()
    }

    pub fn new() -> (held: Self)
        ensures
            held@ == Set::<T>::empty(),
    {
        let held = HeldSet { items: Vec::new() };
        assert(held@ =~= Set::<T>::empty());
        held
    }

    /// The position of an item, or the number of items.
    fn position(&self, item: T) -> (at: usize)
        ensures
            at <= self.items@.len(),
            at < self.items@.len() ==> self.items@[at as int] == item,
            at == self.items@.len() ==> !self@.contains(item),
    {
        let mut at: usize = 0;
        while at < self.items.len() && !self.items[at].same(item)
            invariant
                at <= self.items@.len(),
                forall|i: int| 0 <= i < at ==> self.items@[i] != item,
            decreases self.items@.len() - at,
        {
            at = at + 1;
        }
        at
    }

    pub fn contains(&self, item: T) -> (yes: bool)
        ensures
            yes == self@.contains(item),
    {
        self.position(item) < self.items.len()
    }

    /// Adds an item, and tells whether it was absent before.
    pub fn insert(&mut self, item: T) -> (added: bool)
        ensures
            added == !old(self)@.contains(item),
            final(self)@ == old(self)@.insert(item),
    {
        proof {
            use_type_invariant(&*self);
        }
        if self.contains(item) {
            assert(self@ =~= old(self)@.insert(item));
            return false;
        }
        let mut items: Vec<T> = Vec::new();
        std::mem::swap(&mut items, &mut self.items);
        let ghost before = items@;
        items.push(item);
        proof {
            assert forall|i: int, j: int|
                0 <= i < items@.len() && 0 <= j < items@.len() && i != j implies items@[i]
                != items@[j] by {
                assert(!before.to_set().contains(item));
                if i < before.len() {
                    assert(before.contains(before[i]));
                }
                if j < before.len() {
                    assert(before.contains(before[j]));
                }
            }
            assert(items@.to_set() =~= before.to_set().insert(item)) by {
                assert forall|x: T| items@.contains(x) == before.to_set().insert(item).contains(
                    x,
                ) by {
                    if before.contains(x) {
                        let k = choose|k: int| 0 <= k < before.len() && before[k] == x;
                        assert(items@[k] == x);
                    }
                    if x == item {
                        assert(items@[before.len() as int] == x);
                    }
                }
            }
        }
        self.items = items;
        true
    }

    /// Removes an item, and tells whether it was present before.
    pub fn remove(&mut self, item: T) -> (removed: bool)
        ensures
            removed == old(self)@.contains(item),
            final(self)@ == old(self)@.remove(item),
    {
        proof {
            use_type_invariant(&*self);
        }
        let at: usize = self.position(item);
        if at == self.items.len() {
            assert(self@ =~= old(self)@.remove(item));
            return false;
        }
        let mut items: Vec<T> = Vec::new();
        std::mem::swap(&mut items, &mut self.items);
        let ghost before = items@;
        let _ = items.remove(at);
        proof {
            assert(items@ =~= before.remove(at as int));
            assert(items@.to_set() =~= before.to_set().remove(item)) by {
                assert forall|x: T| items@.contains(x) == before.to_set().remove(item).contains(
                    x,
                ) by {
                    if items@.contains(x) {
                        let k = choose|k: int| 0 <= k < items@.len() && items@[k] == x;
                        let source = if k < at { k } else { k + 1 };
                        assert(before[source] == x);
                        assert(before[at as int] == item);
                    }
                    if before.contains(x) && x != item {
                        let k = choose|k: int| 0 <= k < before.len() && before[k] == x;
                        let target = if k < at { k } else { k - 1 };
                        assert(items@[target] == x);
                    }
                }
            }
            assert(before.contains(before[at as int]));
        }
        self.items = items;
        true
    }

    /// Some held item, if there is one.
    pub fn any(&self) -> (item: Option<T>)
        ensures
            item is None <==> self@ == Set::<T>::empty(),
            item matches Some(found) ==> self@.contains(found),
    {
        if self.items.len() == 0 {
            assert(self@ =~= Set::<T>::empty());
            None
        } else {
            assert(self.items@.contains(self.items@[0]));
            assert(self@.contains(self.items@[0]));
            assert(!Set::<T>::empty().contains(self.items@[0]));
            Some(self.items[0])
        }
    }

    pub fn clear(&mut self)
        ensures
            final(self)@ == Set::<T>::empty(),
    {
        self.items = Vec::new();
        assert(self@ =~= Set::<T>::empty());
    }

    /// The held items, each once, in no promised order.
    pub fn items(&self) -> (items: Vec<T>)
        ensures
            items@.no_duplicates(),
            items@.to_set() == self@,
    {
        proof {
            use_type_invariant(self);
        }
        let mut items: Vec<T> = Vec::new();
        let mut i: usize = 0;
        while i < self.items.len()
            invariant
                i <= self.items@.len(),
                items@ == self.items@.take(i as int),
            decreases self.items@.len() - i,
        {
            items.push(self.items[i]);
            i = i + 1;
        }
        assert(items@ =~= self.items@);
        items
    }
}

} // verus!
