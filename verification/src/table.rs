//! A small table of values that expire.

use crate::text::text_eq;
use vstd::prelude::*;

verus! {

/// What an entry of a table is found by.
pub trait TableKey: Sized {
    type Id;

    spec fn id(&self) -> Self::Id;

    fn same(&self, other: &Self) -> (same: bool)
        ensures
            same == (self.id() == other.id()),
    ;
}

impl TableKey for String {
    type Id = Seq<char>;

    open spec fn id(&self) -> Seq<char> {
        self@
    }

    fn same(&self, other: &Self) -> (same: bool) {
        text_eq(self.as_str(), other.as_str())
    }
}

/// A value that is worth keeping only for some time.
pub trait Expiring: Copy {
    spec fn live(self, now: u128) -> bool;

    fn is_live(self, now: u128) -> (live: bool)
        ensures
            live == self.live(now),
    ;
}

/// The time at which something ends.
#[derive(Debug, Clone, Copy, PartialEq, Eq, Structural)]
pub struct Expiry(pub u128);

impl Expiring for Expiry {
    open spec fn live(self, now: u128) -> bool {
        self.0 > now
    }

    fn is_live(self, now: u128) -> (live: bool) {
        self.0 > now
    }
}

/// The part of a map that is still live.
pub open spec fn live_part<I, V: Expiring>(map: Map<I, V>, now: u128) -> Map<I, V> {
    map.restrict(Set::new(|id: I| map.contains_key(id) && map[id].live(now)))
}

/// The entries as a map; a later entry would hide an earlier one of the same key.
pub open spec fn as_map<K: TableKey, V>(entries: Seq<(K, V)>) -> Map<K::Id, V>
    decreases entries.len(),
{
    if entries.len() == 0 {
        Map::empty()
    } else {
        as_map(entries.drop_last()).insert(entries.last().0.id(), entries.last().1)
    }
}

/// No key occurs twice.
pub open spec fn distinct<K: TableKey, V>(entries: Seq<(K, V)>) -> bool {
    forall|i: int, j: int|
        0 <= i < j < entries.len() ==> (#[trigger] entries[i]).0.id() != (
        #[trigger] entries[j]).0.id()
}

/// A table without duplicate keys.
pub struct Table<K: TableKey, V: Expiring> {
    entries: Vec<(K, V)>,
}

impl<K: TableKey, V: Expiring> View for Table<K, V> {
    type V = Map<K::Id, V>;

    closed spec fn view(&self) -> Map<K::Id, V> {
        as_map(self.entries@)
    }
}

proof fn lemma_as_map<K: TableKey, V>(entries: Seq<(K, V)>)
    requires
        distinct(entries),
    ensures
        as_map(entries).dom().finite(),
        as_map(entries).len() == entries.len(),
        forall|i: int|
            0 <= i < entries.len() ==> as_map(entries).contains_key(
                (#[trigger] entries[i]).0.id(),
            ) && as_map(entries)[entries[i].0.id()] == entries[i].1,
        forall|id: K::Id| #[trigger]
            as_map(entries).contains_key(id) ==> exists|i: int|
                0 <= i < entries.len() && (#[trigger] entries[i]).0.id() == id,
    decreases entries.len(),
{
    if entries.len() > 0 {
        let shorter = entries.drop_last();
        lemma_as_map(shorter);
        let last = entries.last();
        assert(!as_map(shorter).contains_key(last.0.id())) by {
            if as_map(shorter).contains_key(last.0.id()) {
                let i = choose|i: int|
                    0 <= i < shorter.len() && (#[trigger] shorter[i]).0.id() == last.0.id();
                assert(entries[i] == shorter[i]);
                assert(entries[entries.len() - 1] == last);
            }
        }
        assert forall|i: int| 0 <= i < entries.len() implies as_map(entries).contains_key(
            (#[trigger] entries[i]).0.id(),
        ) && as_map(entries)[entries[i].0.id()] == entries[i].1 by {
            if i < shorter.len() {
                assert(shorter[i] == entries[i]);
            }
        }
        assert forall|id: K::Id| #[trigger] as_map(entries).contains_key(id) implies exists|i: int|
            0 <= i < entries.len() && (#[trigger] entries[i]).0.id() == id by {
            if id == last.0.id() {
                assert(entries[entries.len() - 1].0.id() == id);
            } else {
                let i = choose|i: int|
                    0 <= i < shorter.len() && (#[trigger] shorter[i]).0.id() == id;
                assert(entries[i].0.id() == id);
            }
        }
    }
}

/// A map is determined by the entries that make it up, in any order.
proof fn lemma_map_is<K: TableKey, V>(entries: Seq<(K, V)>, map: Map<K::Id, V>)
    requires
        distinct(entries),
        forall|i: int|
            0 <= i < entries.len() ==> map.contains_key((#[trigger] entries[i]).0.id())
                && map[entries[i].0.id()] == entries[i].1,
        forall|id: K::Id| #[trigger]
            map.contains_key(id) ==> exists|i: int|
                0 <= i < entries.len() && (#[trigger] entries[i]).0.id() == id,
    ensures
        as_map(entries) == map,
{
    lemma_as_map(entries);
    let made = as_map(entries);
    assert forall|id: K::Id| made.contains_key(id) == map.contains_key(id) by {
        if map.contains_key(id) {
            let i = choose|i: int|
                0 <= i < entries.len() && (#[trigger] entries[i]).0.id() == id;
            assert(made.contains_key(entries[i].0.id()));
        }
        if made.contains_key(id) {
            let i = choose|i: int|
                0 <= i < entries.len() && (#[trigger] entries[i]).0.id() == id;
            assert(map.contains_key(entries[i].0.id()));
        }
    }
    assert forall|id: K::Id| made.contains_key(id) implies made[id] == map[id] by {
        let i = choose|i: int| 0 <= i < entries.len() && (#[trigger] entries[i]).0.id() == id;
        assert(made[entries[i].0.id()] == map[entries[i].0.id()]);
    }
    assert(made =~= map);
}

impl<K: TableKey, V: Expiring> Table<K, V> {
    #[verifier::type_invariant]
    spec fn no_key_twice(self) -> bool {
        distinct(self.entries@)
    }

    pub fn new() -> (table: Self)
        ensures
            table@ == Map::<K::Id, V>::empty(),
    {
        Table { entries: Vec::new() }
    }

    pub fn len(&self) -> (n: usize)
        ensures
            n == self@.len(),
            self@.dom().finite(),
    {
        proof {
            use_type_invariant(self);
            lemma_as_map(self.entries@);
        }
        self.entries.len()
    }

    /// The position of a key, or the number of entries.
    fn position(&self, key: &K) -> (at: usize)
        ensures
            at <= self.entries@.len(),
            at < self.entries@.len() ==> self.entries@[at as int].0.id() == key.id(),
            at < self.entries@.len() <==> self@.contains_key(key.id()),
    {
        proof {
            use_type_invariant(self);
            lemma_as_map(self.entries@);
        }
        let mut at: usize = 0;
        while at < self.entries.len() && !self.entries[at].0.same(key)
            invariant
                at <= self.entries@.len(),
                forall|i: int| 0 <= i < at ==> (#[trigger] self.entries@[i]).0.id() != key.id(),
            decreases self.entries@.len() - at,
        {
            at = at + 1;
        }
        at
    }

    pub fn contains(&self, key: &K) -> (yes: bool)
        ensures
            yes == self@.contains_key(key.id()),
    {
        self.position(key) < self.entries.len()
    }

    pub fn get(&self, key: &K) -> (value: Option<V>)
        ensures
            value == (if self@.contains_key(key.id()) {
                Some(self@[key.id()])
            } else {
                None
            }),
    {
        proof {
            use_type_invariant(self);
            lemma_as_map(self.entries@);
        }
        let at: usize = self.position(key);
        if at < self.entries.len() {
            Some(self.entries[at].1)
        } else {
            None
        }
    }

    /// Removes the entry at a position.
    fn remove_at(&mut self, at: usize)
        requires
            at < old(self).entries@.len(),
        ensures
            final(self).entries@ == old(self).entries@.remove(at as int),
            final(self)@ == old(self)@.remove(old(self).entries@[at as int].0.id()),
    {
        proof {
            use_type_invariant(&*self);
            lemma_as_map(self.entries@);
        }
        let ghost before = self.entries@;
        let ghost gone = before[at as int].0.id();
        let mut entries: Vec<(K, V)> = Vec::new();
        std::mem::swap(&mut entries, &mut self.entries);
        let _ = entries.remove(at);
        proof {
            let rest = entries@;
            assert(rest =~= before.remove(at as int));
            assert forall|i: int, j: int| 0 <= i < j < rest.len() implies (
            #[trigger] rest[i]).0.id() != (#[trigger] rest[j]).0.id() by {
                let a = if i < at { i } else { i + 1 };
                let b = if j < at { j } else { j + 1 };
                assert(before[a].0.id() != before[b].0.id());
            }
            let map = as_map(before).remove(gone);
            assert forall|i: int| 0 <= i < rest.len() implies map.contains_key(
                (#[trigger] rest[i]).0.id(),
            ) && map[rest[i].0.id()] == rest[i].1 by {
                let a = if i < at { i } else { i + 1 };
                assert(rest[i] == before[a]);
                assert(before[at as int].0.id() != before[a].0.id());
            }
            assert forall|id: K::Id| #[trigger] map.contains_key(id) implies exists|i: int|
                0 <= i < rest.len() && (#[trigger] rest[i]).0.id() == id by {
                let a = choose|a: int| 0 <= a < before.len() && (#[trigger] before[a]).0.id() == id;
                let i = if a < at { a } else { a - 1 };
                assert(rest[i].0.id() == id);
            }
            lemma_map_is(rest, map);
        }
        self.entries = entries;
    }

    pub fn remove(&mut self, key: &K)
        ensures
            final(self)@ == old(self)@.remove(key.id()),
    {
        let at: usize = self.position(key);
        if at < self.entries.len() {
            self.remove_at(at);
        } else {
            assert(self@ =~= old(self)@.remove(key.id()));
        }
    }

    /// Stores a value, in place of the one that the key had.
    pub fn insert(&mut self, key: K, value: V)
        ensures
            final(self)@ == old(self)@.insert(key.id(), value),
    {
        self.remove(&key);
        proof {
            use_type_invariant(&*self);
            lemma_as_map(self.entries@);
        }
        let ghost before = self.entries@;
        let ghost id = key.id();
        let mut entries: Vec<(K, V)> = Vec::new();
        std::mem::swap(&mut entries, &mut self.entries);
        entries.push((key, value));
        proof {
            assert(entries@.drop_last() =~= before);
            assert forall|i: int, j: int| 0 <= i < j < entries@.len() implies (
            #[trigger] entries@[i]).0.id() != (#[trigger] entries@[j]).0.id() by {
                assert(before[i] == entries@[i]);
                assert(as_map(before).contains_key(before[i].0.id()));
            }
            assert(as_map(entries@) =~= old(self)@.insert(id, value));
        }
        self.entries = entries;
    }

    /// Drops what is no longer live.
    pub fn retain_live(&mut self, now: u128)
        ensures
            final(self)@ == live_part(old(self)@, now),
    {
        let mut at: usize = 0;
        let ghost original = self@;
        proof {
            use_type_invariant(&*self);
            lemma_as_map(self.entries@);
        }
        while at < self.entries.len()
            invariant
                at <= self.entries@.len(),
                live_part(self@, now) == live_part(original, now),
                forall|i: int| 0 <= i < at ==> (#[trigger] self.entries@[i]).1.live(now),
            decreases self.entries@.len() - at,
        {
            if self.entries[at].1.is_live(now) {
                at = at + 1;
            } else {
                proof {
                    use_type_invariant(&*self);
                    lemma_as_map(self.entries@);
                }
                let ghost before = self@;
                let ghost gone = self.entries@[at as int].0.id();
                self.remove_at(at);
                assert(live_part(before.remove(gone), now) =~= live_part(before, now));
            }
        }
        proof {
            use_type_invariant(&*self);
            lemma_as_map(self.entries@);
            assert forall|id: K::Id| #[trigger] self@.contains_key(id) implies self@[id].live(
                now,
            ) by {
                let i = choose|i: int|
                    0 <= i < self.entries@.len() && (#[trigger] self.entries@[i]).0.id() == id;
                assert(self.entries@[i].1.live(now));
            }
            assert(self@ =~= live_part(self@, now));
        }
    }
}

/// Whether no entry ends before this one.
pub open spec fn oldest<I>(map: Map<I, Expiry>, id: I) -> bool {
    map.contains_key(id) && forall|other: I| #[trigger]
        map.contains_key(other) ==> map[id].0 <= map[other].0
}

/// A map below its limit stays as it is; otherwise one of its oldest entries goes.
pub open spec fn room_made<I>(before: Map<I, Expiry>, after: Map<I, Expiry>, limit: nat) -> bool {
    if before.len() < limit {
        after == before
    } else {
        exists|id: I| #[trigger] oldest(before, id) && after == before.remove(id)
    }
}

impl<K: TableKey> Table<K, Expiry> {
    /// Makes room for one more entry below the limit.
    pub fn make_room(&mut self, limit: usize)
        requires
            limit > 0,
        ensures
            room_made(old(self)@, final(self)@, limit as nat),
    {
        proof {
            use_type_invariant(&*self);
            lemma_as_map(self.entries@);
        }
        if self.entries.len() < limit {
            return;
        }
        let mut least: usize = 0;
        let mut i: usize = 1;
        while i < self.entries.len()
            invariant
                least < i <= self.entries@.len(),
                forall|j: int|
                    0 <= j < i ==> self.entries@[least as int].1.0 <= (
                    #[trigger] self.entries@[j]).1.0,
            decreases self.entries@.len() - i,
        {
            if self.entries[i].1.0 < self.entries[least].1.0 {
                least = i;
            }
            i = i + 1;
        }
        proof {
            let id = self.entries@[least as int].0.id();
            assert forall|other: K::Id| #[trigger] self@.contains_key(other) implies self@[id].0
                <= self@[other].0 by {
                let j = choose|j: int|
                    0 <= j < self.entries@.len() && (#[trigger] self.entries@[j]).0.id() == other;
                assert(self.entries@[least as int].1.0 <= self.entries@[j].1.0);
            }
            assert(oldest(self@, id));
        }
        self.remove_at(least);
    }
}

/// What is live keeps its value, and what has ended is gone; nothing comes in.
pub proof fn law_live_part<I, V: Expiring>(map: Map<I, V>, now: u128, id: I)
    ensures
        live_part(map, now).contains_key(id) <==> map.contains_key(id) && map[id].live(now),
        live_part(map, now).contains_key(id) ==> live_part(map, now)[id] == map[id],
{
}

/// An end that lies ahead is live, and no other.
pub proof fn law_expiry_is_live_before_its_end(expiry: Expiry, now: u128)
    ensures
        expiry.live(now) <==> now < expiry.0,
{
}

/// Making room takes nothing away below the limit, and otherwise one entry that ends no later than
/// any other; every other entry stays as it is.
pub proof fn law_room_costs_the_oldest<I>(
    before: Map<I, Expiry>,
    after: Map<I, Expiry>,
    limit: nat,
)
    requires
        room_made(before, after, limit),
    ensures
        before.len() < limit ==> after == before,
        before.len() >= limit ==> exists|gone: I|
            {
                &&& #[trigger] before.contains_key(gone)
                &&& !after.contains_key(gone)
                &&& forall|other: I| #[trigger]
                    before.contains_key(other) ==> before[gone].0 <= before[other].0
                &&& forall|other: I|
                    other != gone && before.contains_key(other) ==> #[trigger] after.contains_key(
                        other,
                    ) && after[other] == before[other]
            },
        forall|id: I| #[trigger]
            after.contains_key(id) ==> before.contains_key(id) && after[id] == before[id],
{
    if before.len() >= limit {
        let gone = choose|id: I| #[trigger] oldest(before, id) && after == before.remove(id);
        assert(before.contains_key(gone));
    }
}

} // verus!
