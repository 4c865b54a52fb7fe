//! Entries that are kept in the order of their keys.
use vstd::prelude::*;
use crate::symbol::Symbol;

verus! {

/// A key that entries are ordered by.
pub trait OrderedKey: Sized + Copy {
    /// Where the key stands among the others.
    spec fn rank(self) -> int;

    /// Keys that stand at the same place are the same.
    proof fn ranks_are_keys(a: Self, b: Self)
        requires
            a.rank() == b.rank(),
        ensures
            a == b,
    ;

    /// Whether the key stands before another.
    fn precedes(&self, other: &Self) -> (b: bool)
        ensures
            b == (self.rank() < other.rank()),
    ;
}

impl OrderedKey for u32 {
    open spec fn rank(self) -> int {
        self as int
    }

    proof fn ranks_are_keys(a: Self, b: Self) {
    }

    fn precedes(&self, other: &Self) -> (b: bool) {
        *self < *other
    }
}

impl OrderedKey for Symbol {
    open spec fn rank(self) -> int {
        self.index as int
    }

    proof fn ranks_are_keys(a: Self, b: Self) {
    }

    fn precedes(&self, other: &Self) -> (b: bool) {
        self.index < other.index
    }
}

/// The key stands before another, or after it if the order is descending.
pub open spec fn before<K: OrderedKey>(a: K, b: K, descending: bool) -> bool {
    if descending {
        a.rank() > b.rank()
    } else {
        a.rank() < b.rank()
    }
}

/// The keys are in order, and no key is there twice.
pub open spec fn in_order<K: OrderedKey, V>(entries: Seq<(K, V)>, descending: bool) -> bool {
    forall|i: int, j: int|
        0 <= i < j < entries.len() ==> before(
            (#[trigger] entries[i]).0,
            (#[trigger] entries[j]).0,
            descending,
        )
}

/// An entry has the given key.
pub open spec fn holds<K, V>(entries: Seq<(K, V)>, key: K) -> bool {
    exists|i: int| 0 <= i < entries.len() && (#[trigger] entries[i]).0 == key
}

/// The value of the entry with the given key.
pub open spec fn value_of<K, V>(entries: Seq<(K, V)>, key: K) -> V {
    let i = choose|i: int| 0 <= i < entries.len() && (#[trigger] entries[i]).0 == key;
    entries[i].1
}

/// The values by their keys.
pub open spec fn map_of<K, V>(entries: Seq<(K, V)>) -> Map<K, V> {
    Map::new(|key: K| holds(entries, key), |key: K| value_of(entries, key))
}

/// An entry is what the map holds for its key.
pub proof fn entry_is_held<K: OrderedKey, V>(entries: Seq<(K, V)>, descending: bool, i: int)
    requires
        in_order(entries, descending),
        0 <= i < entries.len(),
    ensures
        map_of(entries).dom().contains(entries[i].0),
        map_of(entries)[entries[i].0] == entries[i].1,
{
    let key = entries[i].0;
    assert(holds(entries, key));
    let j = choose|j: int| 0 <= j < entries.len() && (#[trigger] entries[j]).0 == key;
    assert(i == j) by {
        if i < j {
            assert(before(entries[i].0, entries[j].0, descending));
        } else if j < i {
            assert(before(entries[j].0, entries[i].0, descending));
        }
    }
}

/// Two lists in the same order that hold the same are the same: the order and the map say all.
pub proof fn map_says_all<K: OrderedKey, V>(a: Seq<(K, V)>, b: Seq<(K, V)>, descending: bool)
    requires
        in_order(a, descending),
        in_order(b, descending),
        map_of(a) == map_of(b),
    ensures
        a == b,
    decreases a.len(),
{
    if a.len() == 0 {
        if b.len() > 0 {
            entry_is_held(b, descending, 0);
            assert(holds(a, b[0].0));
        }
        assert(a == b);
    } else if b.len() == 0 {
        entry_is_held(a, descending, 0);
        assert(holds(b, a[0].0));
    } else {
        let x = a.last().0;
        let y = b.last().0;
        entry_is_held(a, descending, a.len() - 1);
        entry_is_held(b, descending, b.len() - 1);
        assert(holds(b, x));
        assert(holds(a, y));
        let i = choose|i: int| 0 <= i < b.len() && (#[trigger] b[i]).0 == x;
        let j = choose|j: int| 0 <= j < a.len() && (#[trigger] a[j]).0 == y;
        if i < b.len() - 1 {
            assert(before(b[i].0, b[b.len() - 1].0, descending));
            if j < a.len() - 1 {
                assert(before(a[j].0, a[a.len() - 1].0, descending));
            }
        }
        assert(x == y);
        assert(a.last() == b.last());
        let a1 = a.drop_last();
        let b1 = b.drop_last();
        assert(in_order(a1, descending)) by {
            assert forall|i: int, j: int| 0 <= i < j < a1.len() implies before(
                (#[trigger] a1[i]).0,
                (#[trigger] a1[j]).0,
                descending,
            ) by {
                assert(a1[i] == a[i] && a1[j] == a[j]);
            }
        }
        assert(in_order(b1, descending)) by {
            assert forall|i: int, j: int| 0 <= i < j < b1.len() implies before(
                (#[trigger] b1[i]).0,
                (#[trigger] b1[j]).0,
                descending,
            ) by {
                assert(b1[i] == b[i] && b1[j] == b[j]);
            }
        }
        assert forall|key: K| #[trigger] map_of(a1).dom().contains(key) implies map_of(
            b1,
        ).dom().contains(key) && map_of(a1)[key] == map_of(b1)[key] by {
            dropping_last_keeps(a, descending, key);
            dropping_last_keeps(b, descending, key);
        }
        assert forall|key: K| #[trigger] map_of(b1).dom().contains(key) implies map_of(
            a1,
        ).dom().contains(key) by {
            dropping_last_keeps(a, descending, key);
            dropping_last_keeps(b, descending, key);
        }
        assert(map_of(a1) =~= map_of(b1));
        map_says_all(a1, b1, descending);
        assert(a == a1.push(a.last()));
        assert(b == b1.push(b.last()));
    }
}

proof fn dropping_last_keeps<K: OrderedKey, V>(a: Seq<(K, V)>, descending: bool, key: K)
    requires
        a.len() > 0,
        in_order(a, descending),
    ensures
        map_of(a.drop_last()).dom().contains(key) <==> map_of(a).dom().contains(key) && key
            != a.last().0,
        map_of(a.drop_last()).dom().contains(key) ==> map_of(a.drop_last())[key] == map_of(a)[key],
{
    let a1 = a.drop_last();
    assert(in_order(a1, descending)) by {
        assert forall|i: int, j: int| 0 <= i < j < a1.len() implies before(
            (#[trigger] a1[i]).0,
            (#[trigger] a1[j]).0,
            descending,
        ) by {
            assert(a1[i] == a[i] && a1[j] == a[j]);
        }
    }
    if holds(a1, key) {
        let i = choose|i: int| 0 <= i < a1.len() && (#[trigger] a1[i]).0 == key;
        assert(a1[i] == a[i]);
        assert(before(a[i].0, a[a.len() - 1].0, descending));
        entry_is_held(a, descending, i);
        entry_is_held(a1, descending, i);
    }
    if holds(a, key) && key != a.last().0 {
        let i = choose|i: int| 0 <= i < a.len() && (#[trigger] a[i]).0 == key;
        assert(a1[i] == a[i]);
    }
}

proof fn inserting_adds<K: OrderedKey, V>(
    entries: Seq<(K, V)>,
    descending: bool,
    at: int,
    key: K,
    value: V,
)
    requires
        in_order(entries, descending),
        0 <= at <= entries.len(),
        forall|i: int| 0 <= i < at ==> before((#[trigger] entries[i]).0, key, descending),
        forall|i: int| at <= i < entries.len() ==> before(key, (#[trigger] entries[i]).0, descending),
    ensures
        in_order(entries.insert(at, (key, value)), descending),
        !map_of(entries).dom().contains(key),
        map_of(entries.insert(at, (key, value))) == map_of(entries).insert(key, value),
{
    let after = entries.insert(at, (key, value));
    assert(in_order(after, descending)) by {
        assert forall|i: int, j: int| 0 <= i < j < after.len() implies before(
            (#[trigger] after[i]).0,
            (#[trigger] after[j]).0,
            descending,
        ) by {
            let a = if i < at {
                i
            } else {
                i - 1
            };
            let b = if j < at {
                j
            } else {
                j - 1
            };
            if i != at && j != at {
                assert(after[i] == entries[a] && after[j] == entries[b]);
            } else if i == at {
                assert(after[j] == entries[b]);
            } else {
                assert(after[i] == entries[a]);
            }
        }
    }
    if holds(entries, key) {
        let i = choose|i: int| 0 <= i < entries.len() && (#[trigger] entries[i]).0 == key;
        assert(i < at || i >= at);
    }
    let wanted = map_of(entries).insert(key, value);
    entry_is_held(after, descending, at);
    assert(after[at] == (key, value));
    assert forall|k: K| map_of(after).dom().contains(k) implies wanted.dom().contains(k)
        && map_of(after)[k] == wanted[k] by {
        if k != key {
            let i = choose|i: int| 0 <= i < after.len() && (#[trigger] after[i]).0 == k;
            let j = if i < at {
                i
            } else {
                i - 1
            };
            assert(after[i] == entries[j]);
            entry_is_held(after, descending, i);
            entry_is_held(entries, descending, j);
        }
    }
    assert forall|k: K| wanted.dom().contains(k) implies map_of(after).dom().contains(k) by {
        if k != key {
            let j = choose|j: int| 0 <= j < entries.len() && (#[trigger] entries[j]).0 == k;
            let i = if j < at {
                j
            } else {
                j + 1
            };
            assert(after[i] == entries[j]);
        }
    }
    assert(map_of(after) =~= wanted);
}

proof fn updating_replaces<K: OrderedKey, V>(
    entries: Seq<(K, V)>,
    descending: bool,
    at: int,
    value: V,
)
    requires
        in_order(entries, descending),
        0 <= at < entries.len(),
    ensures
        in_order(entries.update(at, (entries[at].0, value)), descending),
        map_of(entries.update(at, (entries[at].0, value))) == map_of(entries).insert(
            entries[at].0,
            value,
        ),
{
    let after = entries.update(at, (entries[at].0, value));
    let key = entries[at].0;
    assert(in_order(after, descending)) by {
        assert forall|i: int, j: int| 0 <= i < j < after.len() implies before(
            (#[trigger] after[i]).0,
            (#[trigger] after[j]).0,
            descending,
        ) by {
            assert(after[i].0 == entries[i].0 && after[j].0 == entries[j].0);
        }
    }
    let wanted = map_of(entries).insert(key, value);
    entry_is_held(after, descending, at);
    entry_is_held(entries, descending, at);
    assert forall|k: K| map_of(after).dom().contains(k) implies wanted.dom().contains(k)
        && map_of(after)[k] == wanted[k] by {
        let i = choose|i: int| 0 <= i < after.len() && (#[trigger] after[i]).0 == k;
        entry_is_held(after, descending, i);
        entry_is_held(entries, descending, i);
        if k != key {
            assert(after[i] == entries[i]);
        }
    }
    assert forall|k: K| wanted.dom().contains(k) implies map_of(after).dom().contains(k) by {
        if k != key {
            let i = choose|i: int| 0 <= i < entries.len() && (#[trigger] entries[i]).0 == k;
            assert(after[i].0 == k);
        }
    }
    assert(map_of(after) =~= wanted);
}

proof fn removing_takes<K: OrderedKey, V>(entries: Seq<(K, V)>, descending: bool, at: int)
    requires
        in_order(entries, descending),
        0 <= at < entries.len(),
    ensures
        in_order(entries.remove(at), descending),
        map_of(entries.remove(at)) == map_of(entries).remove(entries[at].0),
{
    let after = entries.remove(at);
    let key = entries[at].0;
    assert(in_order(after, descending)) by {
        assert forall|i: int, j: int| 0 <= i < j < after.len() implies before(
            (#[trigger] after[i]).0,
            (#[trigger] after[j]).0,
            descending,
        ) by {
            let a = if i < at {
                i
            } else {
                i + 1
            };
            let b = if j < at {
                j
            } else {
                j + 1
            };
            assert(after[i] == entries[a] && after[j] == entries[b]);
        }
    }
    let wanted = map_of(entries).remove(key);
    assert forall|k: K| map_of(after).dom().contains(k) implies wanted.dom().contains(k)
        && map_of(after)[k] == wanted[k] by {
        let i = choose|i: int| 0 <= i < after.len() && (#[trigger] after[i]).0 == k;
        let j = if i < at {
            i
        } else {
            i + 1
        };
        assert(after[i] == entries[j]);
        entry_is_held(after, descending, i);
        entry_is_held(entries, descending, j);
        if j < at {
            assert(before(entries[j].0, entries[at].0, descending));
        } else {
            assert(before(entries[at].0, entries[j].0, descending));
        }
    }
    assert forall|k: K| wanted.dom().contains(k) implies map_of(after).dom().contains(k) by {
        let j = choose|j: int| 0 <= j < entries.len() && (#[trigger] entries[j]).0 == k;
        let i = if j < at {
            j
        } else {
            j - 1
        };
        assert(after[i] == entries[j]);
    }
    assert(map_of(after) =~= wanted);
}

/// Entries in the order of their keys, which is descending if `DESC` says so.
#[derive(Debug)]
pub struct SortedMap<K: OrderedKey, V, const DESC: bool> {
    entries: Vec<(K, V)>,
}

impl<K: OrderedKey, V, const DESC: bool> View for SortedMap<K, V, DESC> {
    type V = Seq<(K, V)>;

    closed spec fn view(&self) -> Seq<(K, V)> {
        self.entries@
    }
}

impl<K: OrderedKey, V, const DESC: bool> SortedMap<K, V, DESC> {
    /// The keys are in order.
    pub open spec fn wf(&self) -> bool {
        in_order(self@, DESC)
    }

    /// No entries.
    pub fn new() -> (map: Self)
        ensures
            map.wf(),
            map@ == Seq::<(K, V)>::empty(),
    {
        SortedMap { entries: Vec::new() }
    }

    /// How many entries there are.
    pub fn len(&self) -> (len: usize)
        ensures
            len == self@.len(),
    {
        self.entries.len()
    }

    /// The entry at the given place.
    pub fn at(&self, index: usize) -> (entry: (K, &V))
        requires
            index < self@.len(),
        ensures
            entry.0 == self@[index as int].0,
            *entry.1 == self@[index as int].1,
    {
        (self.entries[index].0, &self.entries[index].1)
    }

    fn position(&self, key: K) -> (at: Result<usize, usize>)
        requires
            self.wf(),
        ensures
            match at {
                Ok(at) => at < self@.len() && self@[at as int].0 == key,
                Err(at) => {
                    &&& at <= self@.len()
                    &&& forall|i: int| 0 <= i < at ==> before((#[trigger] self@[i]).0, key, DESC)
                    &&& forall|i: int|
                        at <= i < self@.len() ==> before(key, (#[trigger] self@[i]).0, DESC)
                },
            },
    {
        let mut i: usize = 0;
        while i < self.entries.len()
            invariant
                self.wf(),
                self@ == self.entries@,
                i <= self.entries@.len(),
                forall|j: int| 0 <= j < i ==> before((#[trigger] self@[j]).0, key, DESC),
            decreases self.entries@.len() - i,
        {
            let this = self.entries[i].0;
            let earlier = if DESC {
                key.precedes(&this)
            } else {
                this.precedes(&key)
            };
            if !earlier {
                let later = if DESC {
                    this.precedes(&key)
                } else {
                    key.precedes(&this)
                };
                if later {
                    assert forall|j: int| i <= j < self@.len() implies before(
                        key,
                        (#[trigger] self@[j]).0,
                        DESC,
                    ) by {
                        if i < j {
                            assert(before(self@[i as int].0, self@[j].0, DESC));
                        }
                    }
                    return Err(i);
                }
                proof {
                    K::ranks_are_keys(this, key);
                }
                return Ok(i);
            }
            i = i + 1;
        }
        Err(i)
    }

    /// Where the entry with the given key is.
    pub fn find(&self, key: K) -> (at: Option<usize>)
        requires
            self.wf(),
        ensures
            match at {
                Some(at) => {
                    &&& at < self@.len()
                    &&& self@[at as int].0 == key
                    &&& map_of(self@).dom().contains(key)
                    &&& map_of(self@)[key] == self@[at as int].1
                },
                None => !map_of(self@).dom().contains(key),
            },
    {
        match self.position(key) {
            Ok(at) => {
                proof {
                    entry_is_held(self@, DESC, at as int);
                }
                Some(at)
            },
            Err(at) => {
                proof {
                    if holds(self@, key) {
                        let i = choose|i: int| 0 <= i < self@.len() && (#[trigger] self@[i]).0 == key;
                        assert(i < at || i >= at);
                    }
                }
                None
            },
        }
    }

    /// Adds an entry, or replaces the value of the one with the same key.
    pub fn insert(&mut self, key: K, value: V) -> (added: bool)
        requires
            old(self).wf(),
        ensures
            final(self).wf(),
            map_of(final(self)@) == map_of(old(self)@).insert(key, value),
            added == !map_of(old(self)@).dom().contains(key),
    {
        match self.position(key) {
            Ok(at) => {
                proof {
                    updating_replaces(self@, DESC, at as int, value);
                    entry_is_held(self@, DESC, at as int);
                }
                self.entries.set(at, (key, value));
                false
            },
            Err(at) => {
                proof {
                    inserting_adds(self@, DESC, at as int, key, value);
                }
                self.entries.insert(at, (key, value));
                true
            },
        }
    }

    /// Takes the entry with the given key out.
    pub fn remove(&mut self, key: K) -> (value: Option<V>)
        requires
            old(self).wf(),
        ensures
            final(self).wf(),
            map_of(final(self)@) == map_of(old(self)@).remove(key),
            match value {
                Some(value) => map_of(old(self)@).dom().contains(key) && value == map_of(
                    old(self)@,
                )[key],
                None => !map_of(old(self)@).dom().contains(key),
            },
    {
        match self.find(key) {
            Some(at) => {
                proof {
                    removing_takes(self@, DESC, at as int);
                }
                let (_, value) = self.entries.remove(at);
                Some(value)
            },
            None => {
                assert(map_of(self@).remove(key) =~= map_of(self@));
                None
            },
        }
    }

    /// Takes the first entry out.
    pub fn take_first(&mut self) -> (entry: Option<(K, V)>)
        requires
            old(self).wf(),
        ensures
            final(self).wf(),
            match entry {
                Some(entry) => {
                    &&& old(self)@.len() > 0
                    &&& entry == old(self)@[0]
                    &&& final(self)@ == old(self)@.remove(0)
                    &&& map_of(final(self)@) == map_of(old(self)@).remove(entry.0)
                },
                None => old(self)@.len() == 0 && final(self)@ == old(self)@,
            },
    {
        if self.entries.len() == 0 {
            return None;
        }
        proof {
            removing_takes(self@, DESC, 0);
        }
        Some(self.entries.remove(0))
    }

    /// The value of the entry at the given place, to be changed.
    pub fn value_mut(&mut self, index: usize) -> (value: &mut V)
        requires
            old(self).wf(),
            index < old(self)@.len(),
        ensures
            *value == old(self)@[index as int].1,
            final(self)@ == old(self)@.update(
                index as int,
                (old(self)@[index as int].0, *final(value)),
            ),
            final(self).wf(),
            map_of(final(self)@) == map_of(old(self)@).insert(
                old(self)@[index as int].0,
                *final(value),
            ),
    {
        proof {
            let key = self@[index as int].0;
            assert forall|v: V|
                #![trigger self@.update(index as int, (key, v))]
                in_order(self@.update(index as int, (key, v)), DESC) && map_of(
                    self@.update(index as int, (key, v)),
                ) == map_of(self@).insert(key, v) by {
                updating_replaces(self@, DESC, index as int, v);
            }
        }
        &mut self.entries[index].1
    }
}

impl<K: OrderedKey + Copy, V: Copy, const DESC: bool> SortedMap<K, V, DESC> {
    /// A map with the same entries.
    pub fn duplicate(&self) -> (copy: Self)
        ensures
            copy@ == self@,
    {
        let mut copy = SortedMap::new();
        let mut i: usize = 0;
        while i < self.entries.len()
            invariant
                i <= self.entries@.len(),
                copy.entries@ == self.entries@.take(i as int),
            decreases self.entries@.len() - i,
        {
            copy.entries.push(self.entries[i]);
            i = i + 1;
            assert(copy.entries@ =~= self.entries@.take(i as int));
        }
        assert(self.entries@.take(self.entries@.len() as int) =~= self.entries@);
        copy
    }
}

/// Values of which there can be two that are equal.
pub trait Duplicate: Sized {
    /// The same value.
    fn duplicate(&self) -> (copy: Self)
        ensures
            copy == *self,
    ;
}

impl<K: OrderedKey + Copy, V: Duplicate, const DESC: bool> SortedMap<K, V, DESC> {
    /// A map with the same entries.
    pub fn deep_copy(&self) -> (copy: Self)
        ensures
            copy@ == self@,
    {
        let mut copy = SortedMap::new();
        let mut i: usize = 0;
        while i < self.entries.len()
            invariant
                i <= self.entries@.len(),
                copy.entries@ == self.entries@.take(i as int),
            decreases self.entries@.len() - i,
        {
            let entry = &self.entries[i];
            copy.entries.push((entry.0, entry.1.duplicate()));
            i = i + 1;
            assert(copy.entries@ =~= self.entries@.take(i as int));
        }
        assert(self.entries@.take(self.entries@.len() as int) =~= self.entries@);
        copy
    }
}

} // verus!
