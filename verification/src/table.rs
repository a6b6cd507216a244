use vstd::prelude::*;

verus! {

/// The place of the entry with the given key, if there is one.
pub open spec fn position<V>(entries: Seq<(Seq<char>, V)>, key: Seq<char>) -> Option<int>
    decreases entries.len(),
{
    if entries.len() == 0 {
        None
    } else if entries.last().0 == key {
        Some(entries.len() - 1)
    } else {
        position(entries.drop_last(), key)
    }
}

/// The value that stands under the given key, if there is one.
pub open spec fn value_of<V>(entries: Seq<(Seq<char>, V)>, key: Seq<char>) -> Option<V> {
    match position(entries, key) {
        Some(i) => Some(entries[i].1),
        None => None,
    }
}

/// The entries after a value was put under a key: it takes the place of the
/// value that stood under the key, or comes last where there was none.
pub open spec fn put<V>(entries: Seq<(Seq<char>, V)>, key: Seq<char>, value: V) -> Seq<
    (Seq<char>, V),
> {
    match position(entries, key) {
        Some(i) => entries.update(i, (key, value)),
        None => entries.push((key, value)),
    }
}

/// The entries after each of the given keys and values was put, in order.
pub open spec fn put_all<V>(entries: Seq<(Seq<char>, V)>, more: Seq<(Seq<char>, V)>) -> Seq<
    (Seq<char>, V),
>
    decreases more.len(),
{
    if more.len() == 0 {
        entries
    } else {
        put(put_all(entries, more.drop_last()), more.last().0, more.last().1)
    }
}

/// No two entries share a key.
pub open spec fn keys_differ<V>(entries: Seq<(Seq<char>, V)>) -> bool {
    forall|i: int, j: int| 0 <= i < j < entries.len() ==> entries[i].0 != entries[j].0
}

/// The values of the entries, in order.
pub open spec fn values_of<V>(entries: Seq<(Seq<char>, V)>) -> Seq<V> {
    Seq::new(entries.len(), |i: int| entries[i].1)
}

/// What `position` finds is the last entry that holds the key, and where it
/// finds nothing no entry holds the key.
pub proof fn lemma_position<V>(entries: Seq<(Seq<char>, V)>, key: Seq<char>)
    ensures
        match position(entries, key) {
            Some(i) => {
                &&& 0 <= i < entries.len()
                &&& entries[i].0 == key
                &&& forall|j: int| i < j < entries.len() ==> entries[j].0 != key
            },
            None => forall|i: int| 0 <= i < entries.len() ==> entries[i].0 != key,
        },
    decreases entries.len(),
{
    if entries.len() > 0 && entries.last().0 != key {
        lemma_position(entries.drop_last(), key);
        assert forall|i: int| 0 <= i < entries.len() - 1 implies entries.drop_last()[i]
            == entries[i] by {}
    }
}

/// Which entry `position` finds depends on the keys alone.
pub proof fn lemma_position_by_keys<V, W>(
    a: Seq<(Seq<char>, V)>,
    b: Seq<(Seq<char>, W)>,
    key: Seq<char>,
)
    requires
        a.len() == b.len(),
        forall|i: int| 0 <= i < a.len() ==> a[i].0 == b[i].0,
    ensures
        position(a, key) == position(b, key),
    decreases a.len(),
{
    if a.len() > 0 {
        assert forall|i: int| 0 <= i < a.drop_last().len() implies a.drop_last()[i].0
            == b.drop_last()[i].0 by {
            assert(a.drop_last()[i] == a[i] && b.drop_last()[i] == b[i]);
        }
        lemma_position_by_keys(a.drop_last(), b.drop_last(), key);
    }
}

/// Putting a value under a key makes the value the one that stands under the
/// key, leaves the other keys as they were, and keeps the keys different where
/// they were.
pub proof fn lemma_put<V>(entries: Seq<(Seq<char>, V)>, key: Seq<char>, value: V)
    ensures
        value_of(put(entries, key, value), key) == Some(value),
        forall|other: Seq<char>|
            other != key ==> #[trigger] value_of(put(entries, key, value), other) == value_of(
                entries,
                other,
            ),
        keys_differ(entries) ==> keys_differ(put(entries, key, value)),
{
    let after = put(entries, key, value);
    lemma_position(entries, key);
    match position(entries, key) {
        Some(i) => {
            assert forall|other: Seq<char>| #[trigger] value_of(after, other) == if other == key {
                Some(value)
            } else {
                value_of(entries, other)
            } by {
                lemma_position_by_keys(entries, after, other);
                lemma_position(entries, other);
            }
        },
        None => {
            assert(after.drop_last() =~= entries);
            assert forall|other: Seq<char>| other != key implies #[trigger] value_of(after, other)
                == value_of(entries, other) by {
                lemma_position(entries, other);
            }
        },
    }
}

/// The later value wins: after several values were put, the one that stands
/// under a key is the last that was put under it, or, where none was, the one
/// that stood there before.
pub proof fn lemma_put_all<V>(entries: Seq<(Seq<char>, V)>, more: Seq<(Seq<char>, V)>)
    ensures
        keys_differ(entries) ==> keys_differ(put_all(entries, more)),
        forall|key: Seq<char>|
            #[trigger] value_of(put_all(entries, more), key) == match last_under(more, key) {
                Some(value) => Some(value),
                None => value_of(entries, key),
            },
    decreases more.len(),
{
    if more.len() > 0 {
        let before = put_all(entries, more.drop_last());
        lemma_put_all(entries, more.drop_last());
        lemma_put(before, more.last().0, more.last().1);
        assert forall|key: Seq<char>| #[trigger]
            value_of(put_all(entries, more), key) == match last_under(more, key) {
                Some(value) => Some(value),
                None => value_of(entries, key),
            } by {
            if key != more.last().0 {
                assert(value_of(put(before, more.last().0, more.last().1), key) == value_of(
                    before,
                    key,
                ));
            }
        }
    }
}

/// The value of the last of the given entries that holds the key.
pub open spec fn last_under<V>(more: Seq<(Seq<char>, V)>, key: Seq<char>) -> Option<V>
    decreases more.len(),
{
    if more.len() == 0 {
        None
    } else if more.last().0 == key {
        Some(more.last().1)
    } else {
        last_under(more.drop_last(), key)
    }
}

/// Values under text keys, in the order in which the keys came in.
pub struct Table<V> {
    entries: Vec<(String, V)>,
}

impl<V> View for Table<V> {
    type V = Seq<(Seq<char>, V)>;

    closed spec fn view(&self) -> Seq<(Seq<char>, V)> {
        Seq::new(self.entries.len() as nat, |i: int| (self.entries[i].0@, self.entries[i].1))
    }
}

impl<V> Table<V> {
    pub fn new() -> (table: Self)
        ensures
            table@ == Seq::<(Seq<char>, V)>::empty(),
    {
        let table = Table { entries: Vec::new() };
        assert(table@ =~= Seq::<(Seq<char>, V)>::empty());
        table
    }

    pub fn len(&self) -> (n: usize)
        ensures
            n == self@.len(),
    {
        self.entries.len()
    }

    pub fn is_empty(&self) -> (empty: bool)
        ensures
            empty == (self@.len() == 0),
    {
        self.entries.len() == 0
    }

    /// The place of the entry with the given key.
    fn find(&self, key: &str) -> (at: Option<usize>)
        ensures
            match at {
                Some(i) => position(self@, key@) == Some(i as int) && i < self@.len(),
                None => position(self@, key@) is None,
            },
    {
        let mut i: usize = self.entries.len();
        assert(self@.take(i as int) =~= self@);
        while i > 0
            invariant
                i <= self.entries.len(),
                position(self@, key@) == position(self@.take(i as int), key@),
            decreases i,
        {
            i -= 1;
            assert(self@.take(i + 1).drop_last() =~= self@.take(i as int));
            assert(self@.take(i + 1).last() == self@[i as int]);
            if crate::text::str_eq(self.entries[i].0.as_str(), key) {
                return Some(i);
            }
        }
        None
    }

    /// Puts a value under a key, in place of the value that stood there.
    pub fn insert(&mut self, key: String, value: V)
        ensures
            final(self)@ == put(old(self)@, key@, value),
    {
        match self.find(key.as_str()) {
            Some(i) => {
                self.entries.set(i, (key, value));
                assert(self@ =~= put(old(self)@, key@, value));
            },
            None => {
                self.entries.push((key, value));
                assert(self@ =~= put(old(self)@, key@, value));
            },
        }
    }

    /// The value that stands under a key.
    pub fn get(&self, key: &str) -> (value: Option<&V>)
        ensures
            match value {
                Some(v) => value_of(self@, key@) == Some(*v),
                None => value_of(self@, key@) is None,
            },
    {
        match self.find(key) {
            Some(i) => Some(&self.entries[i].1),
            None => None,
        }
    }

    /// The value at a place.
    pub fn value_at(&self, i: usize) -> (value: &V)
        requires
            i < self@.len(),
        ensures
            *value == self@[i as int].1,
    {
        &self.entries[i].1
    }

    /// The values, in the order of the entries.
    pub fn into_values(self) -> (values: Vec<V>)
        ensures
            values@ == values_of(self@),
    {
        let ghost all = self@;
        let mut entries = self.entries;
        let mut values: Vec<V> = Vec::new();
        assert(all.take(0) =~= Seq::<(Seq<char>, V)>::empty());
        while entries.len() > 0
            invariant
                entries.len() <= all.len(),
                values@ == values_of(all.take(all.len() - entries.len())),
                forall|k: int|
                    0 <= k < entries.len() ==> (#[trigger] entries[k]).1 == all[all.len()
                        - entries.len() + k].1,
            decreases entries.len(),
        {
            let ghost done = all.len() - entries.len();
            let (_, value) = entries.remove(0);
            values.push(value);
            assert(values@ =~= values_of(all.take(done + 1)));
        }
        assert(all.take(all.len() as int) =~= all);
        values
    }
}

} // verus!
