//! Tables that keep their keys in the order in which they were first put in.
use indexmap::IndexMap;
use vstd::prelude::*;

verus! {

#[verifier::external_type_specification]
#[verifier::external_body]
#[verifier::reject_recursive_types(K)]
#[verifier::reject_recursive_types(V)]
#[verifier::reject_recursive_types(S)]
pub struct ExIndexMap<K, V, S>(indexmap::IndexMap<K, V, S>);

/// The keys of an index with the number kept under each, in index order.
pub uninterp spec fn index_entries(index: IndexMap<String, usize>) -> Seq<(Seq<char>, usize)>;

/// `IndexMap::new`: an index without keys.
#[verifier::external_body]
fn index_new() -> (index: IndexMap<String, usize>)
    ensures
        index_entries(index) == Seq::<(Seq<char>, usize)>::empty(),
{
    IndexMap::new()
}

/// `IndexMap::insert`: a new key comes last; a key that is already there
/// keeps its place and gets the new number.
#[verifier::external_body]
fn index_insert(index: &mut IndexMap<String, usize>, key: String, number: usize)
    ensures
        (forall|i: int|
            0 <= i < index_entries(*old(index)).len() ==> (#[trigger] index_entries(*old(index))[i]).0
                != key@) ==> index_entries(*final(index)) == index_entries(*old(index)).push(
            (key@, number),
        ),
        forall|i: int|
            0 <= i < index_entries(*old(index)).len() && (#[trigger] index_entries(
                *old(index),
            )[i]).0 == key@ ==> index_entries(*final(index)) == index_entries(*old(index)).update(
                i,
                (key@, number),
            ),
{
    index.insert(key, number);
}

/// `IndexMap::get`: the number under `key`, where the key is there.
#[verifier::external_body]
fn index_get(index: &IndexMap<String, usize>, key: &str) -> (number: Option<usize>)
    ensures
        match number {
            Some(n) => index_entries(*index).contains((key@, n)),
            None => forall|i: int|
                0 <= i < index_entries(*index).len() ==> (#[trigger] index_entries(*index)[i]).0
                    != key@,
        },
{
    index.get(key).copied()
}

/// `IndexMap::get_index`: the key at a place of the order, where the order
/// reaches that far.
#[verifier::external_body]
fn index_key(index: &IndexMap<String, usize>, at: usize) -> (key: Option<&str>)
    ensures
        match key {
            Some(k) => at < index_entries(*index).len() && k@ == index_entries(*index)[at as int].0,
            None => at >= index_entries(*index).len(),
        },
{
    index.get_index(at).map(|entry| entry.0.as_str())
}

/// Whether `key` is a key of the entries.
pub open spec fn has_key<V>(entries: Seq<(Seq<char>, V)>, key: Seq<char>) -> bool {
    exists|i: int| 0 <= i < entries.len() && (#[trigger] entries[i]).0 == key
}

/// A place at which `key` stands.
pub open spec fn place<V>(entries: Seq<(Seq<char>, V)>, key: Seq<char>) -> int {
    choose|i: int| 0 <= i < entries.len() && (#[trigger] entries[i]).0 == key
}

/// The value under `key`.
pub open spec fn lookup<V>(entries: Seq<(Seq<char>, V)>, key: Seq<char>) -> V {
    entries[place(entries, key)].1
}

/// No key stands twice.
pub open spec fn distinct_keys<V>(entries: Seq<(Seq<char>, V)>) -> bool {
    forall|i: int, j: int|
        0 <= i < j < entries.len() ==> (#[trigger] entries[i]).0 != (#[trigger] entries[j]).0
}

/// The entries after `value` was put under `key`: in the key's own place
/// where it is there already, at the end where it is new.
pub open spec fn put<V>(entries: Seq<(Seq<char>, V)>, key: Seq<char>, value: V) -> Seq<
    (Seq<char>, V),
> {
    if has_key(entries, key) {
        entries.update(place(entries, key), (key, value))
    } else {
        entries.push((key, value))
    }
}

/// A table that has the first keys of another one lacks the next.
pub proof fn next_key_is_new<V, W>(entries: Seq<(Seq<char>, V)>, made: Seq<(Seq<char>, W)>)
    requires
        distinct_keys(entries),
        made.len() < entries.len(),
        forall|j: int| 0 <= j < made.len() ==> (#[trigger] made[j]).0 == entries[j].0,
    ensures
        !has_key(made, entries[made.len() as int].0),
{
    assert forall|j: int| 0 <= j < made.len() implies (#[trigger] made[j]).0
        != entries[made.len() as int].0 by {
        assert(entries[j].0 != entries[made.len() as int].0);
    }
}

/// The keys alone.
pub open spec fn keys<V>(entries: Seq<(Seq<char>, V)>) -> Seq<Seq<char>> {
    entries.map_values(|e: (Seq<char>, V)| e.0)
}

/// Values under text keys, in the order in which the keys first came.
pub struct Table<V> {
    index: IndexMap<String, usize>,
    values: Vec<V>,
}

impl<V> View for Table<V> {
    type V = Seq<(Seq<char>, V)>;

    closed spec fn view(&self) -> Seq<(Seq<char>, V)> {
        Seq::new(
            self.values@.len(),
            |i: int| (index_entries(self.index)[i].0, self.values@[i]),
        )
    }
}

impl<V> Table<V> {
    /// The index numbers the values, and no key stands twice.
    pub closed spec fn wf(&self) -> bool {
        &&& index_entries(self.index).len() == self.values@.len()
        &&& forall|i: int|
            0 <= i < self.values@.len() ==> (#[trigger] index_entries(self.index)[i]).1 == i
        &&& distinct_keys(index_entries(self.index))
    }

    /// A table has no more entries than can be counted.
    pub proof fn is_countable(&self)
        ensures
            self@.len() <= usize::MAX,
    {
        assert(self.values@.len() == self.values.len());
    }

    /// A table holds every key once.
    pub proof fn keys_are_distinct(&self)
        requires
            self.wf(),
        ensures
            distinct_keys(self@),
    {
        let e = index_entries(self.index);
        assert forall|i: int, j: int| 0 <= i < j < self@.len() implies (#[trigger] self@[i]).0 != (
        #[trigger] self@[j]).0 by {
            assert(e[i].0 != e[j].0);
        }
    }

    /// A table without entries.
    pub fn new() -> (table: Self)
        ensures
            table.wf(),
            table@ == Seq::<(Seq<char>, V)>::empty(),
    {
        let table = Table { index: index_new(), values: Vec::new() };
        assert(table@ =~= Seq::<(Seq<char>, V)>::empty());
        table
    }

    /// How many entries there are.
    pub fn len(&self) -> (n: usize)
        ensures
            n == self@.len(),
    {
        self.values.len()
    }

    /// The key at a place of the order.
    pub fn key(&self, at: usize) -> (key: &str)
        requires
            self.wf(),
            at < self@.len(),
        ensures
            key@ == self@[at as int].0,
    {
        match index_key(&self.index, at) {
            Some(key) => key,
            None => "",
        }
    }

    /// The value at a place of the order.
    pub fn value(&self, at: usize) -> (value: &V)
        requires
            self.wf(),
            at < self@.len(),
        ensures
            *value == self@[at as int].1,
    {
        &self.values[at]
    }

    /// The value under `key`, where the key is there.
    pub fn get(&self, key: &str) -> (value: Option<&V>)
        requires
            self.wf(),
        ensures
            match value {
                Some(v) => has_key(self@, key@) && *v == lookup(self@, key@),
                None => !has_key(self@, key@),
            },
    {
        let ghost e = index_entries(self.index);
        match index_get(&self.index, key) {
            Some(n) => {
                proof {
                    let i = choose|i: int| 0 <= i < e.len() && e[i] == (key@, n);
                    assert(e[i].1 == i);
                    assert(self@[i].0 == key@);
                    let p = place(self@, key@);
                    assert(self@[p].0 == key@);
                    self.keys_are_distinct();
                    assert(p == i);
                }
                Some(&self.values[n])
            },
            None => {
                assert forall|i: int| 0 <= i < self@.len() implies (#[trigger] self@[i]).0 != key@ by {
                    assert(e[i].0 != key@);
                }
                None
            },
        }
    }

    /// Puts `value` under `key`: in the key's own place where it is there
    /// already, at the end where it is new.
    pub fn insert(&mut self, key: String, value: V)
        requires
            old(self).wf(),
        ensures
            final(self).wf(),
            final(self)@ == put(old(self)@, key@, value),
    {
        let ghost e = index_entries(self.index);
        let ghost before = self@;
        let ghost k = key@;
        proof {
            self.keys_are_distinct();
        }
        match index_get(&self.index, key.as_str()) {
            Some(n) => {
                proof {
                    let i = choose|i: int| 0 <= i < e.len() && e[i] == (k, n);
                    assert(e[i].1 == i);
                    assert(before[i].0 == k);
                    let p = place(before, k);
                    assert(before[p].0 == k);
                    assert(p == i);
                }
                self.values.set(n, value);
                assert(self@ =~= put(before, k, value));
            },
            None => {
                let n: usize = self.values.len();
                index_insert(&mut self.index, key, n);
                self.values.push(value);
                proof {
                    assert(!has_key(before, k)) by {
                        assert forall|i: int| 0 <= i < before.len() implies (
                        #[trigger] before[i]).0 != k by {
                            assert(e[i].0 != k);
                        }
                    }
                    assert(self@ =~= put(before, k, value));
                }
            },
        }
    }
}

/// The entries after the first `n` values were put under the keys of the same
/// places.
pub open spec fn collected<V>(keys: Seq<Seq<char>>, values: Seq<V>, n: nat) -> Seq<(Seq<char>, V)>
    decreases n,
{
    if n == 0 {
        Seq::empty()
    } else {
        put(collected(keys, values, (n - 1) as nat), keys[n - 1], values[n - 1])
    }
}

/// Under distinct keys every value gets an entry of its own, in order.
pub proof fn collected_distinct<V>(keys: Seq<Seq<char>>, values: Seq<V>, n: nat)
    requires
        keys.no_duplicates(),
        n <= keys.len(),
        n <= values.len(),
    ensures
        collected(keys, values, n) == Seq::new(n, |i: int| (keys[i], values[i])),
    decreases n,
{
    let whole = Seq::new(n, |i: int| (keys[i], values[i]));
    if n > 0 {
        let m = (n - 1) as nat;
        collected_distinct(keys, values, m);
        let before = collected(keys, values, m);
        assert forall|i: int| 0 <= i < before.len() implies (#[trigger] before[i]).0 != keys[n - 1] by {
            assert(before[i].0 == keys[i]);
        }
        assert(!has_key(before, keys[n - 1]));
        assert(collected(keys, values, n) =~= whole);
    } else {
        assert(collected(keys, values, n) =~= whole);
    }
}

impl<V: Copy> Table<V> {
    /// Puts each value under the key of the same place.
    pub fn collect(keys: &Vec<String>, values: &Vec<V>) -> (table: Self)
        requires
            keys.len() == values.len(),
        ensures
            table.wf(),
            table@ == collected(crate::text::texts(keys@), values@, keys@.len()),
    {
        let mut table: Table<V> = Table::new();
        let mut i: usize = 0;
        while i < keys.len()
            invariant
                i <= keys.len(),
                keys.len() == values.len(),
                table.wf(),
                table@ == collected(crate::text::texts(keys@), values@, i as nat),
            decreases keys.len() - i,
        {
            table.insert(keys[i].clone(), values[i]);
            i += 1;
        }
        table
    }

    /// A table with the same entries in the same order.
    pub fn copy(&self) -> (table: Self)
        requires
            self.wf(),
        ensures
            table.wf(),
            table@ == self@,
    {
        let mut table: Table<V> = Table::new();
        let mut i: usize = 0;
        proof {
            self.keys_are_distinct();
        }
        while i < self.len()
            invariant
                self.wf(),
                table.wf(),
                distinct_keys(self@),
                i <= self@.len(),
                table@ == self@.take(i as int),
            decreases self@.len() - i,
        {
            proof {
                assert forall|k: int| 0 <= k < i implies (#[trigger] table@[k]).0
                    != self@[i as int].0 by {
                    assert(self@[k].0 != self@[i as int].0);
                }
                assert(!has_key(table@, self@[i as int].0));
            }
            table.insert(self.key(i).to_owned(), *self.value(i));
            assert(table@ =~= self@.take(i + 1));
            i += 1;
        }
        assert(self@.take(self@.len() as int) =~= self@);
        table
    }
}

} // verus!
