//! Tables that keep their keys in alphabetical order.
use crate::text::chars_of;
use vstd::prelude::*;

verus! {

/// `a` comes before `b` in alphabetical order, character by character.
pub open spec fn lex(a: Seq<char>, b: Seq<char>) -> bool
    decreases a.len(),
{
    if b.len() == 0 {
        false
    } else if a.len() == 0 {
        true
    } else if a[0] != b[0] {
        a[0] < b[0]
    } else {
        lex(a.skip(1), b.skip(1))
    }
}

/// Nothing comes before itself.
pub proof fn lex_irreflexive(a: Seq<char>)
    ensures
        !lex(a, a),
    decreases a.len(),
{
    if a.len() > 0 {
        lex_irreflexive(a.skip(1));
    }
}

/// What comes before something that comes before `c` comes before `c`.
pub proof fn lex_transitive(a: Seq<char>, b: Seq<char>, c: Seq<char>)
    requires
        lex(a, b),
        lex(b, c),
    ensures
        lex(a, c),
    decreases a.len(),
{
    if a.len() > 0 && b.len() > 0 && c.len() > 0 && a[0] == b[0] && b[0] == c[0] {
        lex_transitive(a.skip(1), b.skip(1), c.skip(1));
    }
}

/// Of two different texts one comes before the other.
pub proof fn lex_total(a: Seq<char>, b: Seq<char>)
    requires
        a != b,
    ensures
        lex(a, b) || lex(b, a),
    decreases a.len(),
{
    if a.len() > 0 && b.len() > 0 {
        if a[0] == b[0] {
            if a.skip(1) == b.skip(1) {
                assert(a =~= seq![a[0]] + a.skip(1));
                assert(b =~= seq![b[0]] + b.skip(1));
            }
            lex_total(a.skip(1), b.skip(1));
        }
    } else {
        if a.len() == 0 && b.len() == 0 {
            assert(a =~= b);
        }
    }
}

/// Whether `a` comes before `b`.
pub fn precedes(a: &str, b: &str) -> (yes: bool)
    ensures
        yes == lex(a@, b@),
{
    let left = chars_of(a);
    let right = chars_of(b);
    let mut i: usize = 0;
    assert(a@.skip(0) =~= a@);
    assert(b@.skip(0) =~= b@);
    while i < left.len() && i < right.len()
        invariant
            left@ == a@,
            right@ == b@,
            i <= left.len(),
            i <= right.len(),
            lex(a@, b@) == lex(a@.skip(i as int), b@.skip(i as int)),
        decreases left.len() - i,
    {
        let x: char = left[i];
        let y: char = right[i];
        proof {
            assert(a@.skip(i as int)[0] == x);
            assert(b@.skip(i as int)[0] == y);
            assert(a@.skip(i as int).skip(1) =~= a@.skip(i + 1));
            assert(b@.skip(i as int).skip(1) =~= b@.skip(i + 1));
        }
        if x != y {
            return x < y;
        }
        i += 1;
    }
    i < right.len()
}

/// The keys stand in alphabetical order, each once.
pub open spec fn sorted_keys<V>(entries: Seq<(Seq<char>, V)>) -> bool {
    forall|i: int, j: int|
        0 <= i < j < entries.len() ==> lex((#[trigger] entries[i]).0, (#[trigger] entries[j]).0)
}

/// Entry `i` stands under `key`.
pub open spec fn stands_under<V>(entries: Seq<(Seq<char>, V)>, key: Seq<char>, i: int) -> bool {
    0 <= i < entries.len() && entries[i].0 == key
}

/// Values under text keys, in alphabetical order of the keys.
pub struct Sorted<V> {
    entries: Vec<(String, V)>,
}

impl<V> View for Sorted<V> {
    type V = Seq<(Seq<char>, V)>;

    closed spec fn view(&self) -> Seq<(Seq<char>, V)> {
        self.entries@.map_values(|e: (String, V)| (e.0@, e.1))
    }
}

impl<V> Sorted<V> {
    /// The keys stand in alphabetical order, each once.
    pub open spec fn wf(&self) -> bool {
        sorted_keys(self@)
    }

    /// A table without entries.
    pub fn new() -> (table: Self)
        ensures
            table.wf(),
            table@ == Seq::<(Seq<char>, V)>::empty(),
    {
        let table = Sorted { entries: Vec::new() };
        assert(table@ =~= Seq::<(Seq<char>, V)>::empty());
        table
    }

    /// How many entries there are.
    pub fn len(&self) -> (n: usize)
        ensures
            n == self@.len(),
    {
        self.entries.len()
    }

    /// The key at a place of the order.
    pub fn key(&self, at: usize) -> (key: &str)
        requires
            at < self@.len(),
        ensures
            key@ == self@[at as int].0,
    {
        self.entries[at].0.as_str()
    }

    /// The value at a place of the order.
    pub fn value(&self, at: usize) -> (value: &V)
        requires
            at < self@.len(),
        ensures
            *value == self@[at as int].1,
    {
        &self.entries[at].1
    }

    /// Where `key` stands, or where it would.
    pub fn find(&self, key: &str) -> (at: Result<usize, usize>)
        requires
            self.wf(),
        ensures
            match at {
                Ok(i) => stands_under(self@, key@, i as int),
                Err(i) => {
                    &&& i <= self@.len()
                    &&& forall|k: int| 0 <= k < i ==> lex((#[trigger] self@[k]).0, key@)
                    &&& forall|k: int|
                        i <= k < self@.len() ==> lex(key@, (#[trigger] self@[k]).0)
                    &&& forall|k: int| !#[trigger] stands_under(self@, key@, k)
                },
            },
    {
        let mut i: usize = 0;
        while i < self.entries.len() && precedes(self.entries[i].0.as_str(), key)
            invariant
                self.wf(),
                i <= self@.len(),
                self@.len() == self.entries@.len(),
                forall|k: int| 0 <= k < i ==> lex((#[trigger] self@[k]).0, key@),
            decreases self.entries.len() - i,
        {
            assert(self@[i as int].0 == self.entries@[i as int].0@);
            i += 1;
        }
        if i < self.entries.len() {
            assert(self@[i as int].0 == self.entries@[i as int].0@);
            if crate::text::same(self.entries[i].0.as_str(), key) {
                return Ok(i);
            }
            proof {
                lex_total(self@[i as int].0, key@);
                assert forall|k: int| i <= k < self@.len() implies lex(key@, (#[trigger] self@[k]).0) by {
                    if k > i {
                        lex_transitive(key@, self@[i as int].0, self@[k].0);
                    }
                }
            }
        }
        assert forall|k: int| !#[trigger] stands_under(self@, key@, k) by {
            lex_irreflexive(key@);
        }
        Err(i)
    }

    /// Puts `value` under a new key, in its place.
    pub fn insert_at(&mut self, at: usize, key: String, value: V)
        requires
            old(self).wf(),
            at <= old(self)@.len(),
            forall|k: int| 0 <= k < at ==> lex((#[trigger] old(self)@[k]).0, key@),
            forall|k: int|
                at <= k < old(self)@.len() ==> lex(key@, (#[trigger] old(self)@[k]).0),
        ensures
            final(self).wf(),
            final(self)@ == old(self)@.insert(at as int, (key@, value)),
    {
        let ghost before = self@;
        self.entries.insert(at, (key, value));
        proof {
            let after = self@;
            assert(after =~= before.insert(at as int, (key@, value)));
            assert forall|i: int, j: int| 0 <= i < j < after.len() implies lex(
                (#[trigger] after[i]).0,
                (#[trigger] after[j]).0,
            ) by {
                let x = if i < at {
                    i
                } else {
                    i - 1
                };
                let y = if j < at {
                    j
                } else {
                    j - 1
                };
                if i != at {
                    assert(after[i] == before[x]);
                }
                if j != at {
                    assert(after[j] == before[y]);
                }
            }
        }
    }

    /// Replaces the value at a place of the order.
    pub fn set(&mut self, at: usize, value: V)
        requires
            old(self).wf(),
            at < old(self)@.len(),
        ensures
            final(self).wf(),
            final(self)@ == old(self)@.update(at as int, (old(self)@[at as int].0, value)),
    {
        let ghost before = self@;
        let key = self.entries[at].0.clone();
        self.entries.set(at, (key, value));
        proof {
            let after = self@;
            assert(after =~= before.update(at as int, (before[at as int].0, value)));
            assert forall|i: int, j: int| 0 <= i < j < after.len() implies lex(
                (#[trigger] after[i]).0,
                (#[trigger] after[j]).0,
            ) by {
                assert(lex(before[i].0, before[j].0));
            }
        }
    }
}

} // verus!
