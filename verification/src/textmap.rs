//! A map from strings to values that keeps its entries in the order in which
//! their keys were last written.
use vstd::prelude::*;

use crate::text::same;

verus! {

/// The map that a sequence of entries stands for: of two entries with one key
/// the later counts.
pub open spec fn entries_map<V>(entries: Seq<(String, V)>) -> Map<Seq<char>, V>
    decreases entries.len(),
{
    if entries.len() == 0 {
        Map::empty()
    } else {
        entries_map(entries.drop_last()).insert(entries.last().0@, entries.last().1)
    }
}

/// Whether no key stands twice.
pub open spec fn distinct_keys<V>(entries: Seq<(String, V)>) -> bool {
    forall|i: int, j: int|
        0 <= i < j < entries.len() ==> (#[trigger] entries[i]).0@ != (#[trigger] entries[j]).0@
}

/// A map from strings to values.
pub struct TextMap<V> {
    entries: Vec<(String, V)>,
}

impl<V> View for TextMap<V> {
    type V = Map<Seq<char>, V>;

    closed spec fn view(&self) -> Map<Seq<char>, V> {
        entries_map(self.entries@)
    }
}

proof fn lemma_entries_map_domain<V>(entries: Seq<(String, V)>, key: Seq<char>)
    ensures
        entries_map(entries).contains_key(key) <==> exists|i: int|
            0 <= i < entries.len() && (#[trigger] entries[i]).0@ == key,
    decreases entries.len(),
{
    if entries.len() > 0 {
        let rest = entries.drop_last();
        lemma_entries_map_domain(rest, key);
        if entries_map(rest).contains_key(key) {
            let i = choose|i: int| 0 <= i < rest.len() && (#[trigger] rest[i]).0@ == key;
            assert(entries[i].0@ == key);
        }
        if exists|i: int| 0 <= i < entries.len() && (#[trigger] entries[i]).0@ == key {
            let i = choose|i: int| 0 <= i < entries.len() && (#[trigger] entries[i]).0@ == key;
            if i < rest.len() {
                assert(rest[i].0@ == key);
            }
        }
        if entries.last().0@ == key {
            assert(entries[entries.len() - 1].0@ == key);
        }
    }
}

/// The last entry with a key gives its value.
proof fn lemma_entries_map_value<V>(entries: Seq<(String, V)>, i: int)
    requires
        0 <= i < entries.len(),
        forall|j: int| i < j < entries.len() ==> (#[trigger] entries[j]).0@ != entries[i].0@,
    ensures
        entries_map(entries).contains_key(entries[i].0@),
        entries_map(entries)[entries[i].0@] == entries[i].1,
    decreases entries.len(),
{
    if i < entries.len() - 1 {
        let rest = entries.drop_last();
        assert forall|j: int| i < j < rest.len() implies (#[trigger] rest[j]).0@ != rest[i].0@ by {
            assert(entries[j].0@ != entries[i].0@);
        }
        lemma_entries_map_value(rest, i);
        assert(entries[entries.len() - 1].0@ != entries[i].0@);
    }
}

/// Without one entry the map is the same at every other key.
proof fn lemma_entries_map_remove<V>(entries: Seq<(String, V)>, i: int, k: Seq<char>)
    requires
        0 <= i < entries.len(),
        k != entries[i].0@,
    ensures
        entries_map(entries.remove(i)).contains_key(k) == entries_map(entries).contains_key(k),
        entries_map(entries).contains_key(k) ==> entries_map(entries.remove(i))[k] == entries_map(
            entries,
        )[k],
    decreases entries.len(),
{
    if i == entries.len() - 1 {
        assert(entries.remove(i) =~= entries.drop_last());
    } else {
        let rest = entries.drop_last();
        lemma_entries_map_remove(rest, i, k);
        assert(entries.remove(i).drop_last() =~= rest.remove(i));
        assert(entries.remove(i).last() == entries.last());
    }
}

/// Another value in the last entry with a key is another value of the key.
proof fn lemma_entries_map_update<V>(entries: Seq<(String, V)>, i: int, value: V)
    requires
        0 <= i < entries.len(),
        forall|j: int| i < j < entries.len() ==> (#[trigger] entries[j]).0@ != entries[i].0@,
    ensures
        entries_map(entries.update(i, (entries[i].0, value))) == entries_map(entries).insert(
            entries[i].0@,
            value,
        ),
    decreases entries.len(),
{
    let changed = entries.update(i, (entries[i].0, value));
    let rest = entries.drop_last();
    if i == entries.len() - 1 {
        assert(changed.drop_last() =~= rest);
        assert(entries_map(changed) =~= entries_map(entries).insert(entries[i].0@, value));
    } else {
        assert forall|j: int| i < j < rest.len() implies (#[trigger] rest[j]).0@ != rest[i].0@ by {
            assert(entries[j].0@ != entries[i].0@);
        }
        lemma_entries_map_update(rest, i, value);
        assert(changed.drop_last() =~= rest.update(i, (rest[i].0, value)));
        assert(entries[entries.len() - 1].0@ != entries[i].0@);
        assert(entries_map(changed) =~= entries_map(entries).insert(entries[i].0@, value));
    }
}

impl<V> TextMap<V> {
    /// Whether each key stands once.
    pub closed spec fn wf(&self) -> bool {
        distinct_keys(self.entries@)
    }

    /// The entries, in the order in which they are kept.
    pub closed spec fn pairs(&self) -> Seq<(String, V)> {
        self.entries@
    }

    /// The map is the one that its entries stand for.
    pub proof fn lemma_view(&self)
        ensures
            self@ == entries_map(self.pairs()),
    {
    }

    /// The entries are those of the map: each key stands at one position, with
    /// its value.
    pub proof fn lemma_entries(&self)
        requires
            self.wf(),
        ensures
            distinct_keys(self.pairs()),
            forall|i: int|
                0 <= i < self.pairs().len() ==> self@.contains_key(
                    (#[trigger] self.pairs()[i]).0@,
                ) && self@[self.pairs()[i].0@] == self.pairs()[i].1,
            forall|k: Seq<char>|
                self@.contains_key(k) ==> exists|i: int|
                    0 <= i < self.pairs().len() && (#[trigger] self.pairs()[i]).0@ == k,
    {
        let entries = self.entries@;
        assert forall|i: int| 0 <= i < entries.len() implies self@.contains_key(
            (#[trigger] entries[i]).0@,
        ) && self@[entries[i].0@] == entries[i].1 by {
            lemma_entries_map_value(entries, i);
        }
        assert forall|k: Seq<char>| self@.contains_key(k) implies exists|i: int|
            0 <= i < self.pairs().len() && (#[trigger] self.pairs()[i]).0@ == k by {
            lemma_entries_map_domain(entries, k);
            let i = choose|i: int| 0 <= i < entries.len() && (#[trigger] entries[i]).0@ == k;
            assert(self.pairs()[i].0@ == k);
        }
    }

    /// An empty map.
    pub fn new() -> (map: TextMap<V>)
        ensures
            map@ == Map::<Seq<char>, V>::empty(),
            map.wf(),
            map.pairs() == Seq::<(String, V)>::empty(),
    {
        TextMap { entries: Vec::new() }
    }

    fn last_index(&self, key: &str) -> (r: Option<usize>)
        ensures
            match r {
                Some(i) => i < self.entries@.len() && self.entries@[i as int].0@ == key@ && (forall|
                    j: int,
                |
                    i < j < self.entries@.len() ==> (#[trigger] self.entries@[j]).0@ != key@),
                None => forall|j: int|
                    0 <= j < self.entries@.len() ==> (#[trigger] self.entries@[j]).0@ != key@,
            },
    {
        let mut i: usize = self.entries.len();
        while i > 0
            invariant
                i <= self.entries@.len(),
                forall|j: int|
                    i <= j < self.entries@.len() ==> (#[trigger] self.entries@[j]).0@ != key@,
            decreases i,
        {
            i -= 1;
            if same(self.entries[i].0.as_str(), key) {
                return Some(i);
            }
        }
        None
    }

    /// Sets the value of a key.
    pub fn insert(&mut self, key: String, value: V)
        ensures
            final(self)@ == old(self)@.insert(key@, value),
            old(self).wf() ==> final(self).wf(),
    {
        let ghost before = self.entries@;
        match self.last_index(key.as_str()) {
            Some(i) => {
                self.entries.remove(i);
                proof {
                    let a = entries_map(self.entries@);
                    let b = entries_map(before);
                    assert forall|k: Seq<char>| k != key@ implies #[trigger] a.dom().contains(k)
                        == b.dom().contains(k) by {
                        lemma_entries_map_remove(before, i as int, k);
                    }
                    assert forall|k: Seq<char>|
                        k != key@ && b.dom().contains(k) implies #[trigger] a[k] == b[k] by {
                        lemma_entries_map_remove(before, i as int, k);
                    }
                    assert(a.insert(key@, value) =~= b.insert(key@, value));
                    if distinct_keys(before) {
                        assert forall|a: int, b: int|
                            0 <= a < b < self.entries@.len() implies (#[trigger] self.entries@[a]).0@
                            != (#[trigger] self.entries@[b]).0@ by {
                            let x = if a < i { a } else { a + 1 };
                            let y = if b < i { b } else { b + 1 };
                            assert(before[x].0@ != before[y].0@);
                        }
                        assert forall|a: int| 0 <= a < self.entries@.len() implies (
                        #[trigger] self.entries@[a]).0@ != key@ by {
                            if a < i {
                                assert(before[a].0@ != before[i as int].0@);
                            } else {
                                assert(before[a + 1].0@ != before[i as int].0@);
                            }
                        }
                    }
                }
            },
            None => {},
        }
        let ghost middle = self.entries@;
        self.entries.push((key, value));
        assert(self.entries@.drop_last() =~= middle);
    }

    /// The value of a key.
    pub fn get(&self, key: &str) -> (r: Option<&V>)
        ensures
            match r {
                Some(v) => self@.contains_key(key@) && *v == self@[key@],
                None => !self@.contains_key(key@),
            },
    {
        proof {
            lemma_entries_map_domain(self.entries@, key@);
        }
        match self.last_index(key) {
            Some(i) => {
                proof {
                    lemma_entries_map_value(self.entries@, i as int);
                }
                Some(&self.entries[i].1)
            },
            None => None,
        }
    }

    /// The value of a key, which is `value` where the key had none.
    pub fn get_or_insert(&mut self, key: String, value: V) -> (r: &mut V)
        ensures
            *r == if old(self)@.contains_key(key@) {
                old(self)@[key@]
            } else {
                value
            },
            final(self)@ == old(self)@.insert(key@, *final(r)),
            old(self).wf() ==> final(self).wf(),
    {
        let ghost before = self.entries@;
        proof {
            lemma_entries_map_domain(before, key@);
        }
        let i: usize = match self.last_index(key.as_str()) {
            Some(i) => {
                proof {
                    lemma_entries_map_value(before, i as int);
                    assert forall|v: V, k: String| #![trigger before.update(i as int, (k, v))]
                        k == before[i as int].0 implies entries_map(before.update(i as int, (k, v)))
                        == entries_map(before).insert(key@, v) by {
                        lemma_entries_map_update(before, i as int, v);
                    }
                }
                i
            },
            None => {
                self.entries.push((key, value));
                proof {
                    let grown = self.entries@;
                    assert(grown.drop_last() =~= before);
                    assert forall|v: V, k: String| #![trigger grown.update(before.len() as int, (k, v))]
                        k == key implies entries_map(grown.update(before.len() as int, (k, v)))
                        == entries_map(before).insert(key@, v) by {
                        assert(grown.update(before.len() as int, (k, v)).drop_last() =~= before);
                    }
                }
                self.entries.len() - 1
            },
        };
        &mut self.entries[i].1
    }

    /// Whether a key has a value.
    pub fn contains_key(&self, key: &str) -> (r: bool)
        ensures
            r == self@.contains_key(key@),
    {
        proof {
            lemma_entries_map_domain(self.entries@, key@);
        }
        match self.last_index(key) {
            Some(i) => {
                assert(self.entries@[i as int].0@ == key@);
                true
            },
            None => false,
        }
    }

    /// The number of entries.
    pub fn len(&self) -> (n: usize)
        ensures
            n == self.pairs().len(),
    {
        self.entries.len()
    }

    /// The key of the entry at a position.
    pub fn key_at(&self, i: usize) -> (key: &str)
        requires
            i < self.pairs().len(),
        ensures
            key@ == self.pairs()[i as int].0@,
    {
        self.entries[i].0.as_str()
    }

    /// The value of the entry at a position.
    pub fn value_at(&self, i: usize) -> (value: &V)
        requires
            i < self.pairs().len(),
        ensures
            *value == self.pairs()[i as int].1,
    {
        &self.entries[i].1
    }
}

} // verus!
