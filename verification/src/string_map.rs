//! A map from strings to strings that can also list what it holds.
use vstd::hash_map::StringHashMap;
use vstd::prelude::*;

verus! {

/// The map that a list of entries stands for: of two entries with one key the later counts.
pub open spec fn entries_map(entries: Seq<(String, String)>) -> Map<Seq<char>, Seq<char>>
    decreases entries.len(),
{
    if entries.len() == 0 {
        Map::empty()
    } else {
        entries_map(entries.drop_last()).insert(entries.last().0@, entries.last().1@)
    }
}

/// Whether no two entries have the same key.
pub open spec fn distinct_keys(entries: Seq<(String, String)>) -> bool {
    forall|i: int, j: int|
        0 <= i < j < entries.len() ==> (#[trigger] entries[i]).0@ != (#[trigger] entries[j]).0@
}

/// What `entries_map` holds of a list without repeated keys: each entry, and nothing else.
pub proof fn lemma_entries_map(entries: Seq<(String, String)>)
    requires
        distinct_keys(entries),
    ensures
        forall|i: int|
            0 <= i < entries.len() ==> {
                &&& entries_map(entries).contains_key((#[trigger] entries[i]).0@)
                &&& entries_map(entries)[entries[i].0@] == entries[i].1@
            },
        forall|k: Seq<char>| #[trigger]
            entries_map(entries).contains_key(k) ==> exists|i: int|
                0 <= i < entries.len() && (#[trigger] entries[i]).0@ == k,
    decreases entries.len(),
{
    if entries.len() > 0 {
        let front = entries.drop_last();
        lemma_entries_map(front);
        assert forall|i: int| 0 <= i < entries.len() implies {
            &&& entries_map(entries).contains_key((#[trigger] entries[i]).0@)
            &&& entries_map(entries)[entries[i].0@] == entries[i].1@
        } by {
            if i < front.len() {
                assert(front[i] == entries[i]);
            }
        }
        assert forall|k: Seq<char>| #[trigger] entries_map(entries).contains_key(k) implies exists|
            i: int,
        | 0 <= i < entries.len() && (#[trigger] entries[i]).0@ == k by {
            if k == entries.last().0@ {
                assert(entries[entries.len() - 1].0@ == k);
            } else {
                assert(entries_map(front).contains_key(k));
                let i = choose|i: int| 0 <= i < front.len() && (#[trigger] front[i]).0@ == k;
                assert(entries[i] == front[i]);
            }
        }
    }
}

/// A map from strings to strings. The entries stand in a vector; an index says where each is.
pub struct StringMap {
    index: StringHashMap<usize>,
    entries: Vec<(String, String)>,
}

impl View for StringMap {
    type V = Map<Seq<char>, Seq<char>>;

    closed spec fn view(&self) -> Map<Seq<char>, Seq<char>> {
        entries_map(self.entries@)
    }
}

impl StringMap {
    /// The index leads from each key to its entry, and the entries hold no key twice.
    pub closed spec fn wf(&self) -> bool {
        &&& distinct_keys(self.entries@)
        &&& forall|i: int|
            0 <= i < self.entries@.len() ==> {
                &&& self.index@.contains_key((#[trigger] self.entries@[i]).0@)
                &&& self.index@[self.entries@[i].0@] == i
            }
        &&& forall|k: Seq<char>| #[trigger]
            self.index@.contains_key(k) ==> {
                &&& self.index@[k] < self.entries@.len()
                &&& self.entries@[self.index@[k] as int].0@ == k
            }
    }

    /// The empty map.
    pub fn new() -> (m: StringMap)
        ensures
            m.wf(),
            m@ == Map::<Seq<char>, Seq<char>>::empty(),
    {
        StringMap { index: StringHashMap::new(), entries: Vec::new() }
    }

    /// The entries of the map, each key once.
    pub fn entries(&self) -> (e: &Vec<(String, String)>)
        requires
            self.wf(),
        ensures
            distinct_keys(e@),
            entries_map(e@) == self@,
    {
        &self.entries
    }

    /// The value of a key.
    pub fn get(&self, key: &str) -> (r: Option<&String>)
        requires
            self.wf(),
        ensures
            match r {
                Some(v) => self@.contains_key(key@) && v@ == self@[key@],
                None => !self@.contains_key(key@),
            },
    {
        proof {
            lemma_entries_map(self.entries@);
        }
        match self.index.get(key) {
            Some(i) => Some(&self.entries[*i].1),
            None => None,
        }
    }

    /// Stores a value under a key, in place of the value that the key had.
    pub fn insert(&mut self, key: String, value: String)
        requires
            old(self).wf(),
        ensures
            final(self).wf(),
            final(self)@ == old(self)@.insert(key@, value@),
    {
        let ghost before = self.entries@;
        let ghost k = key@;
        let ghost v = value@;
        proof {
            lemma_entries_map(before);
        }
        let at: Option<usize> = match self.index.get(key.as_str()) {
            Some(i) => Some(*i),
            None => None,
        };
        match at {
            Some(i) => {
                self.entries.set(i, (key, value));
            },
            None => {
                let i: usize = self.entries.len();
                self.index.insert(key.clone(), i);
                self.entries.push((key, value));
            },
        }
        proof {
            let after = self.entries@;
            lemma_entries_map(after);
            assert forall|q: Seq<char>|
                entries_map(after).contains_key(q) == entries_map(before).insert(k, v).contains_key(
                    q,
                ) by {
                if entries_map(after).contains_key(q) && q != k {
                    let i = choose|i: int| 0 <= i < after.len() && (#[trigger] after[i]).0@ == q;
                    assert(before[i] == after[i]);
                }
                if entries_map(before).contains_key(q) {
                    let i = choose|i: int| 0 <= i < before.len() && (#[trigger] before[i]).0@ == q;
                    assert(after[i].0@ == q);
                }
            }
            assert forall|q: Seq<char>| entries_map(after).contains_key(q) implies entries_map(
                after,
            )[q] == entries_map(before).insert(k, v)[q] by {
                let i = choose|i: int| 0 <= i < after.len() && (#[trigger] after[i]).0@ == q;
                if q != k {
                    assert(before[i] == after[i]);
                }
            }
            assert(entries_map(after) =~= entries_map(before).insert(k, v));
        }
    }

    /// Removes a key, if it is there.
    pub fn remove(&mut self, key: &str)
        requires
            old(self).wf(),
        ensures
            final(self).wf(),
            final(self)@ == old(self)@.remove(key@),
    {
        let ghost before = self.entries@;
        let ghost k = key@;
        proof {
            lemma_entries_map(before);
        }
        let at: Option<usize> = match self.index.get(key) {
            Some(i) => Some(*i),
            None => None,
        };
        match at {
            Some(i) => {
                self.index.remove(key);
                let _ = self.entries.swap_remove(i);
                if i < self.entries.len() {
                    let moved = self.entries[i].0.clone();
                    self.index.insert(moved, i);
                }
                proof {
                    let after = self.entries@;
                    let last = before.len() - 1;
                    assert(before[i as int].0@ == k);
                    assert forall|j: int| 0 <= j < after.len() implies after[j] == (if j == i {
                        before[last]
                    } else {
                        before[j]
                    }) by {}
                    assert(distinct_keys(after));
                    lemma_entries_map(after);
                    assert forall|q: Seq<char>|
                        entries_map(after).contains_key(q) == entries_map(before).remove(
                            k,
                        ).contains_key(q) by {
                        if entries_map(after).contains_key(q) {
                            let j = choose|j: int|
                                0 <= j < after.len() && (#[trigger] after[j]).0@ == q;
                            assert(after[j] == (if j == i {
                                before[last]
                            } else {
                                before[j]
                            }));
                        }
                        if entries_map(before).contains_key(q) && q != k {
                            let j = choose|j: int|
                                0 <= j < before.len() && (#[trigger] before[j]).0@ == q;
                            if j == last {
                                assert(after[i as int].0@ == q);
                            } else {
                                assert(after[j].0@ == q);
                            }
                        }
                    }
                    assert forall|q: Seq<char>| entries_map(after).contains_key(q) implies entries_map(
                        after,
                    )[q] == entries_map(before).remove(k)[q] by {
                        let j = choose|j: int| 0 <= j < after.len() && (#[trigger] after[j]).0@ == q;
                        assert(after[j] == (if j == i {
                            before[last]
                        } else {
                            before[j]
                        }));
                    }
                    assert(entries_map(after) =~= entries_map(before).remove(k));
                }
            },
            None => {
                assert(entries_map(before).remove(k) =~= entries_map(before));
            },
        }
    }

    /// The map that a list of entries stands for.
    pub fn from_entries(entries: Vec<(String, String)>) -> (m: StringMap)
        ensures
            m.wf(),
            m@ == entries_map(entries@),
    {
        let mut m = StringMap::new();
        let mut i: usize = 0;
        assert(entries@.take(0) =~= Seq::<(String, String)>::empty());
        while i < entries.len()
            invariant
                i <= entries@.len(),
                m.wf(),
                m@ == entries_map(entries@.take(i as int)),
            decreases entries@.len() - i,
        {
            m.insert(entries[i].0.clone(), entries[i].1.clone());
            assert(entries@.take(i + 1).drop_last() =~= entries@.take(i as int));
            i = i + 1;
        }
        assert(entries@.take(entries@.len() as int) =~= entries@);
        m
    }
}

/// A list stands for a map that has exactly the keys of the list, and under each the value of the
/// last entry that has the key.
pub proof fn law_last_entry_of_a_key_counts(entries: Seq<(String, String)>, i: int)
    requires
        0 <= i < entries.len(),
        forall|j: int| i < j < entries.len() ==> (#[trigger] entries[j]).0@ != entries[i].0@,
    ensures
        entries_map(entries).contains_key(entries[i].0@),
        entries_map(entries)[entries[i].0@] == entries[i].1@,
    decreases entries.len(),
{
    if i < entries.len() - 1 {
        let front = entries.drop_last();
        assert(entries[entries.len() - 1].0@ != entries[i].0@);
        assert forall|j: int| i < j < front.len() implies (#[trigger] front[j]).0@
            != front[i].0@ by {
            assert(front[j] == entries[j]);
        }
        law_last_entry_of_a_key_counts(front, i);
    }
}

/// A list stands for a map that has no key but those of the list.
pub proof fn law_map_has_no_other_key(entries: Seq<(String, String)>, key: Seq<char>)
    requires
        forall|i: int| 0 <= i < entries.len() ==> (#[trigger] entries[i]).0@ != key,
    ensures
        !entries_map(entries).contains_key(key),
    decreases entries.len(),
{
    if entries.len() > 0 {
        let front = entries.drop_last();
        assert forall|i: int| 0 <= i < front.len() implies (#[trigger] front[i]).0@ != key by {
            assert(front[i] == entries[i]);
        }
        law_map_has_no_other_key(front, key);
        assert(entries[entries.len() - 1].0@ != key);
    }
}

/// Keys are distinct exactly where no two entries have the same.
pub proof fn law_distinct_means_no_key_twice(entries: Seq<(String, String)>)
    ensures
        distinct_keys(entries) <==> forall|i: int, j: int|
            0 <= i < entries.len() && 0 <= j < entries.len() && i != j ==> (#[trigger] entries[i]).0@
                != (#[trigger] entries[j]).0@,
{
}

} // verus!
