//! Named string values: an ordered table in which no name occurs twice.

use vstd::prelude::*;

verus! {

/// A name with its value, as a specification sees them.
pub type Entry = (Seq<char>, Seq<char>);

/// Whether some entry has the given name.
pub open spec fn has_key(entries: Seq<Entry>, key: Seq<char>) -> bool {
    exists|i: int| 0 <= i < entries.len() && (#[trigger] entries[i]).0 == key
}

/// No name occurs twice.
pub open spec fn distinct_keys(entries: Seq<Entry>) -> bool {
    forall|i: int, j: int|
        0 <= i < j < entries.len() ==> (#[trigger] entries[i]).0 != (#[trigger] entries[j]).0
}

/// The value under a name, if the name occurs.
pub open spec fn value_of(entries: Seq<Entry>, key: Seq<char>) -> Option<Seq<char>> {
    if has_key(entries, key) {
        Some(entries[choose|i: int| 0 <= i < entries.len() && (#[trigger] entries[i]).0 == key].1)
    } else {
        None
    }
}

/// The table after a value is stored under a name: a name that occurs
/// keeps its place and gets the new value, a new name goes to the end.
pub open spec fn upsert(entries: Seq<Entry>, key: Seq<char>, value: Seq<char>) -> Seq<Entry> {
    if has_key(entries, key) {
        Seq::new(
            entries.len(),
            |i: int|
                if entries[i].0 == key {
                    (key, value)
                } else {
                    entries[i]
                },
        )
    } else {
        entries.push((key, value))
    }
}

/// The pairs of strings of a vector, each by its view.
pub open spec fn pairs_view(pairs: Seq<(String, String)>) -> Seq<Entry> {
    Seq::new(pairs.len(), |i: int| (pairs[i].0@, pairs[i].1@))
}

/// Storing a value keeps the names distinct, makes the name present with
/// that value, and leaves every other name as it was.
pub proof fn lemma_upsert(entries: Seq<Entry>, key: Seq<char>, value: Seq<char>)
    requires
        distinct_keys(entries),
    ensures
        distinct_keys(upsert(entries, key, value)),
        value_of(upsert(entries, key, value), key) == Some(value),
        forall|other: Seq<char>|
            other != key ==> has_key(upsert(entries, key, value), other) == has_key(
                entries,
                other,
            ),
        forall|other: Seq<char>|
            other != key ==> value_of(upsert(entries, key, value), other) == value_of(
                entries,
                other,
            ),
{
    let after = upsert(entries, key, value);
    if has_key(entries, key) {
        let at = choose|i: int| 0 <= i < entries.len() && (#[trigger] entries[i]).0 == key;
        assert(after[at].0 == key);
    } else {
        assert(after[entries.len() as int].0 == key);
    }
    assert(has_key(after, key));
    assert forall|other: Seq<char>| other != key implies has_key(after, other) == has_key(
        entries,
        other,
    ) && value_of(after, other) == value_of(entries, other) by {
        if has_key(entries, other) {
            let i = choose|i: int| 0 <= i < entries.len() && (#[trigger] entries[i]).0 == other;
            assert(after[i].0 == other);
            let j = choose|j: int| 0 <= j < after.len() && (#[trigger] after[j]).0 == other;
            assert(entries[j].0 == other);
            if i != j {
                assert(entries[i].0 != entries[j].0);
            }
        }
        if has_key(after, other) {
            let j = choose|j: int| 0 <= j < after.len() && (#[trigger] after[j]).0 == other;
            assert(entries[j].0 == other);
        }
    }
    let k = choose|k: int| 0 <= k < after.len() && (#[trigger] after[k]).0 == key;
    assert(after[k].1 == value);
}

/// An ordered table of named strings.
pub struct StringMap {
    entries: Vec<(String, String)>,
}

impl View for StringMap {
    type V = Seq<Entry>;

    closed spec fn view(&self) -> Seq<Entry> {
        pairs_view(self.entries@)
    }
}

impl StringMap {
    /// Well-formedness: no name occurs twice.
    pub closed spec fn wf(&self) -> bool {
        distinct_keys(self@)
    }

    /// In a well-formed table no name occurs twice.
    pub proof fn lemma_wf_distinct(&self)
        requires
            self.wf(),
        ensures
            distinct_keys(self@),
    {
    }

    /// The empty table.
    pub fn new() -> (m: StringMap)
        ensures
            m@ == Seq::<Entry>::empty(),
            m.wf(),
    {
        let m = StringMap { entries: Vec::new() };
        assert(m@ =~= Seq::<Entry>::empty());
        m
    }

    /// Number of names.
    pub fn len(&self) -> (n: usize)
        ensures
            n == self@.len(),
    {
        self.entries.len()
    }

    /// Whether the table holds no name.
    pub fn is_empty(&self) -> (b: bool)
        ensures
            b == (self@.len() == 0),
    {
        self.entries.len() == 0
    }

    /// The place of a name, if it occurs.
    pub fn find(&self, key: &String) -> (r: Option<usize>)
        ensures
            r is Some == has_key(self@, key@),
            r matches Some(i) ==> i < self@.len() && self@[i as int].0 == key@,
    {
        let mut i: usize = 0;
        while i < self.entries.len()
            invariant
                i <= self.entries.len(),
                forall|j: int| 0 <= j < i ==> (#[trigger] self@[j]).0 != key@,
            decreases self.entries.len() - i,
        {
            if self.entries[i].0 == *key {
                assert(self@[i as int].0 == key@);
                return Some(i);
            }
            i += 1;
        }
        None
    }

    /// The value under a name, if the name occurs.
    pub fn get(&self, key: &String) -> (r: Option<&String>)
        requires
            self.wf(),
        ensures
            match r {
                Some(value) => value_of(self@, key@) == Some(value@),
                None => value_of(self@, key@) is None,
            },
    {
        match self.find(key) {
            Some(i) => {
                proof {
                    let c = choose|c: int| 0 <= c < self@.len() && (#[trigger] self@[c]).0 == key@;
                    if c != i {
                        assert(self@[c].0 != self@[i as int].0);
                    }
                }
                Some(&self.entries[i].1)
            },
            None => None,
        }
    }

    /// Stores a value under a name: an existing name keeps its place and
    /// gets the new value, a new name goes to the end.
    pub fn insert(&mut self, key: String, value: String)
        requires
            old(self).wf(),
        ensures
            final(self)@ == upsert(old(self)@, key@, value@),
            final(self).wf(),
    {
        proof {
            lemma_upsert(self@, key@, value@);
        }
        match self.find(&key) {
            Some(i) => {
                self.entries.set(i, (key, value));
                assert forall|j: int| 0 <= j < old(self)@.len() implies (#[trigger] old(
                    self,
                )@[j]).0 == key@ <==> j == i by {
                    if j != i {
                        assert(old(self)@[j].0 != old(self)@[i as int].0);
                    }
                }
                assert(self@ =~= upsert(old(self)@, key@, value@));
            },
            None => {
                self.entries.push((key, value));
                assert(self@ =~= upsert(old(self)@, key@, value@));
            },
        }
    }

    /// The name at a place.
    pub fn key_at(&self, i: usize) -> (k: &String)
        requires
            i < self@.len(),
        ensures
            k@ == self@[i as int].0,
    {
        &self.entries[i].0
    }

    /// The value at a place.
    pub fn value_at(&self, i: usize) -> (v: &String)
        requires
            i < self@.len(),
        ensures
            v@ == self@[i as int].1,
    {
        &self.entries[i].1
    }
}

} // verus!
