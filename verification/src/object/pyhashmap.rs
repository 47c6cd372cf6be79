use vstd::prelude::*;
use crate::object::ObjId;

verus! {

/// One entry of a [`PyHashMap`]: the key's hash, the key and the value.
pub type Entry = (u64, ObjId, ObjId);

/// An insertion-ordered table of `(hash, key, value)` entries.
///
/// An entry is found by its hash alone, and no two entries of a table that
/// was filled by insertions have the same hash: inserting under a hash that
/// the table already holds replaces the entry with that hash, at its place;
/// inserting under a new hash puts the entry at the end.
pub struct PyHashMap {
    pub table: Vec<Entry>,
}

/// The index of the first entry of `s` with hash `hash`, or `s.len()` if there is none.
pub open spec fn first_index(s: Seq<Entry>, hash: u64) -> int
    decreases s.len(),
{
    if s.len() == 0 {
        0
    } else if s[0].0 == hash {
        0
    } else {
        1 + first_index(s.drop_first(), hash)
    }
}

/// The value that a lookup of `hash` finds in `s`.
pub open spec fn spec_get(s: Seq<Entry>, hash: u64) -> Option<ObjId> {
    let i = first_index(s, hash);
    if i < s.len() {
        Some(s[i].2)
    } else {
        None
    }
}

/// The table `s` after the insertion of `(hash, key, value)`.
pub open spec fn spec_insert(s: Seq<Entry>, hash: u64, key: ObjId, value: ObjId) -> Seq<Entry> {
    let i = first_index(s, hash);
    if i < s.len() {
        s.update(i, (hash, key, value))
    } else {
        s.push((hash, key, value))
    }
}

/// No two entries of `s` have the same hash.
pub open spec fn hashes_unique(s: Seq<Entry>) -> bool {
    forall|i: int, j: int| 0 <= i < j < s.len() ==> (#[trigger] s[i]).0 != (#[trigger] s[j]).0
}

/// `first_index` is within bounds, points at an entry with the hash if there is
/// one, and no earlier entry has the hash.
pub proof fn lemma_first_index(s: Seq<Entry>, hash: u64)
    ensures
        0 <= first_index(s, hash) <= s.len(),
        first_index(s, hash) < s.len() ==> s[first_index(s, hash)].0 == hash,
        forall|j: int| 0 <= j < first_index(s, hash) ==> (#[trigger] s[j]).0 != hash,
    decreases s.len(),
{
    if s.len() != 0 && s[0].0 != hash {
        let t = s.drop_first();
        lemma_first_index(t, hash);
        assert forall|j: int| 0 <= j < first_index(s, hash) implies (#[trigger] s[j]).0 != hash by {
            if j > 0 {
                assert(t[j - 1] == s[j]);
            }
        }
    }
}

/// An index `i` before which no entry has the hash, and which either ends the
/// table or holds the hash, is the first index.
pub proof fn lemma_first_index_is(s: Seq<Entry>, hash: u64, i: int)
    requires
        0 <= i <= s.len(),
        forall|j: int| 0 <= j < i ==> (#[trigger] s[j]).0 != hash,
        i < s.len() ==> s[i].0 == hash,
    ensures
        first_index(s, hash) == i,
{
    lemma_first_index(s, hash);
    let f = first_index(s, hash);
    if f < i {
        assert(s[f].0 != hash);
    } else if f > i {
        assert(s[i].0 == hash);
    }
}

/// What an insertion does to later lookups: the inserted hash finds the new
/// value, and every other hash finds what it found before. The table is one
/// entry longer where it did not hold the hash, and as long as it was where
/// it did.
pub proof fn lemma_insert_get(s: Seq<Entry>, hash: u64, key: ObjId, value: ObjId, other: u64)
    ensures
        spec_insert(s, hash, key, value).len() == if spec_get(s, hash) is Some {
            s.len()
        } else {
            s.len() + 1
        },
        spec_get(spec_insert(s, hash, key, value), hash) == Some(value),
        other != hash ==> spec_get(spec_insert(s, hash, key, value), other) == spec_get(s, other),
{
    lemma_first_index(s, hash);
    let i = first_index(s, hash);
    let t = spec_insert(s, hash, key, value);
    assert forall|j: int| 0 <= j < i implies (#[trigger] t[j]).0 != hash by {
        assert(t[j] == s[j]);
    }
    lemma_first_index_is(t, hash, i);
    if other != hash {
        lemma_first_index(s, other);
        let o = first_index(s, other);
        assert forall|j: int| 0 <= j < o implies (#[trigger] t[j]).0 != other by {
            if j != i {
                assert(t[j] == s[j]);
            }
        }
        if o < s.len() {
            assert(o != i);
            assert(t[o] == s[o]);
        } else {
            assert(o <= t.len());
            if o < t.len() {
                assert(t[o].0 == hash);
            }
        }
        if o < s.len() {
            lemma_first_index_is(t, other, o);
        } else {
            assert forall|j: int| 0 <= j < t.len() implies (#[trigger] t[j]).0 != other by {
                if j < s.len() && j != i {
                    assert(t[j] == s[j]);
                }
            }
            lemma_first_index_is(t, other, t.len() as int);
        }
    }
}

/// An insertion keeps the hashes of a table different from one another.
pub proof fn lemma_insert_unique(s: Seq<Entry>, hash: u64, key: ObjId, value: ObjId)
    requires
        hashes_unique(s),
    ensures
        hashes_unique(spec_insert(s, hash, key, value)),
{
    lemma_first_index(s, hash);
    let i = first_index(s, hash);
    let t = spec_insert(s, hash, key, value);
    assert forall|a: int, b: int| 0 <= a < b < t.len() implies (#[trigger] t[a]).0 != (
    #[trigger] t[b]).0 by {
        if i < s.len() {
            assert(s[i].0 == hash);
            if a != i {
                assert(t[a] == s[a]);
            }
            if b != i {
                assert(t[b] == s[b]);
            }
        } else {
            assert(t[a] == s[a]);
            if b < s.len() {
                assert(t[b] == s[b]);
            }
        }
    }
}

impl PyHashMap {
    /// The entries, in table order.
    pub open spec fn view(&self) -> Seq<Entry> {
        self.table@
    }

    pub fn new() -> (m: PyHashMap)
        ensures
            m@ == Seq::<Entry>::empty(),
    {
        PyHashMap { table: Vec::new() }
    }

    /// The value of the first entry with hash `hash`.
    pub fn get(&self, hash: u64) -> (r: Option<ObjId>)
        ensures
            r == spec_get(self@, hash),
    {
        let i = self.position(hash);
        if i < self.table.len() {
            Some(self.table[i].2)
        } else {
            None
        }
    }

    /// The index of the first entry with hash `hash`, or the table's length.
    pub fn position(&self, hash: u64) -> (i: usize)
        ensures
            i == first_index(self@, hash),
    {
        let mut i: usize = 0;
        while i < self.table.len() && self.table[i].0 != hash
            invariant
                i <= self.table@.len(),
                forall|j: int| 0 <= j < i ==> (#[trigger] self.table@[j]).0 != hash,
            decreases self.table@.len() - i,
        {
            i = i + 1;
        }
        proof {
            lemma_first_index_is(self@, hash, i as int);
        }
        i
    }

    /// Puts `(hash, key, value)` in the place of the entry with the same
    /// hash, or at the end if there is none.
    pub fn insert(&mut self, hash: u64, key: ObjId, value: ObjId)
        ensures
            final(self)@ == spec_insert(old(self)@, hash, key, value),
    {
        let i = self.position(hash);
        if i < self.table.len() {
            self.table.set(i, (hash, key, value));
        } else {
            self.table.push((hash, key, value));
        }
    }

    /// The number of entries.
    pub fn len(&self) -> (n: usize)
        ensures
            n == self@.len(),
    {
        self.table.len()
    }
}

} // verus!
