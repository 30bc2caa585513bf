//! The raw cache: an unbounded string-to-string upsert store over a single
//! two-column table.
//!
//! The table holds rows with unique keys; its mathematical model is a
//! `Map<Seq<char>, Seq<char>>` from key text to value text. The durable
//! engine behind the table is a collaborator outside this core, so the
//! table itself is held here as plain rows; every operation is one atomic
//! step against it, and its contract is stated over the map model.

use vstd::prelude::*;

verus! {

/// One row of the cache table: a unique key and its stored text.
pub struct CacheEntry {
    pub key: String,
    pub value: String,
}

/// The error kinds surfaced by cache operations.
#[derive(Debug, Clone, Copy, PartialEq, Eq)]
pub enum PersistError {
    /// A failure of the durable collaborator store. The in-memory table
    /// never raises it; it is the failure channel reserved for a durable
    /// backing.
    Storage,
    /// A JSON-backed accessor could not decode the stored text.
    Serialization,
    /// The credential accessor found stored text that is not valid hex.
    Encoding,
}

pub type PersistResult<T> = Result<T, PersistError>;

/// The model of a row sequence: fold the rows into a map, later rows
/// overwriting earlier ones (with unique keys, order is irrelevant).
pub open spec fn entries_view(s: Seq<CacheEntry>) -> Map<Seq<char>, Seq<char>>
    decreases s.len(),
{
    if s.len() == 0 {
        Map::empty()
    } else {
        entries_view(s.drop_last()).insert(s.last().key@, s.last().value@)
    }
}

/// The table invariant: no two rows share a key.
pub open spec fn distinct_keys(s: Seq<CacheEntry>) -> bool {
    forall|i: int, j: int| 0 <= i < j < s.len() ==> s[i].key@ != s[j].key@
}

/// The cache table, keyed by unique strings.
pub struct SqliteStorage {
    entries: Vec<CacheEntry>,
}

impl View for SqliteStorage {
    type V = Map<Seq<char>, Seq<char>>;

    closed spec fn view(&self) -> Map<Seq<char>, Seq<char>> {
        entries_view(self.entries@)
    }
}

proof fn lemma_distinct_drop_last(s: Seq<CacheEntry>)
    requires
        distinct_keys(s),
        s.len() > 0,
    ensures
        distinct_keys(s.drop_last()),
{
    assert forall|i: int, j: int|
        0 <= i < j < s.drop_last().len() implies s.drop_last()[i].key@
        != s.drop_last()[j].key@ by {
        assert(s.drop_last()[i] == s[i]);
        assert(s.drop_last()[j] == s[j]);
    }
}

/// A row's key is in the model, bound to that row's value.
proof fn lemma_view_at_index(s: Seq<CacheEntry>, i: int)
    requires
        distinct_keys(s),
        0 <= i < s.len(),
    ensures
        entries_view(s).contains_key(s[i].key@),
        entries_view(s)[s[i].key@] == s[i].value@,
    decreases s.len(),
{
    if i == s.len() - 1 {
        assert(s.last() == s[i]);
    } else {
        lemma_distinct_drop_last(s);
        assert(s.drop_last()[i] == s[i]);
        lemma_view_at_index(s.drop_last(), i);
        assert(s.last().key@ != s[i].key@);
    }
}

/// A key on no row is not in the model.
proof fn lemma_view_absent(s: Seq<CacheEntry>, k: Seq<char>)
    requires
        forall|i: int| 0 <= i < s.len() ==> s[i].key@ != k,
    ensures
        !entries_view(s).contains_key(k),
    decreases s.len(),
{
    if s.len() > 0 {
        assert forall|i: int| 0 <= i < s.drop_last().len() implies s.drop_last()[i].key@ != k by {
            assert(s.drop_last()[i] == s[i]);
        }
        lemma_view_absent(s.drop_last(), k);
        assert(s.last().key@ == s[s.len() - 1].key@);
    }
}

/// Appending a row with a fresh key inserts its binding into the model.
proof fn lemma_view_push(s: Seq<CacheEntry>, e: CacheEntry)
    requires
        distinct_keys(s),
        forall|i: int| 0 <= i < s.len() ==> s[i].key@ != e.key@,
    ensures
        distinct_keys(s.push(e)),
        entries_view(s.push(e)) == entries_view(s).insert(e.key@, e.value@),
{
    assert(s.push(e).drop_last() =~= s);
    assert(s.push(e).last() == e);
    assert forall|i: int, j: int|
        0 <= i < j < s.push(e).len() implies s.push(e)[i].key@ != s.push(e)[j].key@ by {
        if j < s.len() {
            assert(s.push(e)[i] == s[i]);
            assert(s.push(e)[j] == s[j]);
        } else {
            assert(s.push(e)[i] == s[i]);
            assert(s.push(e)[j] == e);
        }
    }
}

/// Removing a row removes exactly its key's binding from the model.
proof fn lemma_view_remove(s: Seq<CacheEntry>, i: int)
    requires
        distinct_keys(s),
        0 <= i < s.len(),
    ensures
        distinct_keys(s.remove(i)),
        entries_view(s.remove(i)) == entries_view(s).remove(s[i].key@),
    decreases s.len(),
{
    let k = s[i].key@;
    assert forall|p: int, q: int|
        0 <= p < q < s.remove(i).len() implies s.remove(i)[p].key@ != s.remove(i)[q].key@ by {
        let p0 = if p < i { p } else { p + 1 };
        let q0 = if q < i { q } else { q + 1 };
        assert(s.remove(i)[p] == s[p0]);
        assert(s.remove(i)[q] == s[q0]);
    }
    if i == s.len() - 1 {
        assert(s.remove(i) =~= s.drop_last());
        lemma_distinct_drop_last(s);
        assert forall|j: int| 0 <= j < s.drop_last().len() implies s.drop_last()[j].key@ != k by {
            assert(s.drop_last()[j] == s[j]);
        }
        lemma_view_absent(s.drop_last(), k);
        assert(entries_view(s).remove(k) =~= entries_view(s.drop_last()));
    } else {
        lemma_distinct_drop_last(s);
        assert(s.remove(i).drop_last() =~= s.drop_last().remove(i));
        assert(s.remove(i).last() == s.last());
        assert(s.drop_last()[i] == s[i]);
        lemma_view_remove(s.drop_last(), i);
        assert(s.last().key@ != k);
        assert(entries_view(s.drop_last()).remove(k).insert(s.last().key@, s.last().value@)
            =~= entries_view(s.drop_last()).insert(s.last().key@, s.last().value@).remove(k));
    }
}

impl SqliteStorage {
    /// The table invariant: no two rows share a key.
    pub closed spec fn wf(&self) -> bool {
        distinct_keys(self.entries@)
    }

    /// A fresh, empty store.
    pub fn new() -> (r: SqliteStorage)
        ensures
            r.wf(),
            r@ == Map::<Seq<char>, Seq<char>>::empty(),
    {
        SqliteStorage { entries: Vec::new() }
    }

    /// The index of the row holding `key`, if any.
    fn find_index(&self, key: &String) -> (r: Option<usize>)
        requires
            self.wf(),
        ensures
            match r {
                Some(i) => i < self.entries@.len() && self.entries@[i as int].key@ == key@,
                None => forall|i: int| 0 <= i < self.entries@.len() ==> self.entries@[i].key@
                    != key@,
            },
    {
        let mut i: usize = 0;
        while i < self.entries.len()
            invariant
                i <= self.entries@.len(),
                forall|j: int| 0 <= j < i ==> self.entries@[j].key@ != key@,
            decreases self.entries@.len() - i,
        {
            if self.entries[i].key == *key {
                return Some(i);
            }
            i = i + 1;
        }
        None
    }

    /// Looks `key` up; the stored value if present, a missing-value result
    /// otherwise. The read path never errs.
    pub fn get_cached_item(&self, key: String) -> (r: PersistResult<Option<String>>)
        requires
            self.wf(),
        ensures
            match r {
                Ok(Some(v)) => self@.contains_key(key@) && v@ == self@[key@],
                Ok(None) => !self@.contains_key(key@),
                Err(_) => false,
            },
    {
        match self.find_index(&key) {
            Some(i) => {
                proof {
                    lemma_view_at_index(self.entries@, i as int);
                }
                Ok(Some(self.entries[i].value.clone()))
            },
            None => {
                proof {
                    lemma_view_absent(self.entries@, key@);
                }
                Ok(None)
            },
        }
    }

    /// Upsert: inserts a row for `key` or replaces the existing one, so the
    /// model gains exactly the binding `key -> value`.
    pub fn update_cached_item(&mut self, key: String, value: String) -> (r: PersistResult<()>)
        requires
            old(self).wf(),
        ensures
            r is Ok,
            final(self).wf(),
            final(self)@ == old(self)@.insert(key@, value@),
    {
        let ghost k = key@;
        let ghost v = value@;
        match self.find_index(&key) {
            Some(i) => {
                proof {
                    lemma_view_remove(self.entries@, i as int);
                    assert forall|j: int|
                        0 <= j < self.entries@.remove(i as int).len() implies self.entries@.remove(
                        i as int,
                    )[j].key@ != k by {
                        let j0 = if j < i { j } else { j + 1 };
                        assert(self.entries@.remove(i as int)[j] == self.entries@[j0]);
                    }
                }
                self.entries.remove(i);
                proof {
                    lemma_view_push(self.entries@, CacheEntry { key, value });
                }
                let e = CacheEntry { key, value };
                self.entries.push(e);
                proof {
                    assert(old(self)@.remove(k).insert(k, v) =~= old(self)@.insert(k, v));
                }
                Ok(())
            },
            None => {
                proof {
                    lemma_view_push(self.entries@, CacheEntry { key, value });
                }
                let e = CacheEntry { key, value };
                self.entries.push(e);
                Ok(())
            },
        }
    }

    /// Removes the row for `key`; deleting an absent key is a no-op and
    /// succeeds.
    pub fn delete_cached_item(&mut self, key: String) -> (r: PersistResult<()>)
        requires
            old(self).wf(),
        ensures
            r is Ok,
            final(self).wf(),
            final(self)@ == old(self)@.remove(key@),
    {
        match self.find_index(&key) {
            Some(i) => {
                proof {
                    lemma_view_remove(self.entries@, i as int);
                }
                self.entries.remove(i);
                Ok(())
            },
            None => {
                proof {
                    lemma_view_absent(self.entries@, key@);
                    assert(old(self)@.remove(key@) =~= old(self)@);
                }
                Ok(())
            },
        }
    }
}

} // verus!
