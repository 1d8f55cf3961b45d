//! An association table: the ledger's storage maps as ordered key/value
//! entries with unique keys, abstracted to a `Map` over the keys' views.

use vstd::prelude::*;

verus! {

/// A key type whose equality a table can decide at run time, exactly
/// matching equality of its mathematical view.
pub trait TableKey: View + Sized {
    fn key_eq(&self, other: &Self) -> (r: bool)
        ensures
            r <==> self@ == other@,
    ;
}

/// No two entries share a key.
pub open spec fn dup_free<K: View, V>(s: Seq<(K, V)>) -> bool {
    forall|i: int, j: int| 0 <= i < j < s.len() ==> s[i].0@ != s[j].0@
}

/// The map an entry sequence stands for; later entries shadow earlier ones,
/// though a well-formed table never has two entries to one key.
pub open spec fn entries_map<K: View, V>(s: Seq<(K, V)>) -> Map<<K as View>::V, V>
    decreases s.len(),
{
    if s.len() == 0 {
        Map::empty()
    } else {
        entries_map(s.drop_last()).insert(s.last().0@, s.last().1)
    }
}

pub proof fn lemma_entries_map_contains<K: View, V>(s: Seq<(K, V)>, k: <K as View>::V)
    ensures
        entries_map(s).contains_key(k) <==> exists|i: int| 0 <= i < s.len() && s[i].0@ == k,
    decreases s.len(),
{
    if s.len() > 0 {
        let t = s.drop_last();
        lemma_entries_map_contains(t, k);
        if s.last().0@ == k {
            assert(s[s.len() - 1].0@ == k);
        } else {
            if exists|i: int| 0 <= i < s.len() && s[i].0@ == k {
                let i = choose|i: int| 0 <= i < s.len() && s[i].0@ == k;
                assert(t[i].0@ == k);
            }
            if exists|i: int| 0 <= i < t.len() && t[i].0@ == k {
                let i = choose|i: int| 0 <= i < t.len() && t[i].0@ == k;
                assert(s[i].0@ == k);
            }
        }
    }
}

pub proof fn lemma_entries_map_val<K: View, V>(s: Seq<(K, V)>, i: int)
    requires
        dup_free(s),
        0 <= i < s.len(),
    ensures
        entries_map(s).contains_key(s[i].0@),
        entries_map(s)[s[i].0@] == s[i].1,
    decreases s.len(),
{
    if i < s.len() - 1 {
        let t = s.drop_last();
        assert(dup_free(t)) by {
            assert(forall|x: int| 0 <= x < t.len() ==> t[x] == s[x]);
        }
        lemma_entries_map_val(t, i);
        assert(s.last().0@ != s[i].0@);
    }
}

pub proof fn lemma_entries_map_update<K: View, V>(s: Seq<(K, V)>, i: int, e: (K, V))
    requires
        dup_free(s),
        0 <= i < s.len(),
        e.0@ == s[i].0@,
    ensures
        entries_map(s.update(i, e)) =~= entries_map(s).insert(e.0@, e.1),
        dup_free(s.update(i, e)),
    decreases s.len(),
{
    let su = s.update(i, e);
    assert(forall|x: int| 0 <= x < s.len() ==> su[x].0@ == s[x].0@);
    if i == s.len() - 1 {
        assert(su.drop_last() =~= s.drop_last());
        assert(entries_map(su) =~= entries_map(s.drop_last()).insert(e.0@, e.1));
    } else {
        let t = s.drop_last();
        assert(dup_free(t)) by {
            assert(forall|x: int| 0 <= x < t.len() ==> t[x] == s[x]);
        }
        lemma_entries_map_update(t, i, e);
        assert(su.drop_last() =~= t.update(i, e));
        assert(su.last() == s.last());
        assert(s.last().0@ != e.0@);
        // inserting at two distinct keys commutes
        assert(entries_map(t).insert(e.0@, e.1).insert(s.last().0@, s.last().1) =~= entries_map(
            t,
        ).insert(s.last().0@, s.last().1).insert(e.0@, e.1));
    }
}

pub proof fn lemma_entries_map_remove<K: View, V>(s: Seq<(K, V)>, i: int)
    requires
        dup_free(s),
        0 <= i < s.len(),
    ensures
        entries_map(s.remove(i)) =~= entries_map(s).remove(s[i].0@),
        dup_free(s.remove(i)),
    decreases s.len(),
{
    let sr = s.remove(i);
    s.remove_ensures(i);
    assert(dup_free(sr)) by {
        assert(forall|x: int, y: int|
            0 <= x < y < sr.len() ==> sr[x].0@ != sr[y].0@) by {
            assert(forall|x: int| 0 <= x < i ==> sr[x] == s[x]);
            assert(forall|x: int| i <= x < s.len() - 1 ==> sr[x] == s[x + 1]);
        }
    }
    if i == s.len() - 1 {
        assert(sr =~= s.drop_last());
        lemma_entries_map_contains(s.drop_last(), s[i].0@);
        assert(!entries_map(s.drop_last()).contains_key(s[i].0@));
        assert(entries_map(s.drop_last()).insert(s[i].0@, s[i].1).remove(s[i].0@)
            =~= entries_map(s.drop_last()));
    } else {
        let t = s.drop_last();
        assert(dup_free(t)) by {
            assert(forall|x: int| 0 <= x < t.len() ==> t[x] == s[x]);
        }
        lemma_entries_map_remove(t, i);
        assert(sr.drop_last() =~= t.remove(i));
        assert(sr.last() == s.last());
        assert(t[i].0@ == s[i].0@);
        assert(s.last().0@ != s[i].0@);
        assert(entries_map(t).remove(s[i].0@).insert(s.last().0@, s.last().1) =~= entries_map(
            t,
        ).insert(s.last().0@, s.last().1).remove(s[i].0@));
    }
}

/// An ordered key/value store with unique keys, the ledger's stand-in for
/// one of the host's storage maps.
#[derive(Debug)]
pub struct Table<K: TableKey, V> {
    pub entries: Vec<(K, V)>,
}

impl<K: TableKey, V> View for Table<K, V> {
    type V = Map<<K as View>::V, V>;

    open spec fn view(&self) -> Map<<K as View>::V, V> {
        entries_map(self.entries@)
    }
}

impl<K: TableKey, V> Table<K, V> {
    pub open spec fn wf(&self) -> bool {
        dup_free(self.entries@)
    }

    pub fn new() -> (r: Self)
        ensures
            r@ =~= Map::<<K as View>::V, V>::empty(),
            r.wf(),
            r.entries@.len() == 0,
    {
        Table { entries: Vec::new() }
    }

    /// The index of the entry holding `key`, if any.
    fn find(&self, key: &K) -> (r: Option<usize>)
        ensures
            match r {
                Some(i) => i < self.entries@.len() && self.entries@[i as int].0@ == key@,
                None => forall|i: int|
                    0 <= i < self.entries@.len() ==> self.entries@[i].0@ != key@,
            },
    {
        let n = self.entries.len();
        let mut idx: usize = 0;
        while idx < n
            invariant
                n == self.entries@.len(),
                idx <= n,
                forall|i: int| 0 <= i < idx ==> self.entries@[i].0@ != key@,
            decreases n - idx,
        {
            if self.entries[idx].0.key_eq(key) {
                return Some(idx);
            }
            idx = idx + 1;
        }
        None
    }

    pub fn contains_key(&self, key: &K) -> (r: bool)
        ensures
            r == self@.contains_key(key@),
    {
        proof {
            lemma_entries_map_contains(self.entries@, key@);
        }
        match self.find(key) {
            Some(_) => true,
            None => false,
        }
    }

    pub fn get(&self, key: &K) -> (r: Option<&V>)
        requires
            self.wf(),
        ensures
            match r {
                Some(v) => self@.contains_key(key@) && *v == self@[key@],
                None => !self@.contains_key(key@),
            },
    {
        proof {
            lemma_entries_map_contains(self.entries@, key@);
        }
        match self.find(key) {
            Some(i) => {
                proof {
                    lemma_entries_map_val(self.entries@, i as int);
                }
                Some(&self.entries[i].1)
            },
            None => None,
        }
    }

    /// Adds or replaces the entry for `key`.
    pub fn insert(&mut self, key: K, value: V)
        requires
            old(self).wf(),
        ensures
            final(self).wf(),
            final(self)@ =~= old(self)@.insert(key@, value),
            final(self).entries@.len() <= old(self).entries@.len() + 1,
            old(self)@.contains_key(key@) ==> exists|i: int|
                0 <= i < old(self).entries@.len() && #[trigger] old(self).entries@[i].0@ == key@
                    && final(self).entries@ == old(self).entries@.update(i, (key, value)),
            !old(self)@.contains_key(key@) ==> final(self).entries@ == old(self).entries@.push(
                (key, value),
            ),
    {
        let ghost s0 = self.entries@;
        match self.find(&key) {
            Some(i) => {
                proof {
                    lemma_entries_map_contains(s0, key@);
                    lemma_entries_map_update(s0, i as int, (key, value));
                }
                self.entries.set(i, (key, value));
            },
            None => {
                self.entries.push((key, value));
                proof {
                    assert(self.entries@.drop_last() =~= s0);
                    lemma_entries_map_contains(s0, key@);
                    assert(forall|x: int, y: int|
                        0 <= x < y < self.entries@.len() ==> self.entries@[x].0@ != self.entries@[
                            y
                        ].0@) by {
                        assert(forall|x: int| 0 <= x < s0.len() ==> self.entries@[x] == s0[x]);
                    }
                }
            },
        }
    }

    /// Deletes the entry for `key`, if present.
    pub fn remove(&mut self, key: &K)
        requires
            old(self).wf(),
        ensures
            final(self).wf(),
            final(self)@ =~= old(self)@.remove(key@),
            final(self).entries@.len() <= old(self).entries@.len(),
    {
        let ghost s0 = self.entries@;
        match self.find(key) {
            Some(i) => {
                proof {
                    lemma_entries_map_remove(s0, i as int);
                }
                self.entries.remove(i);
            },
            None => {
                proof {
                    lemma_entries_map_contains(s0, key@);
                    assert(entries_map(s0).remove(key@) =~= entries_map(s0));
                }
            },
        }
    }

    pub fn len(&self) -> (r: usize)
        ensures
            r == self.entries@.len(),
    {
        self.entries.len()
    }

    /// Decides key uniqueness at run time, so an unverified caller can test
    /// [`Self::wf`] on a table it did not build through this interface.
    pub fn check_wf(&self) -> (r: bool)
        ensures
            r == self.wf(),
    {
        let n = self.entries.len();
        let mut i: usize = 0;
        while i < n
            invariant
                i <= n,
                n == self.entries@.len(),
                forall|x: int, y: int|
                    0 <= x < y < n && x < i ==> (#[trigger] self.entries@[x]).0@ != (
                    #[trigger] self.entries@[y]).0@,
            decreases n - i,
        {
            let mut j: usize = i + 1;
            while j < n
                invariant
                    i < j <= n,
                    n == self.entries@.len(),
                    forall|y: int|
                        i < y < j ==> (#[trigger] self.entries@[y]).0@ != self.entries@[
                            i as int
                        ].0@,
                decreases n - j,
            {
                if self.entries[i].0.key_eq(&self.entries[j].0) {
                    return false;
                }
                j = j + 1;
            }
            i = i + 1;
        }
        true
    }

    /// The entry at position `i`, in table order.
    pub fn entry_at(&self, i: usize) -> (r: &(K, V))
        requires
            i < self.entries@.len(),
        ensures
            *r == self.entries@[i as int],
    {
        &self.entries[i]
    }
}

/// Every entry of a well-formed table is its key's entry in the map view.
pub proof fn lemma_table_entry<K: TableKey, V>(t: &Table<K, V>, i: int)
    requires
        t.wf(),
        0 <= i < t.entries@.len(),
    ensures
        t@.contains_key(t.entries@[i].0@),
        t@[t.entries@[i].0@] == t.entries@[i].1,
{
    lemma_entries_map_val(t.entries@, i);
}

} // verus!
