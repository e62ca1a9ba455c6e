//! A keyed record collection: a mapping from `u64` identifiers to records,
//! supporting point lookup, insert-or-replace, delete and enumeration.
//! The collection is modelled as a `Map<u64, T>`; the enumeration order is
//! exposed as a sequence of entries with pairwise-distinct keys.
use vstd::prelude::*;

verus! {

/// The entries of a keyed store hold pairwise-distinct keys.
pub open spec fn entries_wf<T>(s: Seq<(u64, T)>) -> bool {
    forall|i: int, j: int| 0 <= i < j < s.len() ==> s[i].0 != s[j].0
}

/// The mapping described by a sequence of key-record entries; a later entry
/// for a key shadows an earlier one (with distinct keys nothing shadows).
pub open spec fn map_of<T>(s: Seq<(u64, T)>) -> Map<u64, T>
    decreases s.len(),
{
    if s.len() == 0 {
        Map::<u64, T>::empty()
    } else {
        map_of(s.drop_last()).insert(s.last().0, s.last().1)
    }
}

/// A key is in the mapping exactly when some entry carries it.
pub proof fn lemma_map_of_contains<T>(s: Seq<(u64, T)>, k: u64)
    ensures
        map_of(s).contains_key(k) <==> exists|i: int| 0 <= i < s.len() && s[i].0 == k,
    decreases s.len(),
{
    if s.len() > 0 {
        lemma_map_of_contains(s.drop_last(), k);
        if s.last().0 == k {
            assert(s[s.len() - 1].0 == k);
        } else if map_of(s).contains_key(k) {
            let i = choose|i: int| 0 <= i < s.drop_last().len() && s.drop_last()[i].0 == k;
            assert(s[i].0 == k);
        } else if exists|i: int| 0 <= i < s.len() && s[i].0 == k {
            let i = choose|i: int| 0 <= i < s.len() && s[i].0 == k;
            assert(s.drop_last()[i].0 == k);
        }
    }
}

/// A key carried by no entry is outside the mapping's domain.
pub proof fn lemma_map_of_absent<T>(s: Seq<(u64, T)>, k: u64)
    requires
        forall|i: int| 0 <= i < s.len() ==> s[i].0 != k,
    ensures
        !map_of(s).contains_key(k),
    decreases s.len(),
{
    if s.len() > 0 {
        assert forall|i: int| 0 <= i < s.drop_last().len() implies s.drop_last()[i].0 != k by {
            assert(s.drop_last()[i] == s[i]);
        }
        lemma_map_of_absent(s.drop_last(), k);
        assert(s[s.len() - 1].0 != k);
    }
}

/// With distinct keys, the mapping sends each entry's key to its record.
pub proof fn lemma_map_of_index<T>(s: Seq<(u64, T)>, i: int)
    requires
        entries_wf(s),
        0 <= i < s.len(),
    ensures
        map_of(s).contains_key(s[i].0),
        map_of(s)[s[i].0] == s[i].1,
    decreases s.len(),
{
    if i == s.len() - 1 {
    } else {
        assert(entries_wf(s.drop_last()));
        lemma_map_of_index(s.drop_last(), i);
        assert(s.drop_last()[i] == s[i]);
        assert(s[i].0 != s.last().0);
    }
}

/// Appending an entry inserts its key-record pair into the mapping.
pub proof fn lemma_map_of_push<T>(s: Seq<(u64, T)>, k: u64, v: T)
    ensures
        map_of(s.push((k, v))) == map_of(s).insert(k, v),
{
    assert(s.push((k, v)).drop_last() =~= s);
    assert(s.push((k, v)).last() == (k, v));
}

/// Removing the entry at a position removes its key from the mapping and
/// keeps the remaining keys distinct.
pub proof fn lemma_map_of_remove<T>(s: Seq<(u64, T)>, i: int)
    requires
        entries_wf(s),
        0 <= i < s.len(),
    ensures
        entries_wf(s.remove(i)),
        map_of(s.remove(i)) =~= map_of(s).remove(s[i].0),
    decreases s.len(),
{
    s.remove_ensures(i);
    assert(entries_wf(s.remove(i)));
    lemma_map_of_contains(s.drop_last(), s[i].0);
    if i == s.len() - 1 {
        assert(s.remove(i) =~= s.drop_last());
        assert(!map_of(s.drop_last()).contains_key(s[i].0));
        assert(map_of(s.drop_last()) =~= map_of(s).remove(s[i].0));
    } else {
        assert(entries_wf(s.drop_last()));
        lemma_map_of_remove(s.drop_last(), i);
        assert(s.remove(i) =~= s.drop_last().remove(i).push(s.last()));
        lemma_map_of_push(s.drop_last().remove(i), s.last().0, s.last().1);
        assert(map_of(s.remove(i)) =~= map_of(s.drop_last()).remove(s[i].0).insert(
            s.last().0,
            s.last().1,
        ));
        assert(s[i].0 != s.last().0);
    }
}

/// A keyed collection of records, one entry per identifier. Its abstract
/// value is the mapping `view()`; `entries()` additionally fixes the
/// enumeration order.
pub struct Store<T> {
    entries: Vec<(u64, T)>,
}

impl<T> View for Store<T> {
    type V = Map<u64, T>;

    closed spec fn view(&self) -> Map<u64, T> {
        map_of(self.entries@)
    }
}

impl<T> Store<T> {
    /// The enumeration order of the collection: its entries, oldest first.
    pub closed spec fn entries(&self) -> Seq<(u64, T)> {
        self.entries@
    }

    /// The keys of the entries are pairwise distinct.
    pub closed spec fn wf(&self) -> bool {
        entries_wf(self.entries@)
    }

    pub fn new() -> (s: Self)
        ensures
            s.wf(),
            s@ == Map::<u64, T>::empty(),
            s.entries() == Seq::<(u64, T)>::empty(),
    {
        Store { entries: Vec::new() }
    }

    /// The position of the entry keyed by `id`, if one exists.
    fn index_of(&self, id: u64) -> (r: Option<usize>)
        ensures
            match r {
                Some(i) => i < self.entries@.len() && self.entries@[i as int].0 == id,
                None => forall|i: int| 0 <= i < self.entries@.len() ==> self.entries@[i].0 != id,
            },
    {
        let n = self.entries.len();
        let mut i: usize = 0;
        while i < n
            invariant
                n == self.entries@.len(),
                i <= n,
                forall|j: int| 0 <= j < i ==> self.entries@[j].0 != id,
            decreases n - i,
        {
            if self.entries[i].0 == id {
                return Some(i);
            }
            i = i + 1;
        }
        None
    }

    /// Point lookup: the record at `id`, or nothing when `id` is absent.
    pub fn get(&self, id: u64) -> (r: Option<&T>)
        requires
            self.wf(),
        ensures
            match r {
                Some(t) => self@.contains_key(id) && *t == self@[id],
                None => !self@.contains_key(id),
            },
    {
        match self.index_of(id) {
            Some(i) => {
                proof {
                    lemma_map_of_index(self.entries@, i as int);
                }
                Some(&self.entries[i].1)
            },
            None => {
                proof {
                    lemma_map_of_absent(self.entries@, id);
                }
                None
            },
        }
    }

    /// Creates or fully overwrites the entry at `id`.
    pub fn insert(&mut self, id: u64, value: T)
        requires
            old(self).wf(),
        ensures
            final(self).wf(),
            final(self)@ == old(self)@.insert(id, value),
    {
        let ghost s0 = self.entries@;
        match self.index_of(id) {
            Some(i) => {
                proof {
                    lemma_map_of_remove(s0, i as int);
                }
                self.entries.remove(i);
                self.entries.push((id, value));
                proof {
                    let s1 = s0.remove(i as int);
                    lemma_map_of_push(s1, id, value);
                    s0.remove_ensures(i as int);
                    assert forall|j: int| 0 <= j < s1.len() implies s1[j].0 != id by {
                        if j < i as int {
                            assert(s1[j] == s0[j]);
                        } else {
                            assert(s1[j] == s0[j + 1]);
                        }
                    }
                    assert(entries_wf(s1.push((id, value))));
                    assert(self.entries@ == s1.push((id, value)));
                    assert(self@ =~= old(self)@.insert(id, value));
                }
            },
            None => {
                self.entries.push((id, value));
                proof {
                    lemma_map_of_push(s0, id, value);
                    assert(self.wf());
                }
            },
        }
    }

    /// Creates the entry at an `id` known to be absent, appending it to the
    /// enumeration order.
    pub fn insert_fresh(&mut self, id: u64, value: T)
        requires
            old(self).wf(),
            !old(self)@.contains_key(id),
        ensures
            final(self).wf(),
            final(self)@ == old(self)@.insert(id, value),
            final(self).entries() == old(self).entries().push((id, value)),
    {
        let ghost s0 = self.entries@;
        proof {
            assert forall|j: int| 0 <= j < s0.len() implies s0[j].0 != id by {
                if s0[j].0 == id {
                    lemma_map_of_index(s0, j);
                }
            }
        }
        self.entries.push((id, value));
        proof {
            lemma_map_of_push(s0, id, value);
            assert(self.wf());
        }
    }

    /// Deletes the entry at `id` and returns the prior record, or returns
    /// nothing and changes nothing when `id` is absent.
    pub fn remove(&mut self, id: u64) -> (r: Option<T>)
        requires
            old(self).wf(),
        ensures
            final(self).wf(),
            match r {
                Some(t) => old(self)@.contains_key(id) && t == old(self)@[id] && final(self)@
                    == old(self)@.remove(id),
                None => !old(self)@.contains_key(id) && *final(self) == *old(self),
            },
    {
        let ghost s0 = self.entries@;
        match self.index_of(id) {
            Some(i) => {
                proof {
                    lemma_map_of_index(s0, i as int);
                    lemma_map_of_remove(s0, i as int);
                }
                let entry = self.entries.remove(i);
                Some(entry.1)
            },
            None => {
                proof {
                    lemma_map_of_absent(s0, id);
                }
                None
            },
        }
    }

    /// The number of entries.
    pub fn len(&self) -> (n: usize)
        ensures
            n == self.entries().len(),
    {
        self.entries.len()
    }

    /// The entry at position `i` in enumeration order.
    pub fn entry_at(&self, i: usize) -> (e: &(u64, T))
        requires
            i < self.entries().len(),
        ensures
            *e == self.entries()[i as int],
    {
        &self.entries[i]
    }
}

} // verus!
