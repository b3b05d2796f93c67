//! The key-value table behind the server. It is abstracted as a map from
//! key characters to the mathematical view of the stored value, and keeps
//! the invariant that no two entries share a key.

use vstd::prelude::*;

use crate::models::value::StoreValue;
use crate::utils::text::str_eq;

verus! {

/// A table of entries keyed by strings, viewed as a map.
pub struct Table<T> {
    entries: Vec<(String, T)>,
}

/// The map that an entry list stands for.
pub open spec fn spec_table_view<T: DeepView>(s: Seq<(String, T)>) -> Map<Seq<char>, T::V>
    decreases s.len(),
{
    if s.len() == 0 {
        Map::empty()
    } else {
        spec_table_view(s.drop_last()).insert(s.last().0@, s.last().1.deep_view())
    }
}

/// No two entries share a key.
spec fn table_wf<T>(s: Seq<(String, T)>) -> bool {
    forall|i: int, j: int|
        0 <= i < j < s.len() ==> (#[trigger] s[i]).0@ != (#[trigger] s[j]).0@
}

impl<T> Table<T> {
    #[verifier::type_invariant]
    spec fn wf(self) -> bool {
        table_wf(self.entries@)
    }
}

impl<T: DeepView> View for Table<T> {
    type V = Map<Seq<char>, T::V>;

    closed spec fn view(&self) -> Map<Seq<char>, T::V> {
        spec_table_view(self.entries@)
    }
}

/// A key is in the map exactly when some entry holds it.
proof fn lemma_table_view_contains<T: DeepView>(s: Seq<(String, T)>, k: Seq<char>)
    ensures
        spec_table_view(s).contains_key(k) <==> exists|i: int|
            0 <= i < s.len() && (#[trigger] s[i]).0@ == k,
    decreases s.len(),
{
    if s.len() > 0 {
        lemma_table_view_contains(s.drop_last(), k);
        assert(forall|i: int| 0 <= i < s.len() - 1 ==> s.drop_last()[i] == #[trigger] s[i]);
        if s.last().0@ == k {
            assert((s[s.len() - 1]).0@ == k);
        } else if spec_table_view(s).contains_key(k) {
            let i = choose|i: int| 0 <= i < s.len() - 1 && (#[trigger] s.drop_last()[i]).0@ == k;
            assert((s[i]).0@ == k);
        }
    }
}

/// Under the key invariant, the map sends an entry's key to that entry's
/// value.
proof fn lemma_table_view_match<T: DeepView>(s: Seq<(String, T)>, i: int)
    requires
        table_wf(s),
        0 <= i < s.len(),
    ensures
        spec_table_view(s).contains_key(s[i].0@),
        spec_table_view(s)[s[i].0@] == s[i].1.deep_view(),
    decreases s.len(),
{
    assert(forall|k: int| 0 <= k < s.len() - 1 ==> s.drop_last()[k] == #[trigger] s[k]);
    if i < s.len() - 1 {
        assert(table_wf(s.drop_last()));
        lemma_table_view_match(s.drop_last(), i);
        assert(s.last().0@ != s[i].0@);
    }
}

/// Replacing the entry that holds a key matches inserting into the map.
proof fn lemma_table_view_update<T: DeepView>(s: Seq<(String, T)>, i: int, e: (String, T))
    requires
        table_wf(s),
        0 <= i < s.len(),
        e.0@ == s[i].0@,
    ensures
        spec_table_view(s.update(i, e)) == spec_table_view(s).insert(e.0@, e.1.deep_view()),
    decreases s.len(),
{
    let t = s.update(i, e);
    assert(forall|k: int| 0 <= k < s.len() - 1 ==> s.drop_last()[k] == #[trigger] s[k]);
    if i == s.len() - 1 {
        assert(t.drop_last() =~= s.drop_last());
        assert(t.last() == e);
        assert(spec_table_view(t) =~= spec_table_view(s).insert(e.0@, e.1.deep_view()));
    } else {
        assert(t.drop_last() =~= s.drop_last().update(i, e));
        assert(t.last() == s.last());
        assert(table_wf(s.drop_last()));
        lemma_table_view_update(s.drop_last(), i, e);
        assert(s.last().0@ != s[i].0@);
        assert(spec_table_view(t) =~= spec_table_view(s).insert(e.0@, e.1.deep_view()));
    }
}

/// Removing the entry that holds a key matches removing from the map.
proof fn lemma_table_view_remove<T: DeepView>(s: Seq<(String, T)>, i: int)
    requires
        table_wf(s),
        0 <= i < s.len(),
    ensures
        spec_table_view(s.remove(i)) == spec_table_view(s).remove(s[i].0@),
    decreases s.len(),
{
    let t = s.remove(i);
    let k = s[i].0@;
    assert(forall|m: int| 0 <= m < s.len() - 1 ==> s.drop_last()[m] == #[trigger] s[m]);
    if i == s.len() - 1 {
        assert(t =~= s.drop_last());
        lemma_table_view_contains(s.drop_last(), k);
        assert(spec_table_view(s.drop_last()).remove(k) =~= spec_table_view(s.drop_last()));
        assert(spec_table_view(t) =~= spec_table_view(s).remove(k));
    } else {
        assert(t.drop_last() =~= s.drop_last().remove(i));
        assert(t.last() == s.last());
        assert(table_wf(s.drop_last()));
        lemma_table_view_remove(s.drop_last(), i);
        assert(s.last().0@ != k);
        assert(spec_table_view(t) =~= spec_table_view(s).remove(k));
    }
}

impl<T: DeepView> Table<T> {
    /// An empty table.
    pub fn new() -> (r: Self)
        ensures
            r@ == Map::<Seq<char>, T::V>::empty(),
    {
        let r = Table { entries: Vec::new() };
        proof {
            assert(r@ =~= Map::<Seq<char>, T::V>::empty());
        }
        r
    }

    /// The index of the entry holding `key`, if any.
    fn find(&self, key: &str) -> (r: Option<usize>)
        ensures
            match r {
                Some(i) => i < self.entries@.len() && self.entries@[i as int].0@ == key@,
                None => forall|i: int|
                    0 <= i < self.entries@.len() ==> (#[trigger] self.entries@[i]).0@ != key@,
            },
    {
        let mut i: usize = 0;
        while i < self.entries.len()
            invariant
                i <= self.entries@.len(),
                forall|k: int| 0 <= k < i ==> (#[trigger] self.entries@[k]).0@ != key@,
            decreases self.entries@.len() - i,
        {
            if str_eq(self.entries[i].0.as_str(), key) {
                return Some(i);
            }
            i += 1;
        }
        None
    }

    /// Looks `key` up without changing anything: the entry it maps to, if
    /// the key is bound.
    pub fn get(&self, key: &str) -> (r: Option<&T>)
        ensures
            match r {
                Some(v) => self@.contains_key(key@) && v.deep_view() == self@[key@],
                None => !self@.contains_key(key@),
            },
    {
        proof {
            use_type_invariant(&*self);
        }
        match self.find(key) {
            Some(i) => {
                proof {
                    lemma_table_view_match::<T>(self.entries@, i as int);
                }
                Some(&self.entries[i].1)
            },
            None => {
                proof {
                    lemma_table_view_contains::<T>(self.entries@, key@);
                }
                None
            },
        }
    }

    /// Binds `key` to `value`, overwriting any previous entry without
    /// reservation.
    pub fn insert(&mut self, key: String, value: T)
        ensures
            final(self)@ == old(self)@.insert(key@, value.deep_view()),
    {
        proof {
            use_type_invariant(&*self);
        }
        let found = self.find(key.as_str());
        let mut tmp: Vec<(String, T)> = Vec::new();
        core::mem::swap(&mut tmp, &mut self.entries);
        let ghost s0 = tmp@;
        match found {
            Some(i) => {
                proof {
                    lemma_table_view_update::<T>(s0, i as int, (key, value));
                }
                tmp[i] = (key, value);
                proof {
                    assert(table_wf(tmp@)) by {
                        assert(forall|m: int|
                            0 <= m < s0.len() && m != i ==> tmp@[m] == #[trigger] s0[m]);
                    }
                }
            },
            None => {
                tmp.push((key, value));
                proof {
                    assert(table_wf(tmp@)) by {
                        assert(forall|m: int| 0 <= m < s0.len() ==> tmp@[m] == #[trigger] s0[m]);
                    }
                    assert(tmp@.drop_last() =~= s0);
                    assert(spec_table_view(tmp@) =~= spec_table_view(s0).insert(
                        tmp@.last().0@,
                        tmp@.last().1.deep_view(),
                    ));
                }
            },
        }
        self.entries = tmp;
    }

    /// Unbinds `key`; nothing happens if it is not bound.
    pub fn remove(&mut self, key: &str)
        ensures
            final(self)@ == old(self)@.remove(key@),
    {
        proof {
            use_type_invariant(&*self);
        }
        let found = self.find(key);
        match found {
            Some(i) => {
                let mut tmp: Vec<(String, T)> = Vec::new();
                core::mem::swap(&mut tmp, &mut self.entries);
                let ghost s0 = tmp@;
                proof {
                    lemma_table_view_remove::<T>(s0, i as int);
                }
                tmp.remove(i);
                proof {
                    assert(forall|m: int| 0 <= m < i ==> tmp@[m] == #[trigger] s0[m]);
                    assert(forall|m: int|
                        i <= m < tmp@.len() ==> tmp@[m] == #[trigger] s0[m + 1]);
                    assert forall|a: int, b: int| 0 <= a < b < tmp@.len() implies (#[trigger] tmp@[a]).0@
                        != (#[trigger] tmp@[b]).0@ by {
                        let a2: int = if a < i {
                            a
                        } else {
                            a + 1
                        };
                        let b2: int = if b < i {
                            b
                        } else {
                            b + 1
                        };
                        assert(tmp@[a] == s0[a2]);
                        assert(tmp@[b] == s0[b2]);
                        assert(s0[a2].0@ != s0[b2].0@);
                    }
                    assert(table_wf(tmp@));
                }
                self.entries = tmp;
            },
            None => {
                proof {
                    lemma_table_view_contains::<T>(self.entries@, key@);
                    assert(self@.remove(key@) =~= self@);
                }
            },
        }
    }
}

/// The table of stored entries shared by all connections.
pub type Store = Table<StoreValue>;

/// An empty store.
pub fn create_store() -> (r: Store)
    ensures
        r@ == Map::<Seq<char>, crate::models::value::EntryVal>::empty(),
{
    Table::new()
}

} // verus!
