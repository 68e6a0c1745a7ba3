//! The two storage-engine contracts and their reference implementations.
//!
//! A local engine keeps values in process memory, keyed by a native key type
//! and handed out through shared-ownership handles. An external engine keeps
//! values behind a string-keyed boundary and passes them by value. Each
//! contract pins the engine's behavior down against a mathematical map of
//! its contents.

use std::collections::HashMap;
use std::sync::Arc;

use vstd::prelude::*;
use vstd::std_specs::hash::obeys_key_model;

verus! {

broadcast use vstd::std_specs::hash::group_hash_axioms;

/// Marker for a facade bound to a local engine.
pub struct Local;

/// Marker for a facade bound to an external engine.
pub struct External;

/// Whether cloning a value of `T` always yields a value equal to the
/// original. The external boundary stores and hands out copies of generic
/// values, so its contracts only relate those copies to the originals when
/// the value type's `Clone` keeps values intact.
pub open spec fn clone_preserves_value<T: Clone>() -> bool {
    forall|a: T, b: T| call_ensures(T::clone, (&a,), b) ==> b == a
}

/// An in-process store: values keyed by a native key type, held and handed
/// out through shared-ownership handles.
pub trait LocalEngine: Sized {
    type Key;

    type Value;

    /// The handles currently stored, as a map from key to handle.
    spec fn contents(&self) -> Map<Self::Key, Arc<Self::Value>>;

    /// What this engine needs of its type parameters for the contracts to
    /// hold; preserved by every operation.
    spec fn wf(&self) -> bool;

    /// Stores `value` under `key`, replacing any prior value for that key.
    fn insert(&mut self, key: Self::Key, value: Arc<Self::Value>)
        requires
            old(self).wf(),
        ensures
            final(self).wf(),
            final(self).contents() == old(self).contents().insert(key, value),
    ;

    /// Returns a handle to the value stored under `key`, if any, without
    /// removing it.
    fn get(&self, key: &Self::Key) -> (r: Option<Arc<Self::Value>>)
        requires
            self.wf(),
        ensures
            match r {
                Some(v) => self.contents().contains_key(*key) && v == self.contents()[*key],
                None => !self.contents().contains_key(*key),
            },
    ;

    /// Removes and returns the handle stored under `key`, if any.
    fn remove(&mut self, key: &Self::Key) -> (r: Option<Arc<Self::Value>>)
        requires
            old(self).wf(),
        ensures
            final(self).wf(),
            final(self).contents() == old(self).contents().remove(*key),
            match r {
                Some(v) => old(self).contents().contains_key(*key) && v == old(
                    self,
                ).contents()[*key],
                None => !old(self).contents().contains_key(*key),
            },
    ;
}

/// A store behind a string-keyed boundary: values cross it by value, so the
/// engine's representation is independent of the caller's.
pub trait ExternalEngine: Sized {
    type Value;

    /// The values currently stored, as a map from canonical key to value.
    spec fn contents(&self) -> Map<Seq<char>, Self::Value>;

    /// What this engine needs of its type parameters for the contracts to
    /// hold; preserved by every operation.
    spec fn wf(&self) -> bool;

    /// Stores a copy of `value` under `key`, replacing any prior value for
    /// that key.
    fn insert(&mut self, key: &str, value: &Self::Value)
        requires
            old(self).wf(),
        ensures
            final(self).wf(),
            final(self).contents() == old(self).contents().insert(key@, *value),
    ;

    /// Returns a copy of the value stored under `key`, if any, without
    /// removing it.
    fn get(&self, key: &str) -> (r: Option<Self::Value>)
        requires
            self.wf(),
        ensures
            match r {
                Some(v) => self.contents().contains_key(key@) && v == self.contents()[key@],
                None => !self.contents().contains_key(key@),
            },
    ;

    /// Removes and returns the value stored under `key`, if any.
    fn remove(&mut self, key: &str) -> (r: Option<Self::Value>)
        requires
            old(self).wf(),
        ensures
            final(self).wf(),
            final(self).contents() == old(self).contents().remove(key@),
            match r {
                Some(v) => old(self).contents().contains_key(key@) && v == old(
                    self,
                ).contents()[key@],
                None => !old(self).contents().contains_key(key@),
            },
    ;
}

/// Relies on std's `Arc::clone`: the returned handle refers to the same
/// value as the argument.
#[verifier::external_body]
fn clone_handle<T>(a: &Arc<T>) -> (r: Arc<T>)
    ensures
        r == *a,
{
    Arc::clone(a)
}

/// The reference local engine: a hash table from keys to shared-ownership
/// handles.
pub struct HashMapEngine<K, V> {
    inner: HashMap<K, Arc<V>>,
}

impl<K: Eq + std::hash::Hash, V> HashMapEngine<K, V> {
    /// Creates an empty engine.
    pub fn new() -> (r: Self)
        ensures
            r.contents() == Map::<K, Arc<V>>::empty(),
            r.wf() == obeys_key_model::<K>(),
    {
        HashMapEngine { inner: HashMap::new() }
    }
}

impl<K: Eq + std::hash::Hash, V> Default for HashMapEngine<K, V> {
    /// Creates an empty engine.
    fn default() -> (r: Self)
        ensures
            r.contents() == Map::<K, Arc<V>>::empty(),
            r.wf() == obeys_key_model::<K>(),
    {
        HashMapEngine { inner: HashMap::new() }
    }
}

impl<K: Eq + std::hash::Hash, V> LocalEngine for HashMapEngine<K, V> {
    type Key = K;

    type Value = V;

    closed spec fn contents(&self) -> Map<K, Arc<V>> {
        self.inner@
    }

    closed spec fn wf(&self) -> bool {
        obeys_key_model::<K>()
    }

    fn insert(&mut self, key: K, value: Arc<V>) {
        self.inner.insert(key, value);
    }

    fn get(&self, key: &K) -> (r: Option<Arc<V>>) {
        match self.inner.get(key) {
            Some(v) => Some(clone_handle(v)),
            None => None,
        }
    }

    fn remove(&mut self, key: &K) -> (r: Option<Arc<V>>) {
        self.inner.remove(key)
    }
}

/// The canonical-key view of a list of stored entries, later entries
/// shadowing earlier ones.
pub open spec fn entries_view<V>(s: Seq<(String, V)>) -> Map<Seq<char>, V>
    decreases s.len(),
{
    if s.len() == 0 {
        Map::empty()
    } else {
        entries_view(s.drop_last()).insert(s.last().0@, s.last().1)
    }
}

/// Whether the entries' canonical keys are pairwise distinct.
pub open spec fn entry_keys_distinct<V>(s: Seq<(String, V)>) -> bool {
    forall|i: int, j: int| 0 <= i < j < s.len() ==> s[i].0@ != s[j].0@
}

proof fn lemma_entries_view_absent<V>(s: Seq<(String, V)>, t: Seq<char>)
    requires
        forall|i: int| 0 <= i < s.len() ==> s[i].0@ != t,
    ensures
        !entries_view(s).contains_key(t),
    decreases s.len(),
{
    if s.len() > 0 {
        lemma_entries_view_absent(s.drop_last(), t);
    }
}

proof fn lemma_entries_view_index<V>(s: Seq<(String, V)>, i: int)
    requires
        entry_keys_distinct(s),
        0 <= i < s.len(),
    ensures
        entries_view(s).contains_key(s[i].0@),
        entries_view(s)[s[i].0@] == s[i].1,
    decreases s.len(),
{
    if i < s.len() - 1 {
        lemma_entries_view_index(s.drop_last(), i);
        assert(s.drop_last()[i] == s[i]);
        assert(s[i].0@ != s.last().0@);
    }
}

proof fn lemma_entries_view_remove<V>(s: Seq<(String, V)>, i: int)
    requires
        entry_keys_distinct(s),
        0 <= i < s.len(),
    ensures
        entries_view(s.remove(i)) == entries_view(s).remove(s[i].0@),
    decreases s.len(),
{
    let dl = s.drop_last();
    if i == s.len() - 1 {
        assert(s.remove(i) =~= dl);
        assert(forall|j: int| 0 <= j < dl.len() ==> dl[j].0@ != s[i].0@);
        lemma_entries_view_absent(dl, s[i].0@);
        assert(entries_view(dl).insert(s.last().0@, s.last().1).remove(s[i].0@) =~= entries_view(
            dl,
        ));
    } else {
        assert(entry_keys_distinct(dl));
        lemma_entries_view_remove(dl, i);
        assert(s.remove(i).drop_last() =~= dl.remove(i));
        assert(s.remove(i).last() == s.last());
        assert(s.remove(i).len() == s.len() - 1);
        assert(entries_view(s.remove(i)) == entries_view(dl.remove(i)).insert(
            s.last().0@,
            s.last().1,
        ));
        assert(s[i].0@ != s.last().0@);
        assert(entries_view(dl).remove(s[i].0@).insert(s.last().0@, s.last().1) =~= entries_view(
            dl,
        ).insert(s.last().0@, s.last().1).remove(s[i].0@));
    }
}

/// A reference external engine: an in-process table from canonical strings
/// to values, storing and returning copies. It doubles as the stand-in for
/// a remote store in tests.
pub struct StringMapEngine<V> {
    inner: Vec<(String, V)>,
}

impl<V: Clone> StringMapEngine<V> {
    /// Creates an empty engine.
    pub fn new() -> (r: Self)
        ensures
            r.contents() == Map::<Seq<char>, V>::empty(),
            r.wf() == clone_preserves_value::<V>(),
    {
        StringMapEngine { inner: Vec::new() }
    }

    /// The index of the entry stored under `key`, if any.
    fn find(&self, key: &str) -> (r: Option<usize>)
        ensures
            match r {
                Some(i) => i < self.inner@.len() && self.inner@[i as int].0@ == key@,
                None => forall|i: int| 0 <= i < self.inner@.len() ==> self.inner@[i].0@ != key@,
            },
    {
        let owned: String = key.to_owned();
        let n = self.inner.len();
        let mut i: usize = 0;
        while i < n
            invariant
                n == self.inner@.len(),
                i <= n,
                owned@ == key@,
                forall|j: int| 0 <= j < i ==> self.inner@[j].0@ != key@,
            decreases n - i,
        {
            if self.inner[i].0 == owned {
                return Some(i);
            }
            i += 1;
        }
        None
    }
}

impl<V: Clone> Default for StringMapEngine<V> {
    /// Creates an empty engine.
    fn default() -> (r: Self)
        ensures
            r.contents() == Map::<Seq<char>, V>::empty(),
            r.wf() == clone_preserves_value::<V>(),
    {
        StringMapEngine { inner: Vec::new() }
    }
}

impl<V: Clone> ExternalEngine for StringMapEngine<V> {
    type Value = V;

    closed spec fn contents(&self) -> Map<Seq<char>, V> {
        entries_view(self.inner@)
    }

    closed spec fn wf(&self) -> bool {
        entry_keys_distinct(self.inner@) && clone_preserves_value::<V>()
    }

    fn insert(&mut self, key: &str, value: &V) {
        let ghost pre = self.inner@;
        match self.find(key) {
            Some(i) => {
                proof {
                    lemma_entries_view_remove(pre, i as int);
                    assert forall|j: int| 0 <= j < pre.remove(i as int).len() implies pre.remove(
                        i as int,
                    )[j].0@ != key@ by {
                        if j < i {
                            assert(pre.remove(i as int)[j] == pre[j]);
                        } else {
                            assert(pre.remove(i as int)[j] == pre[j + 1]);
                        }
                    }
                }
                self.inner.remove(i);
            },
            None => {},
        }
        let ghost mid = self.inner@;
        let owned: String = key.to_owned();
        let copy: V = value.clone();
        proof {
            assert(copy == *value);
        }
        self.inner.push((owned, copy));
        proof {
            assert(self.inner@.drop_last() =~= mid);
            assert(entries_view(self.inner@) == entries_view(mid).insert(key@, *value));
            assert(entries_view(mid).insert(key@, *value) =~= entries_view(pre).insert(
                key@,
                *value,
            ));
            assert forall|i: int, j: int|
                0 <= i < j < self.inner@.len() implies self.inner@[i].0@
                != self.inner@[j].0@ by {
                if j < self.inner@.len() - 1 {
                    assert(self.inner@[i] == mid[i] && self.inner@[j] == mid[j]);
                } else {
                    assert(self.inner@[i] == mid[i] && mid[i].0@ != key@);
                }
            }
        }
    }

    fn get(&self, key: &str) -> (r: Option<V>) {
        match self.find(key) {
            Some(i) => {
                proof {
                    lemma_entries_view_index(self.inner@, i as int);
                }
                let copy: V = self.inner[i].1.clone();
                proof {
                    assert(copy == self.inner@[i as int].1);
                }
                Some(copy)
            },
            None => {
                proof {
                    lemma_entries_view_absent(self.inner@, key@);
                }
                None
            },
        }
    }

    fn remove(&mut self, key: &str) -> (r: Option<V>) {
        let ghost pre = self.inner@;
        match self.find(key) {
            Some(i) => {
                proof {
                    lemma_entries_view_index(pre, i as int);
                    lemma_entries_view_remove(pre, i as int);
                    assert forall|a: int, b: int|
                        0 <= a < b < pre.remove(i as int).len() implies pre.remove(i as int)[a].0@
                        != pre.remove(i as int)[b].0@ by {
                        assert(pre.remove(i as int)[a] == (if a < i {
                            pre[a]
                        } else {
                            pre[a + 1]
                        }));
                        assert(pre.remove(i as int)[b] == (if b < i {
                            pre[b]
                        } else {
                            pre[b + 1]
                        }));
                    }
                }
                let entry = self.inner.remove(i);
                Some(entry.1)
            },
            None => {
                proof {
                    lemma_entries_view_absent(pre, key@);
                    assert(entries_view(pre).remove(key@) =~= entries_view(pre));
                }
                None
            },
        }
    }
}

} // verus!
