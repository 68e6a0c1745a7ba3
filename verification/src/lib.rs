//! A uniform key-value storage abstraction over interchangeable backends.
//!
//! A [`Storage`] facade is bound, once and for all at construction, to one
//! engine: either a [`engine::LocalEngine`] (an in-process store keyed by a
//! native key type, values shared by reference) or an
//! [`engine::ExternalEngine`] (a string-keyed store, values passed by
//! value). Callers program against the single [`KeyValueStorage`] interface;
//! the facade translates each call into the engine's native operation,
//! canonicalizing keys via [`key::ExternalKey`] only on the external path.

use std::sync::Arc;

use vstd::prelude::*;

use crate::engine::{External, ExternalEngine, Local, LocalEngine};
use crate::key::ExternalKey;

pub mod engine;
pub mod key;

verus! {

/// The single interface callers program against, independent of backend.
///
/// Each backend resolves a key to a slot of its own: a local backend by the
/// key itself, an external backend by the key's canonical string. `key_eq`
/// names that resolution, and every operation is specified against the
/// mathematical `lookup` of the bound engine's contents. Two distinct keys
/// with one canonical string therefore share a slot — the documented
/// consequence of a canonicalization that violates its injectivity
/// obligation.
pub trait KeyValueStorage<K, V>: Sized {
    /// Whether two keys reach the same slot of the backend.
    spec fn key_eq(k1: K, k2: K) -> bool;

    /// The value stored for `key`, if any.
    spec fn lookup(&self, key: K) -> Option<V>;

    /// What the facade needs of its engine and type parameters for the
    /// contracts to hold; preserved by every operation.
    spec fn wf(&self) -> bool;

    /// Every key reaches its own slot.
    proof fn lemma_key_eq_refl(k: K)
        ensures
            Self::key_eq(k, k),
    ;

    /// Stores `value` under `key`, replacing any prior value for that key:
    /// the key's slot holds the value, every other slot is untouched.
    fn insert(&mut self, key: K, value: Arc<V>)
        requires
            old(self).wf(),
        ensures
            final(self).wf(),
            forall|k: K| #[trigger] final(self).lookup(k) == (if Self::key_eq(k, key) {
                Some(*value)
            } else {
                old(self).lookup(k)
            }),
    ;

    /// Returns a handle to the value stored for `key`, if any, without
    /// removing it.
    fn get(&self, key: &K) -> (r: Option<Arc<V>>)
        requires
            self.wf(),
        ensures
            match r {
                Some(v) => self.lookup(*key) == Some(*v),
                None => self.lookup(*key) is None,
            },
    ;

    /// Removes and returns the value stored for `key`, if any: the key's
    /// slot is emptied, every other slot is untouched.
    fn remove(&mut self, key: &K) -> (r: Option<Arc<V>>)
        requires
            old(self).wf(),
        ensures
            final(self).wf(),
            handle_value(r) == old(self).lookup(*key),
            forall|k: K| #[trigger] final(self).lookup(k) == (if Self::key_eq(k, *key) {
                None::<V>
            } else {
                old(self).lookup(k)
            }),
    ;
}

/// The plain value inside an optional shared-ownership handle.
pub open spec fn handle_value<V>(r: Option<Arc<V>>) -> Option<V> {
    match r {
        Some(a) => Some(*a),
        None => None,
    }
}

/// How an insert of `value` under `key` changes a store: the key's slot
/// holds `value`, every other slot is untouched.
pub open spec fn inserted<K, V, S: KeyValueStorage<K, V>>(
    pre: S,
    post: S,
    key: K,
    value: V,
) -> bool {
    forall|k: K| #[trigger] post.lookup(k) == (if S::key_eq(k, key) {
        Some(value)
    } else {
        pre.lookup(k)
    })
}

/// How a remove of `key` changes a store: it returns what the key's slot
/// held, the slot is emptied, every other slot is untouched.
pub open spec fn removed<K, V, S: KeyValueStorage<K, V>>(
    pre: S,
    post: S,
    key: K,
    r: Option<V>,
) -> bool {
    &&& r == pre.lookup(key)
    &&& forall|k: K| #[trigger] post.lookup(k) == (if S::key_eq(k, key) {
        None::<V>
    } else {
        pre.lookup(k)
    })
}

/// Round-trip: after an insert of `value` under `key`, a lookup of `key`
/// yields `value`.
pub proof fn lemma_round_trip<K, V, S: KeyValueStorage<K, V>>(pre: S, post: S, key: K, value: V)
    requires
        inserted(pre, post, key, value),
    ensures
        post.lookup(key) == Some(value),
{
    S::lemma_key_eq_refl(key);
}

/// Overwrite: inserting `v2` under a key already holding `v1` makes lookups
/// yield `v2`, never `v1`.
pub proof fn lemma_overwrite<K, V, S: KeyValueStorage<K, V>>(
    s0: S,
    s1: S,
    s2: S,
    key: K,
    v1: V,
    v2: V,
)
    requires
        inserted(s0, s1, key, v1),
        inserted(s1, s2, key, v2),
    ensures
        s2.lookup(key) == Some(v2),
        v1 != v2 ==> s2.lookup(key) != Some(v1),
{
    S::lemma_key_eq_refl(key);
}

/// Remove-once: a remove after an insert of `value` under `key` returns
/// exactly `value` and empties the slot, so a second remove returns nothing.
pub proof fn lemma_remove_once<K, V, S: KeyValueStorage<K, V>>(
    s0: S,
    s1: S,
    s2: S,
    s3: S,
    key: K,
    value: V,
    r1: Option<V>,
    r2: Option<V>,
)
    requires
        inserted(s0, s1, key, value),
        removed(s1, s2, key, r1),
        removed(s2, s3, key, r2),
    ensures
        r1 == Some(value),
        s2.lookup(key) is None,
        r2 is None,
{
    S::lemma_key_eq_refl(key);
}

/// Absence: removing a key whose slot is empty returns nothing and leaves
/// the slot empty.
pub proof fn lemma_absent<K, V, S: KeyValueStorage<K, V>>(pre: S, post: S, key: K, r: Option<V>)
    requires
        pre.lookup(key) is None,
        removed(pre, post, key, r),
    ensures
        r is None,
        post.lookup(key) is None,
{
    S::lemma_key_eq_refl(key);
}

/// How one insert or remove under `key` relates two states of a store,
/// whatever it inserted or returned.
pub open spec fn touches_only<K, V, S: KeyValueStorage<K, V>>(pre: S, post: S, key: K) -> bool {
    ||| exists|value: V| inserted(pre, post, key, value)
    ||| removed(pre, post, key, pre.lookup(key))
}

/// Any number of inserts and removes under keys that all resolve away from
/// `k` leaves the slot of `k` exactly as it was: the per-key independence
/// that lets callers working on disjoint key ranges share one facade
/// without disturbing each other's entries.
pub proof fn lemma_disjoint_ops_preserve_slot<K, V, S: KeyValueStorage<K, V>>(
    states: Seq<S>,
    keys: Seq<K>,
    k: K,
)
    requires
        states.len() == keys.len() + 1,
        forall|i: int| 0 <= i < keys.len() ==> touches_only(states[i], states[i + 1], keys[i]),
        forall|i: int| 0 <= i < keys.len() ==> !S::key_eq(k, keys[i]),
    ensures
        states.last().lookup(k) == states[0].lookup(k),
    decreases keys.len(),
{
    if keys.len() > 0 {
        let n = keys.len() as int;
        lemma_disjoint_ops_preserve_slot(states.drop_last(), keys.drop_last(), k);
        assert(states.drop_last().last() == states[n - 1]);
        assert(touches_only(states[n - 1], states[n], keys[n - 1]));
    }
}

/// The storage facade: owns one engine exclusively, chosen at construction,
/// and exposes the unified interface over it.
pub struct Storage<Engine, EngineKind> {
    engine: Engine,
    _marker: EngineKind,
}

impl<Engine, K, V> Storage<Engine, Local> where Engine: LocalEngine<Key = K, Value = V> {
    /// Binds a local engine; every subsequent call takes the native-key
    /// path, with no string conversion.
    pub fn with_local(engine: Engine) -> (r: Self)
        ensures
            r.wf() == engine.wf(),
            forall|k: K| #[trigger] r.lookup(k) == (if engine.contents().contains_key(k) {
                Some(*engine.contents()[k])
            } else {
                None::<V>
            }),
    {
        Storage { engine, _marker: Local }
    }
}

impl<Engine, V> Storage<Engine, External> where Engine: ExternalEngine<Value = V> {
    /// Binds an external engine; every subsequent call canonicalizes its
    /// key and takes the string-keyed path.
    pub fn with_external(engine: Engine) -> (r: Self)
        ensures
            r.engine_wf() == engine.wf(),
            forall|s: Seq<char>| #[trigger] r.engine_contents().contains_key(s)
                == engine.contents().contains_key(s),
            forall|s: Seq<char>| engine.contents().contains_key(s) ==> #[trigger] r.engine_contents()[s]
                == engine.contents()[s],
    {
        Storage { engine, _marker: External }
    }
}

impl<Engine, V> Storage<Engine, External> where Engine: ExternalEngine<Value = V> {
    /// Whether the bound external engine's own contract holds.
    pub closed spec fn engine_wf(&self) -> bool {
        self.engine.wf()
    }

    /// The bound external engine's contents, by canonical key.
    pub closed spec fn engine_contents(&self) -> Map<Seq<char>, V> {
        self.engine.contents()
    }
}

impl<K, V, Engine> KeyValueStorage<K, V> for Storage<Engine, Local> where
    Engine: LocalEngine<Key = K, Value = V>,
 {
    open spec fn key_eq(k1: K, k2: K) -> bool {
        k1 == k2
    }

    closed spec fn lookup(&self, key: K) -> Option<V> {
        if self.engine.contents().contains_key(key) {
            Some(*self.engine.contents()[key])
        } else {
            None
        }
    }

    closed spec fn wf(&self) -> bool {
        self.engine.wf()
    }

    proof fn lemma_key_eq_refl(k: K) {
    }

    fn insert(&mut self, key: K, value: Arc<V>) {
        self.engine.insert(key, value);
    }

    fn get(&self, key: &K) -> (r: Option<Arc<V>>) {
        self.engine.get(key)
    }

    fn remove(&mut self, key: &K) -> (r: Option<Arc<V>>) {
        self.engine.remove(key)
    }
}

impl<K, V, Engine> KeyValueStorage<K, V> for Storage<Engine, External> where
    Engine: ExternalEngine<Value = V>,
    K: ExternalKey,
 {
    open spec fn key_eq(k1: K, k2: K) -> bool {
        k1.spec_key() == k2.spec_key()
    }

    closed spec fn lookup(&self, key: K) -> Option<V> {
        if self.engine.contents().contains_key(key.spec_key()) {
            Some(self.engine.contents()[key.spec_key()])
        } else {
            None
        }
    }

    closed spec fn wf(&self) -> bool {
        self.engine.wf()
    }

    proof fn lemma_key_eq_refl(k: K) {
    }

    fn insert(&mut self, key: K, value: Arc<V>) {
        let ck = key.external_key();
        self.engine.insert(ck.as_str(), &*value);
    }

    fn get(&self, key: &K) -> (r: Option<Arc<V>>) {
        let ck = key.external_key();
        match self.engine.get(ck.as_str()) {
            Some(v) => Some(Arc::new(v)),
            None => None,
        }
    }

    fn remove(&mut self, key: &K) -> (r: Option<Arc<V>>) {
        let ck = key.external_key();
        match self.engine.remove(ck.as_str()) {
            Some(v) => Some(Arc::new(v)),
            None => None,
        }
    }
}

} // verus!
