use std::sync::Arc;

use storage::engine::StringMapEngine;
use storage::KeyValueStorage;
use storage::Storage;

#[derive(Clone, Debug, Default, Eq, PartialEq)]
struct Data {
    field: i32,
}

fn key(n: i32) -> String {
    format!("k{n}")
}

fn test_key_value_storage_range<S: KeyValueStorage<String, Data>>(s: &mut S, start: i32, end: i32) {
    // Insert in reverse order, negated
    let mut i = end - 1;
    while i >= start {
        s.insert(key(i), Arc::new(Data { field: -i }));
        i -= 1;
    }
    // Check in direct order
    assert_eq!(s.get(&key(start - 1)), None, "check in direct order");
    for i in start..end {
        let actual = s.get(&key(i));
        assert_eq!(actual, Some(Arc::new(Data { field: -i })), "check in direct order");
    }
    assert_eq!(s.get(&key(end)), None, "check in direct order");
    // Replace in direct order, doubled
    for i in start..end {
        s.insert(key(i), Arc::new(Data { field: i * 2 }));
    }
    // Remove in reverse order
    assert_eq!(s.remove(&key(end)), None, "remove in reverse order");
    let mut i = end - 1;
    while i >= start {
        let actual = s.remove(&key(i));
        assert_eq!(actual, Some(Arc::new(Data { field: i * 2 })), "remove in reverse order");
        i -= 1;
    }
    assert_eq!(s.remove(&key(start - 1)), None, "remove in reverse order");
    assert_eq!(s.get(&key(start)), None, "check after remove");
}

/// The facade's mutators take `&mut self`, so sharing one facade between
/// threads goes through a lock, as the reference engine's callers do.
struct Shared<S> {
    inner: parking_lot::RwLock<S>,
}

impl<S: KeyValueStorage<String, Data>> Shared<S> {
    fn insert(&self, key: String, value: Arc<Data>) {
        self.inner.write().insert(key, value)
    }

    fn get(&self, key: &String) -> Option<Arc<Data>> {
        self.inner.read().get(key)
    }

    fn remove(&self, key: &String) -> Option<Arc<Data>> {
        self.inner.write().remove(key)
    }
}

fn test_key_value_storage_range_shared<S: KeyValueStorage<String, Data>>(
    s: &Shared<S>,
    start: i32,
    end: i32,
) {
    // Insert in reverse order, negated
    let mut i = end - 1;
    while i >= start {
        s.insert(key(i), Arc::new(Data { field: -i }));
        i -= 1;
    }
    // Check in direct order
    assert_eq!(s.get(&key(start - 1)), None, "check in direct order");
    for i in start..end {
        let actual = s.get(&key(i));
        assert_eq!(actual, Some(Arc::new(Data { field: -i })), "check in direct order");
    }
    assert_eq!(s.get(&key(end)), None, "check in direct order");
    // Replace in direct order, doubled
    for i in start..end {
        s.insert(key(i), Arc::new(Data { field: i * 2 }));
    }
    // Remove in reverse order
    assert_eq!(s.remove(&key(end)), None, "remove in reverse order");
    let mut i = end - 1;
    while i >= start {
        let actual = s.remove(&key(i));
        assert_eq!(actual, Some(Arc::new(Data { field: i * 2 })), "remove in reverse order");
        i -= 1;
    }
    assert_eq!(s.remove(&key(start - 1)), None, "remove in reverse order");
    assert_eq!(s.get(&key(start)), None, "check after remove");
}

#[test]
fn external_concurrent() {
    let s = Shared {
        inner: parking_lot::RwLock::new(Storage::with_external(StringMapEngine::default())),
    };
    crossbeam_utils::thread::scope(|scope| {
        let even = scope.spawn(|_| {
            test_key_value_storage_range_shared(&s, 0, 200);
        });
        let odd = scope.spawn(|_| {
            test_key_value_storage_range_shared(&s, 900, 1_100);
        });
        assert!(matches!(even.join(), Ok(_)), "even");
        assert!(matches!(odd.join(), Ok(_)), "odd");
    })
    .unwrap();
}

#[test]
fn external_range() {
    let mut s = Storage::with_external(StringMapEngine::default());
    test_key_value_storage_range(&mut s, 0, 300);
}

#[test]
fn external_round_trip() {
    let mut s = Storage::with_external(StringMapEngine::default());
    s.insert(String::from("alpha"), Arc::new(Data { field: 1 }));
    assert_eq!(s.get(&String::from("alpha")), Some(Arc::new(Data { field: 1 })));
}

#[test]
fn external_overwrite() {
    let mut s = Storage::with_external(StringMapEngine::default());
    s.insert(String::from("alpha"), Arc::new(Data { field: 1 }));
    s.insert(String::from("alpha"), Arc::new(Data { field: 2 }));
    assert_eq!(s.get(&String::from("alpha")), Some(Arc::new(Data { field: 2 })));
}

#[test]
fn external_remove_once() {
    let mut s = Storage::with_external(StringMapEngine::default());
    s.insert(String::from("alpha"), Arc::new(Data { field: 1 }));
    s.insert(String::from("alpha"), Arc::new(Data { field: 2 }));
    assert_eq!(s.remove(&String::from("alpha")), Some(Arc::new(Data { field: 2 })));
    assert_eq!(s.remove(&String::from("alpha")), None);
}

#[test]
fn external_absence() {
    let mut s: Storage<StringMapEngine<Data>, _> =
        Storage::with_external(StringMapEngine::default());
    assert_eq!(s.get(&String::from("missing")), None);
    assert_eq!(s.remove(&String::from("missing")), None);
}

#[test]
fn external_values_are_copies() {
    let mut s = Storage::with_external(StringMapEngine::default());
    let original = Arc::new(Data { field: 9 });
    s.insert(String::from("alpha"), Arc::clone(&original));
    let returned = s.get(&String::from("alpha")).unwrap();
    // The external boundary copies values: equal content, distinct handles.
    assert_eq!(*returned, *original);
    assert!(!Arc::ptr_eq(&returned, &original));
}

#[test]
fn external_integer_keys() {
    let mut s = Storage::with_external(StringMapEngine::default());
    for i in -50i64..50 {
        s.insert(i, Arc::new(Data { field: i as i32 }));
    }
    for i in -50i64..50 {
        assert_eq!(s.get(&i), Some(Arc::new(Data { field: i as i32 })));
    }
    assert_eq!(s.get(&50i64), None);
    assert_eq!(s.remove(&-50i64), Some(Arc::new(Data { field: -50 })));
    assert_eq!(s.remove(&-50i64), None);
}

#[test]
fn external_empty_key() {
    let mut s = Storage::with_external(StringMapEngine::default());
    s.insert(String::new(), Arc::new(Data { field: 3 }));
    assert_eq!(s.get(&String::new()), Some(Arc::new(Data { field: 3 })));
    assert_eq!(s.remove(&String::new()), Some(Arc::new(Data { field: 3 })));
    assert_eq!(s.remove(&String::new()), None);
}

#[test]
fn external_distinct_keys_do_not_interfere() {
    let mut s = Storage::with_external(StringMapEngine::default());
    s.insert(String::from("1"), Arc::new(Data { field: 1 }));
    s.insert(String::from("-1"), Arc::new(Data { field: -1 }));
    s.insert(String::from("10"), Arc::new(Data { field: 10 }));
    assert_eq!(s.remove(&String::from("1")), Some(Arc::new(Data { field: 1 })));
    assert_eq!(s.get(&String::from("-1")), Some(Arc::new(Data { field: -1 })));
    assert_eq!(s.get(&String::from("10")), Some(Arc::new(Data { field: 10 })));
}
