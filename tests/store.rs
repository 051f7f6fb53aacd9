use oxipaste::store::ClipboardStore;

fn entry(p: &str, m: &str) -> (Vec<u8>, String) {
    (p.as_bytes().to_vec(), m.to_string())
}

fn insert(store: &mut ClipboardStore, p: &str, m: &str) {
    store.insert_front(p.as_bytes().to_vec(), m.to_string());
}

#[test]
fn capacity_three_evicts_oldest() {
    let mut store = ClipboardStore::new(3);
    for p in ["A", "B", "C", "D"] {
        insert(&mut store, p, "text/plain");
    }
    assert_eq!(
        store.all(),
        vec![entry("D", "text/plain"), entry("C", "text/plain"), entry("B", "text/plain")]
    );
}

#[test]
fn duplicate_insert_keeps_single_entry() {
    let mut store = ClipboardStore::new(10);
    insert(&mut store, "hello", "text/plain");
    insert(&mut store, "hello", "text/plain");
    assert_eq!(store.all(), vec![entry("hello", "text/plain")]);
}

#[test]
fn duplicate_insert_is_not_promoted() {
    let mut store = ClipboardStore::new(10);
    insert(&mut store, "hello", "text/plain");
    insert(&mut store, "world", "text/plain");
    insert(&mut store, "hello", "text/html");
    assert_eq!(
        store.all(),
        vec![entry("world", "text/plain"), entry("hello", "text/plain")]
    );
}

#[test]
fn latest_of_empty_store_is_sentinel() {
    let store = ClipboardStore::new(5);
    assert_eq!(store.latest(), (Vec::new(), "Empty".to_string()));
}

#[test]
fn remove_out_of_range_is_not_found() {
    let mut store = ClipboardStore::new(5);
    insert(&mut store, "a", "text/plain");
    insert(&mut store, "b", "text/plain");
    let before = store.all();
    assert!(!store.remove_at(5));
    assert_eq!(store.all(), before);
}

#[test]
fn repeated_inserts_never_duplicate() {
    let mut store = ClipboardStore::new(4);
    for p in ["x", "y", "x", "z", "y", "w", "x", "v", "z"] {
        insert(&mut store, p, "text/plain");
        let all = store.all();
        for i in 0..all.len() {
            for j in 0..all.len() {
                if i != j {
                    assert_ne!(all[i].0, all[j].0);
                }
            }
        }
    }
}

#[test]
fn size_never_exceeds_capacity() {
    let mut store = ClipboardStore::new(2);
    for (n, p) in ["1", "2", "3", "4", "5"].iter().enumerate() {
        insert(&mut store, p, "text/plain");
        assert!(store.len() <= 2);
        assert_eq!(store.len(), std::cmp::min(n + 1, 2));
    }
}

#[test]
fn zero_capacity_holds_nothing() {
    let mut store = ClipboardStore::new(0);
    insert(&mut store, "a", "text/plain");
    assert_eq!(store.len(), 0);
    assert_eq!(store.latest(), (Vec::new(), "Empty".to_string()));
}

#[test]
fn insert_then_latest_returns_it() {
    let mut store = ClipboardStore::new(3);
    insert(&mut store, "old", "text/plain");
    store.insert_front(vec![0xff, 0x00, 0x10], "image/png".to_string());
    assert_eq!(store.latest(), (vec![0xff, 0x00, 0x10], "image/png".to_string()));
}

#[test]
fn remove_shifts_later_entries_forward() {
    let mut store = ClipboardStore::new(5);
    for p in ["e", "d", "c", "b", "a"] {
        insert(&mut store, p, "text/plain");
    }
    assert!(store.remove_at(2));
    assert_eq!(
        store.all(),
        vec![
            entry("a", "text/plain"),
            entry("b", "text/plain"),
            entry("d", "text/plain"),
            entry("e", "text/plain")
        ]
    );
    assert_eq!(store.get(2), Some(entry("d", "text/plain")));
    assert_eq!(store.get(4), None);
}

#[test]
fn clear_empties_store() {
    let mut store = ClipboardStore::new(5);
    insert(&mut store, "a", "text/plain");
    store.clear();
    assert_eq!(store.len(), 0);
    assert!(!store.contains(&b"a".to_vec()));
}
