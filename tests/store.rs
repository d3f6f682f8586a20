use todo_server::TodoStore;

#[test]
fn insert_then_snapshot_has_one_entry() {
    let mut store = TodoStore::new();
    let id = store.insert("buy milk".to_string());
    let snap = store.snapshot();
    assert_eq!(snap, vec![(id, "buy milk".to_string())]);
}

#[test]
fn ids_increase_regardless_of_deletions() {
    let mut store = TodoStore::new();
    assert_eq!(store.next_id(), 1);
    assert_eq!(store.insert("a".to_string()), 1);
    assert_eq!(store.insert("b".to_string()), 2);
    store.remove(1);
    assert_eq!(store.insert("c".to_string()), 3);
    let mut snap = store.snapshot();
    snap.sort();
    assert_eq!(snap, vec![(2, "b".to_string()), (3, "c".to_string())]);
    assert_eq!(store.next_id(), 4);
}

#[test]
fn removing_absent_id_changes_nothing() {
    let mut store = TodoStore::new();
    store.remove(999);
    assert!(store.snapshot().is_empty());
    assert_eq!(store.next_id(), 1);
    store.insert("x".to_string());
    store.remove(999);
    assert_eq!(store.snapshot(), vec![(1, "x".to_string())]);
    assert_eq!(store.next_id(), 2);
}

#[test]
fn removing_last_entry_keeps_counter() {
    let mut store = TodoStore::new();
    store.insert("x".to_string());
    store.remove(1);
    assert!(store.snapshot().is_empty());
    assert_eq!(store.insert("y".to_string()), 2);
}

#[test]
fn snapshot_lists_every_entry_once() {
    let mut store = TodoStore::new();
    for t in ["a", "b", "c", "d"] {
        store.insert(t.to_string());
    }
    let mut snap = store.snapshot();
    snap.sort();
    let want: Vec<(u64, String)> = vec![
        (1, "a".to_string()),
        (2, "b".to_string()),
        (3, "c".to_string()),
        (4, "d".to_string()),
    ];
    assert_eq!(snap, want);
}
