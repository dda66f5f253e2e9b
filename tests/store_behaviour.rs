use kvpublish::error::{handle_err, AddError, StorageFailure};
use kvpublish::gateway::{needs_eviction, payload_fits, Model};
use kvpublish::steps::{
    after_count, after_delete, after_evict, after_insert, read_outcome, start_add, AddAction,
};
use kvpublish::store::EntryStore;
use kvpublish::volatile::VolatileStore;

fn model() -> Model {
    Model::new(EntryStore::new())
}

#[test]
fn end_to_end_scenario() {
    let mut m = model();
    assert_eq!(m.add("a".to_string(), "1".to_string()), Ok(()));
    assert_eq!(m.get("a"), Some("1".to_string()));
    assert_eq!(m.add("a".to_string(), "2".to_string()), Ok(()));
    assert_eq!(m.get("a"), Some("2".to_string()));
    assert_eq!(m.get("b"), None);
    assert_eq!(
        m.add("b".to_string(), "x".repeat(4000)),
        Err(AddError::PayloadTooLarge)
    );
    assert_eq!(m.get("b"), None);
}

#[test]
fn last_write_wins() {
    let mut m = model();
    m.add("k".to_string(), "first".to_string()).unwrap();
    m.add("k".to_string(), "second".to_string()).unwrap();
    assert_eq!(m.get("k"), Some("second".to_string()));
}

#[test]
fn replaced_key_leaves_one_entry() {
    let mut store = EntryStore::new();
    store.insert("k".to_string(), "1".to_string()).unwrap();
    let mut m = Model::new(store);
    m.add("k".to_string(), "2".to_string()).unwrap();
    m.add("k".to_string(), "3".to_string()).unwrap();
    assert_eq!(m.get("k"), Some("3".to_string()));
}

#[test]
fn oversized_key_is_refused_and_store_unchanged() {
    let mut m = model();
    m.add("a".to_string(), "1".to_string()).unwrap();
    assert_eq!(
        m.add("k".repeat(1000), "v".to_string()),
        Err(AddError::PayloadTooLarge)
    );
    assert_eq!(m.get(&"k".repeat(1000)), None);
    assert_eq!(m.get("a"), Some("1".to_string()));
}

#[test]
fn sizes_just_below_the_limits_are_accepted() {
    let mut m = model();
    assert_eq!(m.add("k".repeat(999), "v".repeat(3999)), Ok(()));
    assert_eq!(m.get(&"k".repeat(999)), Some("v".repeat(3999)));
}

#[test]
fn limits_count_bytes_not_characters() {
    // 'é' takes two bytes in UTF-8
    assert!(payload_fits(&"é".repeat(499), "v"));
    assert!(!payload_fits(&"é".repeat(500), "v"));
    assert!(!payload_fits("k", &"é".repeat(2000)));
}

#[test]
fn missing_key_reads_as_absent() {
    let m = model();
    assert_eq!(m.get("never"), None);
}

#[test]
fn delete_twice_is_idempotent() {
    let mut store = EntryStore::new();
    store.insert("a".to_string(), "1".to_string()).unwrap();
    store.insert("b".to_string(), "2".to_string()).unwrap();
    store.delete("a");
    assert_eq!(store.find("a"), None);
    assert_eq!(store.count(), 1);
    store.delete("a");
    assert_eq!(store.find("a"), None);
    assert_eq!(store.count(), 1);
    assert_eq!(store.find("b"), Some("2".to_string()));
}

#[test]
fn insert_of_present_key_fails() {
    let mut store = EntryStore::new();
    store.insert("a".to_string(), "1".to_string()).unwrap();
    assert_eq!(
        store.insert("a".to_string(), "2".to_string()),
        Err(StorageFailure)
    );
    assert_eq!(store.find("a"), Some("1".to_string()));
    assert_eq!(store.count(), 1);
}

#[test]
fn evict_keeps_the_newest_entries() {
    let mut store = EntryStore::new();
    for i in 0..1000 {
        store.insert(format!("k{}", i), format!("v{}", i)).unwrap();
    }
    assert_eq!(store.count(), 1000);
    store.delete_old_entries(100);
    assert_eq!(store.count(), 100);
    assert_eq!(store.find("k899"), None);
    assert_eq!(store.find("k900"), Some("v900".to_string()));
    assert_eq!(store.find("k999"), Some("v999".to_string()));
}

#[test]
fn evict_on_small_store_keeps_everything() {
    let mut store = EntryStore::new();
    store.insert("a".to_string(), "1".to_string()).unwrap();
    store.delete_old_entries(100);
    assert_eq!(store.count(), 1);
    store.delete_old_entries(0);
    assert_eq!(store.count(), 0);
}

#[test]
fn gateway_evicts_at_threshold() {
    let mut m = model();
    for i in 0..1000 {
        m.add(format!("k{}", i), "v".to_string()).unwrap();
    }
    assert_eq!(m.get("k0"), Some("v".to_string()));
    m.add("new".to_string(), "n".to_string()).unwrap();
    // the 100 newest survive, then the new entry is added
    assert_eq!(m.get("k899"), None);
    assert_eq!(m.get("k900"), Some("v".to_string()));
    assert_eq!(m.get("new"), Some("n".to_string()));
}

#[test]
fn gateway_below_threshold_keeps_all() {
    let mut m = model();
    for i in 0..999 {
        m.add(format!("k{}", i), "v".to_string()).unwrap();
    }
    m.add("new".to_string(), "n".to_string()).unwrap();
    assert_eq!(m.get("k0"), Some("v".to_string()));
    assert_eq!(m.get("new"), Some("n".to_string()));
}

#[test]
fn volatile_oversized_value_is_dropped() {
    let mut store = VolatileStore::new();
    store.insert("a".to_string(), "1".to_string());
    store.insert("b".to_string(), "x".repeat(10000));
    assert_eq!(store.count(), 1);
    assert_eq!(store.find("b"), None);
    store.insert("c".to_string(), "x".repeat(9999));
    assert_eq!(store.count(), 2);
}

#[test]
fn volatile_full_store_is_cleared() {
    let mut store = VolatileStore::new();
    for i in 0..1000 {
        store.insert(format!("k{}", i), "v".to_string());
    }
    assert_eq!(store.count(), 1000);
    store.insert("new".to_string(), "n".to_string());
    assert_eq!(store.count(), 1);
    assert_eq!(store.find("k999"), None);
    assert_eq!(store.find("new"), Some("n".to_string()));
}

#[test]
fn volatile_insert_replaces_value() {
    let mut store = VolatileStore::new();
    store.insert("a".to_string(), "1".to_string());
    store.insert("a".to_string(), "2".to_string());
    assert_eq!(store.count(), 1);
    assert_eq!(store.find("a"), Some("2".to_string()));
    store.delete("a");
    store.delete("a");
    assert_eq!(store.find("a"), None);
}

#[test]
fn eviction_threshold() {
    assert!(!needs_eviction(999));
    assert!(needs_eviction(1000));
}

#[test]
fn durable_write_steps() {
    assert_eq!(start_add("a", "1"), AddAction::CountEntries);
    assert_eq!(
        start_add("a", &"x".repeat(4000)),
        AddAction::Finish(Err(AddError::PayloadTooLarge))
    );
    assert_eq!(after_count(Ok(5)), AddAction::DeleteExisting);
    assert_eq!(after_count(Ok(1000)), AddAction::EvictTo(100));
    assert_eq!(
        after_count(Err(StorageFailure)),
        AddAction::Finish(Err(AddError::WriteFailure))
    );
    assert_eq!(after_evict(Ok(())), AddAction::DeleteExisting);
    assert_eq!(
        after_evict(Err(StorageFailure)),
        AddAction::Finish(Err(AddError::WriteFailure))
    );
    assert_eq!(after_delete(Ok(())), AddAction::InsertEntry);
    assert_eq!(
        after_delete(Err(StorageFailure)),
        AddAction::Finish(Err(AddError::WriteFailure))
    );
    assert_eq!(after_insert(Ok(())), AddAction::Finish(Ok(())));
    assert_eq!(
        after_insert(Err(StorageFailure)),
        AddAction::Finish(Err(AddError::WriteFailure))
    );
}

#[test]
fn failed_read_reads_as_absent() {
    assert_eq!(read_outcome(Ok(Some("v".to_string()))), Some("v".to_string()));
    assert_eq!(read_outcome(Ok(None)), None);
    assert_eq!(read_outcome(Err(StorageFailure)), None);
}

#[test]
fn any_error_becomes_storage_failure() {
    assert_eq!(handle_err("connection refused"), StorageFailure);
    assert_eq!(handle_err(42u32), StorageFailure);
}
