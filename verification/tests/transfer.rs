use leptos_workers::ids::IdCounter;
use leptos_workers::transfer::{LookupStore, SerStore, TransferStore};

#[test]
fn store_take_returns_every_entry_once_and_empties() {
    let mut s: TransferStore<&str> = TransferStore::new();
    s.insert(3, "a", "ua");
    s.insert(1, "b", "ub");
    s.insert(3, "c", "uc");
    assert_eq!(s.len(), 2);
    let mut entries = s.take();
    entries.sort();
    assert_eq!(entries, vec![(1, "b", "ub"), (3, "c", "uc")]);
    assert_eq!(s.len(), 0);
    assert!(s.take().is_empty());
}

#[test]
fn clear_empties_store() {
    let mut s: TransferStore<u8> = TransferStore::new();
    s.insert(0, 1, 2);
    s.clear();
    assert_eq!(s.len(), 0);
}

#[test]
fn sent_values_are_found_by_id_on_the_other_side() {
    let mut s: TransferStore<String> = TransferStore::new();
    s.insert(10, "value10".to_string(), "buffer10".to_string());
    s.insert(11, "value11".to_string(), "buffer11".to_string());
    let entries = s.take();
    let pairs: Vec<(u64, String)> = entries.into_iter().map(|(id, v, _)| (id, v)).collect();
    let mut lookup = LookupStore::new();
    lookup.fill(pairs);
    assert_eq!(lookup.get(10), Some(&"value10".to_string()));
    assert_eq!(lookup.get(11), Some(&"value11".to_string()));
    assert_eq!(lookup.get(12), None);
    lookup.clear();
    assert_eq!(lookup.get(10), None);
}

#[test]
fn later_pair_wins_in_lookup() {
    let mut lookup = LookupStore::new();
    lookup.fill(vec![(1, 'a'), (2, 'b'), (1, 'c')]);
    assert_eq!(lookup.get(1), Some(&'c'));
    assert_eq!(lookup.get(2), Some(&'b'));
}

#[test]
fn ser_store_collects_objects_under_a_fresh_id() {
    let mut counter = IdCounter::new();
    let mut first: SerStore<u32> = SerStore::new(&mut counter);
    let second: SerStore<u32> = SerStore::new(&mut counter);
    assert_eq!(first.store_id(), 0);
    assert_eq!(second.store_id(), 1);
    first.extend(vec![1, 2]);
    first.extend(vec![]);
    first.extend(vec![3]);
    assert_eq!(first.store_id(), 0);
    assert_eq!(first.into_objects(), vec![1, 2, 3]);
}
