use leptos_workers::ids::{transferrable_id, unique_id, IdCounter};

#[test]
fn ids_count_up_from_zero() {
    let mut c = IdCounter::new();
    assert_eq!(unique_id(&mut c), 0);
    assert_eq!(unique_id(&mut c), 1);
    assert_eq!(unique_id(&mut c), 2);
}

#[test]
fn transferrable_ids_are_distinct() {
    let mut c = IdCounter::new();
    let ids: Vec<u64> = (0..100).map(|_| transferrable_id(&mut c)).collect();
    for i in 0..ids.len() {
        for j in (i + 1)..ids.len() {
            assert_ne!(ids[i], ids[j]);
        }
    }
}

#[test]
fn separate_counters_are_independent() {
    let mut a = IdCounter::new();
    let mut b = IdCounter::new();
    assert_eq!(unique_id(&mut a), 0);
    assert_eq!(unique_id(&mut a), 1);
    assert_eq!(transferrable_id(&mut b), 0);
}
