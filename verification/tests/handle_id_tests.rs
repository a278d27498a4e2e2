use superconfig::{
    generate_handle_id, get_current_handle_count, is_valid_handle_id, reset_handle_counter, HandleCounter,
    HandleID,
};

#[test]
fn test_generate_unique_ids() {
    let mut counter = HandleCounter::new();
    reset_handle_counter(&mut counter);

    let id1 = generate_handle_id(&mut counter);
    let id2 = generate_handle_id(&mut counter);
    let id3 = generate_handle_id(&mut counter);

    assert_eq!(id1, 1);
    assert_eq!(id2, 2);
    assert_eq!(id3, 3);

    assert_ne!(id1, id2);
    assert_ne!(id2, id3);
    assert_ne!(id1, id3);
}

#[test]
fn test_reset_counter() {
    let mut counter = HandleCounter::new();
    reset_handle_counter(&mut counter);
    assert_eq!(get_current_handle_count(&counter), 1);

    let _ = generate_handle_id(&mut counter);
    let _ = generate_handle_id(&mut counter);
    assert_eq!(get_current_handle_count(&counter), 3);

    reset_handle_counter(&mut counter);
    assert_eq!(get_current_handle_count(&counter), 1);

    let id = generate_handle_id(&mut counter);
    assert_eq!(id, 1);
}

#[test]
fn test_get_current_handle_count() {
    let mut counter = HandleCounter::new();
    reset_handle_counter(&mut counter);

    let initial = get_current_handle_count(&counter);
    assert_eq!(initial, 1);

    let _ = generate_handle_id(&mut counter);
    let after_one = get_current_handle_count(&counter);
    assert_eq!(after_one, 2);

    let _ = generate_handle_id(&mut counter);
    let _ = generate_handle_id(&mut counter);
    let after_three = get_current_handle_count(&counter);
    assert_eq!(after_three, 4);
}

#[test]
fn test_handle_id_type_compatibility() {
    assert_eq!(std::mem::size_of::<HandleID>(), std::mem::size_of::<u64>());

    let mut counter = HandleCounter::new();
    let id: HandleID = generate_handle_id(&mut counter);
    let as_u64: u64 = id;
    assert_eq!(id, as_u64);
}

#[test]
fn test_large_number_of_ids() {
    let mut counter = HandleCounter::new();
    let mut ids = std::collections::HashSet::new();
    let mut prev_id = 0;

    for _ in 0..10000 {
        let id = generate_handle_id(&mut counter);
        assert!(ids.insert(id), "Duplicate ID: {}", id);
        assert!(id > prev_id, "ID {} not greater than previous {}", id, prev_id);
        prev_id = id;
    }

    assert_eq!(ids.len(), 10000);
}

#[test]
fn test_atomic_ordering() {
    let mut counter = HandleCounter::new();
    reset_handle_counter(&mut counter);

    let id1 = generate_handle_id(&mut counter);
    let current = get_current_handle_count(&counter);
    let id2 = generate_handle_id(&mut counter);

    assert_eq!(id1, 1);
    assert_eq!(current, 2);
    assert_eq!(id2, 2);
}

#[test]
fn zero_is_the_only_invalid_id() {
    assert!(!is_valid_handle_id(0));
    assert!(is_valid_handle_id(1));
    assert!(is_valid_handle_id(u64::MAX));
}

#[test]
fn a_run_of_ids_is_distinct() {
    let mut counter = superconfig::HandleCounter::new();
    let ids: Vec<u64> = (0..1000).map(|_| superconfig::generate_handle_id(&mut counter)).collect();
    let mut sorted = ids.clone();
    sorted.dedup();
    assert_eq!(sorted.len(), 1000);
    assert!(ids.iter().all(|&id| id != 0));
    assert_eq!(ids[999], 1000);
}
