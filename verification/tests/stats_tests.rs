use superconfig::RegistryStats;

#[test]
fn test_stats_new_and_default() {
    let stats1 = RegistryStats::new();
    let stats2 = RegistryStats::default();

    assert_eq!(stats1.total_handles, 0);
    assert_eq!(stats1.total_creates, 0);
    assert_eq!(stats1.total_reads, 0);
    assert_eq!(stats1.total_updates, 0);
    assert_eq!(stats1.total_deletes, 0);
    assert_eq!(stats1.memory_usage_bytes, 0);

    assert_eq!(stats1.total_handles, stats2.total_handles);
    assert_eq!(stats1.total_creates, stats2.total_creates);
}

#[test]
fn test_stats_operations() {
    let mut stats = RegistryStats::new();

    stats.increment_creates();
    assert_eq!(stats.total_creates, 1);
    assert_eq!(stats.total_handles, 1);

    stats.increment_reads();
    assert_eq!(stats.total_reads, 1);
    assert_eq!(stats.total_handles, 1);

    stats.increment_updates();
    assert_eq!(stats.total_updates, 1);
    assert_eq!(stats.total_handles, 1);

    stats.increment_deletes();
    assert_eq!(stats.total_deletes, 1);
    assert_eq!(stats.total_handles, 0);
}

#[test]
fn test_memory_tracking() {
    let mut stats = RegistryStats::new();

    stats.add_memory(100);
    assert_eq!(stats.memory_usage_bytes, 100);

    stats.add_memory(50);
    assert_eq!(stats.memory_usage_bytes, 150);

    stats.remove_memory(30);
    assert_eq!(stats.memory_usage_bytes, 120);

    stats.remove_memory(200);
    assert_eq!(stats.memory_usage_bytes, 0);
}

#[test]
fn test_overflow_protection() {
    let mut stats = RegistryStats::new();
    stats.total_creates = u64::MAX;
    stats.total_handles = u64::MAX;
    stats.memory_usage_bytes = u64::MAX;

    stats.increment_creates();
    stats.add_memory(100);

    assert_eq!(stats.total_creates, u64::MAX);
    assert_eq!(stats.total_handles, u64::MAX);
    assert_eq!(stats.memory_usage_bytes, u64::MAX);
}

#[test]
fn test_reset() {
    let mut stats = RegistryStats::new();

    stats.increment_creates();
    stats.increment_reads();
    stats.add_memory(1000);

    assert_ne!(stats.total_creates, 0);
    assert_ne!(stats.total_reads, 0);
    assert_ne!(stats.memory_usage_bytes, 0);

    stats.reset();

    assert_eq!(stats.total_creates, 0);
    assert_eq!(stats.total_reads, 0);
    assert_eq!(stats.memory_usage_bytes, 0);
}

#[test]
fn delete_of_nothing_keeps_handles_at_zero() {
    let mut stats = RegistryStats::new();
    stats.increment_deletes();
    assert_eq!(stats.total_handles, 0);
    assert_eq!(stats.total_deletes, 1);
}
