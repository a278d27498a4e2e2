use std::any::Any;
use std::sync::Arc;

use superconfig::config_flags::{runtime, startup};
use superconfig::errors::RegistryError;
use superconfig::{ConfigHandle, ConfigRegistry};

type Stored = Arc<dyn Any + Send + Sync>;

#[derive(Debug, Clone, PartialEq)]
struct TestConfig {
    host: String,
    port: u16,
    timeout_ms: u32,
}

#[derive(Debug, Clone, PartialEq)]
struct SimpleConfig {
    value: i32,
}

fn label<T: Any>() -> String {
    format!("{:?}", std::any::TypeId::of::<T>())
}

fn put<T: Any + Send + Sync>(registry: &mut ConfigRegistry<Stored>, data: T) -> ConfigHandle<T> {
    let stored: Stored = Arc::new(data);
    registry
        .create::<T>(stored, label::<T>().as_str(), std::mem::size_of::<T>() as u64)
        .unwrap()
}

fn get<T: Any + Send + Sync>(registry: &mut ConfigRegistry<Stored>, handle: &ConfigHandle<T>) -> Result<Arc<T>, RegistryError> {
    let stored = registry.read(handle, label::<T>().as_str())?.clone();
    Ok(stored.downcast::<T>().unwrap())
}

fn replace<T: Any + Send + Sync>(registry: &mut ConfigRegistry<Stored>, handle: &ConfigHandle<T>, data: T) -> Result<(), RegistryError> {
    let stored: Stored = Arc::new(data);
    registry.update(handle, stored, label::<T>().as_str(), std::mem::size_of::<T>() as u64)
}

fn remove<T: Any + Send + Sync>(registry: &mut ConfigRegistry<Stored>, handle: &ConfigHandle<T>) -> Result<Arc<T>, RegistryError> {
    let stored = registry.delete(handle, label::<T>().as_str())?;
    Ok(stored.downcast::<T>().unwrap())
}

fn sample() -> TestConfig {
    TestConfig { host: "localhost".to_string(), port: 8080, timeout_ms: 5000 }
}

#[test]
fn registry_test_create_and_read() {
    let mut registry: ConfigRegistry<Stored> = ConfigRegistry::new();
    let config = sample();

    let handle = put(&mut registry, config.clone());
    let retrieved = get(&mut registry, &handle).unwrap();
    assert_eq!(*retrieved, config);
    assert_eq!(handle.id(), 1);
}

#[test]
fn test_flag_operations() {
    let registry: ConfigRegistry<Stored> = ConfigRegistry::custom(startup::SIMD | startup::THREAD_POOL)
        .enable(runtime::STRICT_MODE | runtime::PARALLEL);

    assert!(registry.startup_enabled(startup::SIMD));
    assert!(registry.startup_enabled(startup::THREAD_POOL));
    assert!(!registry.startup_enabled(startup::DETAILED_STATS));
    assert!(registry.startup_disabled(startup::DETAILED_STATS));

    assert!(registry.runtime_enabled(runtime::STRICT_MODE));
    assert!(registry.runtime_enabled(runtime::PARALLEL));
    assert!(!registry.runtime_enabled(runtime::ARRAY_MERGE));
    assert!(registry.runtime_disabled(runtime::ARRAY_MERGE));

    let registry = registry.enable(runtime::ARRAY_MERGE);
    assert!(registry.runtime_enabled(runtime::ARRAY_MERGE));

    let registry = registry.disable(runtime::PARALLEL);
    assert!(!registry.runtime_enabled(runtime::PARALLEL));
}

#[test]
fn unknown_runtime_flags_are_ignored() {
    let registry: ConfigRegistry<Stored> = ConfigRegistry::new().enable(runtime::PARALLEL);
    let registry = registry.enable(1 << 20);
    assert_eq!(registry.get_runtime_flags(), runtime::PARALLEL);
    let registry = registry.disable(runtime::PARALLEL | (1 << 30));
    assert_eq!(registry.get_runtime_flags(), runtime::PARALLEL);
    assert_eq!(registry.get_startup_flags(), 0);
}

#[test]
fn registry_test_update() {
    let mut registry: ConfigRegistry<Stored> = ConfigRegistry::new();
    let original = sample();
    let updated = TestConfig { host: "remote".to_string(), port: 9090, timeout_ms: 10000 };

    let handle = put(&mut registry, original);
    let old_data = get(&mut registry, &handle).unwrap();

    replace(&mut registry, &handle, updated.clone()).unwrap();

    let new_data = get(&mut registry, &handle).unwrap();
    assert_eq!(*new_data, updated);

    assert_eq!(old_data.host, "localhost");
    assert_eq!(old_data.port, 8080);
}

#[test]
fn registry_test_delete() {
    let mut registry: ConfigRegistry<Stored> = ConfigRegistry::new();
    let config = sample();

    let handle = put(&mut registry, config.clone());
    let deleted = remove(&mut registry, &handle).unwrap();
    assert_eq!(*deleted, config);

    assert!(!registry.contains_handle(&handle));
    assert!(get(&mut registry, &handle).is_err());
}

#[test]
fn registry_test_handle_not_found() {
    let mut registry: ConfigRegistry<Stored> = ConfigRegistry::new();
    let fake_handle = ConfigHandle::<TestConfig>::new(999);
    let result = get(&mut registry, &fake_handle);
    assert!(matches!(result, Err(RegistryError::HandleNotFound { handle_id: 999 })));
}

#[test]
fn registry_test_wrong_type() {
    let mut registry: ConfigRegistry<Stored> = ConfigRegistry::new();
    let handle = put(&mut registry, sample());

    let wrong_handle = ConfigHandle::<SimpleConfig>::new(handle.id());
    let result = get(&mut registry, &wrong_handle);
    assert!(matches!(result, Err(RegistryError::WrongType { handle_id, .. }) if handle_id == handle.id()));
}

#[test]
fn registry_test_statistics() {
    let mut registry: ConfigRegistry<Stored> = ConfigRegistry::new();
    let config1 = sample();
    let config2 = SimpleConfig { value: 42 };

    let stats = registry.stats();
    assert_eq!(stats.total_handles, 0);
    assert_eq!(stats.total_creates, 0);
    assert_eq!(stats.total_reads, 0);

    let handle1 = put(&mut registry, config1);
    let handle2 = put(&mut registry, config2);

    let stats = registry.stats();
    assert_eq!(stats.total_handles, 2);
    assert_eq!(stats.total_creates, 2);
    assert!(stats.memory_usage_bytes > 0);

    let _data1 = get(&mut registry, &handle1).unwrap();
    let _data2 = get(&mut registry, &handle2).unwrap();

    let stats = registry.stats();
    assert_eq!(stats.total_reads, 2);

    replace(&mut registry, &handle1, TestConfig { host: "updated".to_string(), port: 9090, timeout_ms: 6000 })
        .unwrap();

    let stats = registry.stats();
    assert_eq!(stats.total_updates, 1);

    remove(&mut registry, &handle2).unwrap();

    let stats = registry.stats();
    assert_eq!(stats.total_handles, 1);
    assert_eq!(stats.total_deletes, 1);
}

#[test]
fn registry_test_arc_sharing() {
    let mut registry: ConfigRegistry<Stored> = ConfigRegistry::new();
    let handle = put(&mut registry, sample());

    let arc1 = get(&mut registry, &handle).unwrap();
    let arc2 = get(&mut registry, &handle).unwrap();

    assert!(Arc::ptr_eq(&arc1, &arc2));

    assert_eq!(arc1.host, "localhost");
    assert_eq!(arc2.port, 8080);
}

#[test]
fn registry_test_memory_cleanup() {
    let mut registry: ConfigRegistry<Stored> = ConfigRegistry::new();
    let handle = put(&mut registry, sample());
    let initial_memory = registry.stats().memory_usage_bytes;

    let _deleted = remove(&mut registry, &handle).unwrap();
    let final_memory = registry.stats().memory_usage_bytes;

    assert!(final_memory < initial_memory);
}

#[test]
fn registry_test_clear_registry() {
    let mut registry: ConfigRegistry<Stored> = ConfigRegistry::new();

    let _handle1 = put(&mut registry, SimpleConfig { value: 1 });
    let _handle2 = put(&mut registry, SimpleConfig { value: 2 });

    assert_eq!(registry.len(), 2);
    assert!(!registry.is_empty());

    registry.clear();

    assert_eq!(registry.len(), 0);
    assert!(registry.is_empty());

    let stats = registry.stats();
    assert_eq!(stats.total_handles, 0);
    assert_eq!(stats.memory_usage_bytes, 0);
}

#[test]
fn registry_test_handle_id_generation() {
    let mut registry: ConfigRegistry<Stored> = ConfigRegistry::new();

    let handle1 = put(&mut registry, SimpleConfig { value: 1 });
    let handle2 = put(&mut registry, SimpleConfig { value: 2 });
    let handle3 = put(&mut registry, SimpleConfig { value: 3 });

    assert_eq!(handle1.id(), 1);
    assert_eq!(handle2.id(), 2);
    assert_eq!(handle3.id(), 3);

    remove(&mut registry, &handle2).unwrap();
    let handle4 = put(&mut registry, SimpleConfig { value: 4 });
    assert_eq!(handle4.id(), 4);
}

#[test]
fn delete_as_wrong_type_removes_without_counting() {
    let mut registry: ConfigRegistry<Stored> = ConfigRegistry::new();
    let handle = put(&mut registry, SimpleConfig { value: 5 });
    let wrong = ConfigHandle::<TestConfig>::new(handle.id());
    assert!(matches!(remove(&mut registry, &wrong), Err(RegistryError::WrongType { .. })));
    assert!(!registry.contains_handle(&handle));
    assert_eq!(registry.stats().total_deletes, 0);
    assert!(matches!(
        replace(&mut registry, &handle, SimpleConfig { value: 6 }),
        Err(RegistryError::HandleNotFound { .. })
    ));
}

#[test]
fn error_collection_starts_empty() {
    let mut registry: ConfigRegistry<Stored> = ConfigRegistry::new();
    assert!(!registry.has_errors());
    assert!(registry.errors().is_empty());
    assert!(registry.catch().is_empty());
}
