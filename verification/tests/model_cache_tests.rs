use mcp_edge_gateway::common::error::Error;
use mcp_edge_gateway::models::cache::{ModelCache, WarmupState};

const MB: usize = 1024 * 1024;

#[test]
fn stored_model_is_found_and_counted() {
    let mut cache = ModelCache::new(100, 3);
    assert_eq!(cache.len(), 0);
    assert!(cache.store_model("m1".to_string(), vec![7u8; 2 * MB], 10, &vec![]).is_ok());
    assert_eq!(cache.len(), 1);
    assert_eq!(cache.memory_usage_mb(), 2);
    assert!(cache.contains_model("m1"));
    let hit = cache.get_model("m1", 20).unwrap();
    assert_eq!(hit.model_id(), "m1");
    assert_eq!(hit.size_mb(), 2);
    assert_eq!(hit.access_count(), 1);
    assert_eq!(hit.last_accessed_ms(), 20);
    assert_eq!(hit.load_time_ms(), 10);
    assert_eq!(hit.warmup_state(), WarmupState::Hot);
    assert_eq!(hit.data().len(), 2 * MB);
    assert!(cache.get_model("missing", 30).is_none());
    assert_eq!(cache.counters(), (2, 1, 1, 0));
}

#[test]
fn least_recently_used_model_is_evicted_at_the_limit() {
    let mut cache = ModelCache::new(1000, 2);
    cache.store_model("a".to_string(), vec![0u8; MB], 1, &vec![]).unwrap();
    cache.store_model("b".to_string(), vec![0u8; MB], 2, &vec![]).unwrap();
    // touching "a" makes "b" the least recently used
    assert!(cache.get_model("a", 3).is_some());
    cache.store_model("c".to_string(), vec![0u8; MB], 4, &vec![]).unwrap();
    assert!(cache.contains_model("a"));
    assert!(!cache.contains_model("b"));
    assert!(cache.contains_model("c"));
    assert_eq!(cache.len(), 2);
    assert_eq!(cache.memory_usage_mb(), 2);
    assert_eq!(cache.counters().3, 1);
    let order: Vec<String> = cache.models().iter().map(|m| m.model_id().clone()).collect();
    assert_eq!(order, vec!["c".to_string(), "a".to_string()]);
}

#[test]
fn memory_pressure_evicts_in_the_given_order() {
    let mut cache = ModelCache::new(5, 10);
    cache.store_model("x".to_string(), vec![0u8; MB], 1, &vec![]).unwrap();
    cache.store_model("y".to_string(), vec![0u8; 3 * MB], 2, &vec![]).unwrap();
    assert!(!cache.can_allocate(3));
    cache
        .store_model("z".to_string(), vec![0u8; 3 * MB], 3, &vec!["nope".to_string(), "y".to_string(), "x".to_string()])
        .unwrap();
    assert!(cache.contains_model("x"));
    assert!(!cache.contains_model("y"));
    assert!(cache.contains_model("z"));
    assert_eq!(cache.memory_usage_mb(), 4);
}

#[test]
fn eviction_that_frees_too_little_fails() {
    let mut cache = ModelCache::new(3, 10);
    cache.store_model("x".to_string(), vec![0u8; MB], 1, &vec![]).unwrap();
    let err = cache.store_model("big".to_string(), vec![0u8; 4 * MB], 2, &vec!["x".to_string()]);
    match err {
        Err(Error::Memory(m)) => assert_eq!(m, "Could not free enough memory: needed 4MB, freed 1MB"),
        _ => panic!("expected a memory error"),
    }
    assert!(!cache.contains_model("x"));
    assert!(!cache.contains_model("big"));
    assert_eq!(cache.memory_usage_mb(), 0);
}

#[test]
fn storing_again_replaces_the_model() {
    let mut cache = ModelCache::new(100, 1);
    cache.store_model("m".to_string(), vec![1u8; 10], 1, &vec![]).unwrap();
    cache.store_model("m".to_string(), vec![2u8; 20], 2, &vec![]).unwrap();
    assert_eq!(cache.len(), 1);
    let m = cache.get_model("m", 3).unwrap();
    assert_eq!(m.data(), &vec![2u8; 20]);
    assert_eq!(m.access_count(), 1);
}
