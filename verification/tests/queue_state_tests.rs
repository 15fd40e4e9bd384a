use mcp_edge_gateway::common::metrics::HealthLevel;
use mcp_edge_gateway::common::types::Priority;
use mcp_edge_gateway::models::intelligent_cache::{CacheStorage, EvictionAlgorithm};
use mcp_edge_gateway::pipeline_guard::pipeline_state::{ComponentStatus, PipelineState, PipelineStatus};
use mcp_edge_gateway::queue::persistent_queue::{
    calculate_priority_score, queue_health, sync_backoff_ms, MemoryQueue, PriorityContext, QueueError,
};

#[test]
fn test_queue_creation() {
    let queue: MemoryQueue<String> = MemoryQueue::new(10000);
    assert_eq!(queue.len(), 0);
}

#[test]
fn test_enqueue_dequeue() {
    let mut queue: MemoryQueue<String> = MemoryQueue::new(10000);
    let response = queue.enqueue("req-1".to_string(), "test_method".to_string(), 50, None, 0);
    assert!(response.is_ok());
    assert!(queue.len() > 0);
    let dequeued = queue.dequeue();
    assert!(dequeued.is_some());
    assert_eq!(dequeued.unwrap().id, "req-1");
}

#[test]
fn test_queue_health() {
    let queue: MemoryQueue<String> = MemoryQueue::new(10000);
    assert_eq!(queue.health_level(), HealthLevel::Healthy);
}

#[test]
fn higher_priority_requests_leave_first() {
    let mut q: MemoryQueue<u32> = MemoryQueue::new(3);
    q.enqueue("low".to_string(), 1, 10, None, 0).unwrap();
    q.enqueue("high".to_string(), 2, 90, None, 0).unwrap();
    q.enqueue("mid".to_string(), 3, 50, None, 0).unwrap();
    assert_eq!(q.enqueue("x".to_string(), 4, 70, None, 0), Err(QueueError::Full));
    assert_eq!(q.dequeue().unwrap().id, "high");
    assert_eq!(q.dequeue().unwrap().id, "mid");
    assert_eq!(q.dequeue().unwrap().id, "low");
    assert!(q.dequeue().is_none());
}

#[test]
fn expired_requests_make_room_and_retries_drop_requests() {
    let mut q: MemoryQueue<u32> = MemoryQueue::new(1);
    q.enqueue("old".to_string(), 1, 50, Some(100), 0).unwrap();
    assert!(q.enqueue("new".to_string(), 2, 50, None, 200).is_ok());
    assert_eq!(q.len(), 1);
    assert!(!q.record_sync_failure("new", 1));
    assert!(q.record_sync_failure("new", 1));
    assert_eq!(q.len(), 0);
    assert!(!q.remove("new"));
}

#[test]
fn priority_scores_and_backoff() {
    assert_eq!(calculate_priority_score("completion", None), 60);
    let ctx = PriorityContext { priority: Priority::Critical, max_latency_ms: Some(500), require_local: true };
    assert_eq!(calculate_priority_score("embedding", Some(ctx)), 50 + 40 + 20 + 15 - 5);
    let low = PriorityContext { priority: Priority::Low, max_latency_ms: Some(2000), require_local: false };
    assert_eq!(calculate_priority_score("chat", Some(low)), 50 - 15 + 10 + 5);
    assert_eq!(sync_backoff_ms(0), 1000);
    assert_eq!(sync_backoff_ms(3), 8000);
    assert_eq!(sync_backoff_ms(5), 30000);
    assert_eq!(sync_backoff_ms(40), 30000);
    assert_eq!(queue_health(81, 100), HealthLevel::Degraded);
    assert_eq!(queue_health(96, 100), HealthLevel::Critical);
    assert_eq!(queue_health(80, 100), HealthLevel::Healthy);
}

#[test]
fn pipeline_health_from_component_statuses() {
    let mut p = PipelineState::new();
    assert_eq!(p.get_pipeline_status(), PipelineStatus::Healthy);
    for id in ["a", "b", "c", "d"] {
        p.add_component(id.to_string());
    }
    p.update_component_health("a", true);
    p.update_component_health("b", true);
    p.update_component_health("c", true);
    p.update_component_health("d", true);
    assert_eq!(p.get_overall_health(), HealthLevel::Healthy);
    p.update_component_health("d", false);
    p.update_component_health("d", false);
    // one failed of four: 25% troubled, still healthy
    assert_eq!(p.get_overall_health(), HealthLevel::Healthy);
    // every failed check counts, consecutively and in total
    assert_eq!(p.get_component("d").unwrap().consecutive_failures, 2);
    assert_eq!(p.get_component("d").unwrap().total_failures, 2);
    assert_eq!(p.get_problematic_components(2), vec!["d".to_string()]);
    assert!(p.get_problematic_components(3).is_empty());
    p.update_component_health("c", false);
    assert_eq!(p.get_overall_health(), HealthLevel::Degraded);
    p.update_component_health("b", false);
    assert_eq!(p.get_overall_health(), HealthLevel::Critical);
    assert_eq!(p.get_pipeline_status(), PipelineStatus::Critical);
    assert_eq!(p.get_components_by_status(ComponentStatus::Healthy), vec!["a".to_string()]);
    let s = p.get_summary();
    assert_eq!((s.total_components, s.healthy_components, s.failed_components), (4, 1, 3));
    assert_eq!(p.get_all_components().len(), 4);
    p.reset_component_failures("d");
    assert_eq!(p.get_component("d").unwrap().consecutive_failures, 0);
    p.remove_component("d");
    assert_eq!(p.component_count(), 3);
}

#[test]
fn intelligent_cache_evicts_by_algorithm() {
    let mut c = CacheStorage::new(100, 2);
    c.put("m1".to_string(), vec![1], 10, EvictionAlgorithm::LRU, 1, &vec![]).unwrap();
    c.put("m2".to_string(), vec![2], 10, EvictionAlgorithm::LRU, 2, &vec![]).unwrap();
    assert_eq!(c.get("m1", 3), Some(vec![1]));
    c.put("m3".to_string(), vec![3], 10, EvictionAlgorithm::LRU, 4, &vec![]).unwrap();
    assert!(c.contains("m1"));
    assert!(!c.contains("m2"));
    assert_eq!(c.len(), 2);
    assert_eq!(c.size_mb(), 20);
    assert_eq!(c.get("m2", 5), None);
    let s = c.stats();
    assert_eq!((s.total_requests, s.cache_hits, s.cache_misses, s.evictions), (2, 1, 1, 1));
    // the model that is used least often goes under LFU
    assert_eq!(c.get("m3", 6), Some(vec![3]));
    assert_eq!(c.get("m3", 7), Some(vec![3]));
    c.put("m4".to_string(), vec![4], 10, EvictionAlgorithm::LFU, 8, &vec![]).unwrap();
    assert!(!c.contains("m1"));
    assert!(c.contains("m3"));
    // hybrid scoring follows the ranking and chooses none when no ranked model is cached
    assert!(c.put("m5".to_string(), vec![5], 10, EvictionAlgorithm::HybridScore, 9, &vec!["zz".to_string()]).is_err());
    assert!(c.contains("m3") && c.contains("m4"));
    let ranking = vec!["zz".to_string(), "m4".to_string(), "m3".to_string()];
    c.put("m5".to_string(), vec![5], 10, EvictionAlgorithm::HybridScore, 10, &ranking).unwrap();
    assert!(!c.contains("m4"));
    assert!(c.contains("m3") && c.contains("m5"));
    // predictive eviction falls back to the least recently used model
    assert_eq!(c.select_eviction_candidate(EvictionAlgorithm::PredictiveLRU, 11, &vec![]), Some("m3".to_string()));
    assert_eq!(c.select_eviction_candidate(EvictionAlgorithm::PredictiveLRU, 11, &ranking), Some("m3".to_string()));
    c.put("m6".to_string(), vec![6], 10, EvictionAlgorithm::PredictiveLRU, 12, &vec!["m5".to_string()]).unwrap();
    assert!(!c.contains("m5"));
    assert!(c.contains("m3") && c.contains("m6"));
    // a model larger than the whole budget can never fit
    let mut small = CacheStorage::new(5, 3);
    assert!(small.put("big".to_string(), vec![0], 6, EvictionAlgorithm::LRU, 0, &vec![]).is_err());
    c.clear();
    assert_eq!(c.len(), 0);
}

#[test]
fn test_cache_creation() {
    // the default limits: 2048 MB and 10 models
    let cache = CacheStorage::new(2048, 10);
    let mem_util = cache.size_mb() as f32 / 2048.0;
    let model_util = cache.len() as f32 / 10.0;
    assert_eq!(mem_util, 0.0);
    assert_eq!(model_util, 0.0);
}

#[test]
fn test_cache_put_get() {
    let mut cache = CacheStorage::new(2048, 10);

    let model_id = "test-model".to_string();
    let data = vec![1, 2, 3, 4, 5];

    cache.put(model_id.clone(), data.clone(), 1, EvictionAlgorithm::AdaptiveLRU, 1_000, &vec![]).unwrap();

    assert!(cache.contains(&model_id));

    let retrieved = cache.get(&model_id, 2_000);
    assert_eq!(retrieved, Some(data));
}

#[test]
fn test_eviction() {
    let mut cache = CacheStorage::new(10, 2);

    // Add models until eviction occurs
    cache.put("model1".to_string(), vec![1; 1024], 1, EvictionAlgorithm::AdaptiveLRU, 1_000, &vec![]).unwrap();
    cache.put("model2".to_string(), vec![2; 1024], 1, EvictionAlgorithm::AdaptiveLRU, 2_000, &vec![]).unwrap();
    cache.put("model3".to_string(), vec![3; 1024], 1, EvictionAlgorithm::AdaptiveLRU, 3_000, &vec![]).unwrap();

    let stats = cache.stats();
    assert!(stats.evictions > 0);
    assert_eq!(cache.len(), 2);
    assert!(cache.contains("model3"));
}

#[test]
fn equal_priority_requests_keep_arrival_order() {
    let mut q: MemoryQueue<u32> = MemoryQueue::new(10);
    q.enqueue("first".to_string(), 1, 50, None, 0).unwrap();
    q.enqueue("second".to_string(), 2, 50, None, 1).unwrap();
    q.enqueue("urgent".to_string(), 3, 80, None, 2).unwrap();
    q.enqueue("third".to_string(), 4, 50, None, 3).unwrap();
    let order: Vec<String> = (0..4).map(|_| q.dequeue().unwrap().id).collect();
    assert_eq!(order, vec!["urgent", "first", "second", "third"]);
    assert!(q.dequeue().is_none());
}

#[test]
fn component_failures_count_each_failed_check() {
    let mut p = PipelineState::new();
    p.add_component("svc".to_string());
    for _ in 0..3 {
        p.update_component_health("svc", false);
    }
    let c = p.get_component("svc").unwrap();
    assert_eq!((c.status, c.consecutive_failures, c.total_failures), (ComponentStatus::Failed, 3, 3));
    assert_eq!(p.get_problematic_components(3), vec!["svc".to_string()]);
    p.update_component_health("svc", true);
    let c = p.get_component("svc").unwrap();
    assert_eq!((c.status, c.consecutive_failures, c.total_failures), (ComponentStatus::Healthy, 0, 3));
}

#[test]
fn component_check_times_follow_the_checks() {
    let mut p = PipelineState::new();
    p.add_component_at("svc".to_string(), 100);
    p.update_component_health_at("svc", true, 200);
    let c = p.get_component("svc").unwrap();
    assert_eq!((c.last_health_check_ms, c.last_status_change_ms), (200, 200));
    // the same status again: only the check time moves
    p.update_component_health_at("svc", true, 300);
    let c = p.get_component("svc").unwrap();
    assert_eq!((c.last_health_check_ms, c.last_status_change_ms), (300, 200));
    p.update_component_health_at("svc", false, 400);
    let c = p.get_component("svc").unwrap();
    assert_eq!((c.status, c.last_health_check_ms, c.last_status_change_ms), (ComponentStatus::Failed, 400, 400));
}
