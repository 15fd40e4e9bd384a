use mcp_edge_gateway::common::metrics::HealthLevel;
use mcp_edge_gateway::gateway::handlers::{check_method_name, health_label, MethodRejection};
use mcp_edge_gateway::gateway::performance::{ConnectionPool, PoolError};

#[test]
fn method_names_are_checked() {
    assert_eq!(check_method_name(""), Err(MethodRejection::Empty));
    assert_eq!(check_method_name("completion"), Ok(()));
    assert_eq!(check_method_name(&"m".repeat(128)), Ok(()));
    assert_eq!(check_method_name(&"m".repeat(129)), Err(MethodRejection::TooLong));
    // 65 two-byte characters are 130 bytes
    assert_eq!(check_method_name(&"é".repeat(65)), Err(MethodRejection::TooLong));
    assert_eq!(MethodRejection::Empty.message(), "Method cannot be empty");
    assert_eq!(MethodRejection::TooLong.message(), "Method name too long (max 128 characters)");
}

#[test]
fn health_labels() {
    assert_eq!(health_label(HealthLevel::Healthy), "healthy");
    assert_eq!(health_label(HealthLevel::Degraded), "degraded");
    assert_eq!(health_label(HealthLevel::Critical), "critical");
    assert_eq!(health_label(HealthLevel::Unknown), "unknown");
}

#[test]
fn connection_pool_lifecycle() {
    let mut pool: ConnectionPool<u32> = ConnectionPool::new(2);
    assert!(matches!(pool.acquire(), Err(PoolError::NoConnectionsAvailable)));
    assert!(pool.add_connection(1).is_ok());
    assert!(pool.add_connection(2).is_ok());
    assert!(matches!(pool.add_connection(3), Err(PoolError::PoolFull)));
    let c = pool.acquire().unwrap();
    assert_eq!(c, 2);
    let stats = pool.stats();
    assert_eq!((stats.total_connections, stats.available_connections, stats.active_connections, stats.max_size), (2, 1, 1, 2));
    pool.release(c);
    assert_eq!(pool.acquire().unwrap(), 2);
    assert_eq!(PoolError::PoolFull.message(), "Pool is at maximum capacity");
}

use mcp_edge_gateway::gateway::health::{parse_cpu_times, parse_meminfo, parse_u64, split_words, CpuTimes};

#[test]
fn meminfo_totals() {
    let text = "MemTotal:       16384000 kB\nMemFree:  100 kB\nMemAvailable:    8192000 kB\n";
    let m = parse_meminfo(text);
    assert_eq!((m.total_kb, m.available_kb), (16384000, 8192000));
    assert_eq!((m.total_mb(), m.available_mb()), (16000, 8000));
    let odd = parse_meminfo("MemTotal: lots\r\nMemAvailable:\nMemTotal: 7 kB");
    assert_eq!((odd.total_kb, odd.available_kb), (7, 0));
    assert_eq!(parse_meminfo("").total_kb, 0);
}

#[test]
fn cpu_counters_from_first_line() {
    let stat = "cpu  10 20 30 40 50 60\ncpu0 1 2 3 4\n";
    assert_eq!(parse_cpu_times(stat), Some(CpuTimes { idle: 40, total: 100 }));
    assert_eq!(parse_cpu_times("cpu  1 2 x 4\n"), None);
    assert_eq!(parse_cpu_times("cpu  1 2 3\n"), None);
    assert_eq!(parse_cpu_times("intr 1 2 3 4\ncpu  1 2 3 4"), None);
    assert_eq!(parse_cpu_times(""), None);
}

#[test]
fn numbers_and_words() {
    let w = split_words("  a\tbc  d ");
    let w: Vec<String> = w.into_iter().map(|v| v.into_iter().collect()).collect();
    assert_eq!(w, vec!["a", "bc", "d"]);
    let p = |s: &str| parse_u64(&s.chars().collect());
    assert_eq!(p("42"), Some(42));
    assert_eq!(p("+7"), Some(7));
    assert_eq!(p("+"), None);
    assert_eq!(p(""), None);
    assert_eq!(p("-1"), None);
    assert_eq!(p("18446744073709551615"), Some(u64::MAX));
    assert_eq!(p("18446744073709551616"), None);
}

use mcp_edge_gateway::gateway::gateway::{checked_components, component_status, gateway_health, GatewayComponent, RequestCounters};
use mcp_edge_gateway::gateway::middleware::{extract_client_id, RateLimitLayer};

#[test]
fn rate_limit_blocks_for_twice_the_window() {
    let mut rl = RateLimitLayer::new(2, 10);
    assert!(rl.check_rate_limit_at("c", 100));
    assert!(rl.check_rate_limit_at("c", 101));
    // third request within 10 s: refused, blocked until 100 + ... 102 + 20
    assert!(!rl.check_rate_limit_at("c", 102));
    assert!(!rl.check_rate_limit_at("c", 121));
    // the block ends at 122; the old requests have left the window by then
    assert!(rl.check_rate_limit_at("c", 122));
    // another client is independent
    assert!(rl.check_rate_limit_at("d", 102));
    rl.cleanup_inactive_at(102 + 3600);
    assert!(rl.check_rate_limit_at("d", 3702));
}

#[test]
fn client_ids_from_headers() {
    assert_eq!(extract_client_id(Some("Bearer key123"), Some("1.2.3.4"), None, None), "key123");
    assert_eq!(extract_client_id(Some("Basic abc"), Some(" 10.0.0.1 , 10.0.0.2"), None, None), "10.0.0.1");
    assert_eq!(extract_client_id(None, None, Some("9.9.9.9"), Some("127.0.0.1")), "9.9.9.9");
    assert_eq!(extract_client_id(None, None, None, Some("127.0.0.1")), "127.0.0.1");
    assert_eq!(extract_client_id(None, None, None, None), "unknown");
    assert_eq!(extract_client_id(Some("Bearer "), None, None, None), "");
}

#[test]
fn gateway_health_from_components() {
    let comps = checked_components();
    assert_eq!(comps.len(), 5);
    assert_eq!(comps[1].name(), "model_engine");
    assert_eq!(GatewayComponent::Queue.check_failed_message(), "Queue health check failed");
    let statuses: Vec<HealthLevel> = vec![
        component_status(Some(HealthLevel::Healthy)),
        component_status(None),
        component_status(Some(HealthLevel::Degraded)),
    ];
    assert_eq!(statuses[1], HealthLevel::Critical);
    assert_eq!(gateway_health(&statuses), (HealthLevel::Critical, false));
    assert_eq!(gateway_health(&vec![HealthLevel::Healthy]), (HealthLevel::Healthy, true));
    assert_eq!(gateway_health(&vec![]), (HealthLevel::Unknown, false));
    let mut c = RequestCounters::new();
    c.begin_request();
    c.begin_request();
    c.end_request();
    assert_eq!((c.active_requests, c.total_requests), (1, 2));
    c.end_request();
    c.end_request();
    assert_eq!(c.active_requests, 0);
}

use mcp_edge_gateway::gateway::performance::PerformanceCache;

#[test]
fn test_performance_cache() {
    // a 1 s time to live; the lookup 1100 ms later finds the entry expired
    let mut cache = PerformanceCache::new(1000, 10);
    cache.put("key1".to_string(), "value1".to_string(), 0);
    let value = cache.get("key1", 0);
    assert_eq!(value, Some("value1".to_string()));
    let expired_value = cache.get("key1", 1100);
    assert_eq!(expired_value, None);
    let stats = cache.stats();
    assert!(stats.misses > 0);
}

#[test]
fn performance_cache_evicts_least_recently_used() {
    let mut cache = PerformanceCache::new(10_000, 2);
    cache.put("a".to_string(), 1u32, 1);
    cache.put("b".to_string(), 2u32, 2);
    assert_eq!(cache.get("a", 3), Some(1));
    cache.put("c".to_string(), 3u32, 4);
    assert_eq!(cache.get("b", 5), None);
    assert_eq!(cache.get("a", 5), Some(1));
    assert_eq!(cache.get("c", 5), Some(3));
    let stats = cache.stats();
    assert_eq!((stats.hits, stats.misses, stats.size, stats.max_size), (3, 1, 2, 2));
    cache.clear_expired(20_000);
    assert_eq!(cache.stats().size, 0);
}

#[test]
fn split_words_agrees_with_std_on_every_white_space_character() {
    let mut text = String::new();
    for code in 0u32..0x3100 {
        if let Some(c) = char::from_u32(code) {
            text.push('x');
            text.push(c);
        }
    }
    let ours: Vec<String> = split_words(&text).into_iter().map(|w| w.into_iter().collect()).collect();
    let std_words: Vec<String> = text.split_whitespace().map(|w| w.to_string()).collect();
    assert_eq!(ours, std_words);
}
