use mcp_edge_gateway::common::utils::{
    CircuitBreaker, CircuitState,
    calculate_percentile, compress_data, decompress_data, format_bytes, validate_device_id, validate_model_id, RateLimiter,
    NANOS_PER_SEC,
};

#[test]
fn test_format_bytes() {
    assert_eq!(format_bytes(1024), "1.00 KB");
    assert_eq!(format_bytes(1048576), "1.00 MB");
    assert_eq!(format_bytes(512), "512 B");
}

#[test]
fn test_validate_model_id() {
    assert!(validate_model_id("model-1.0"));
    assert!(validate_model_id("my_model_v2"));
    assert!(!validate_model_id(""));
    assert!(!validate_model_id("model with spaces"));
}

#[test]
fn format_bytes_rounds_to_two_decimals() {
    assert_eq!(format_bytes(0), "0 B");
    assert_eq!(format_bytes(1023), "1023 B");
    assert_eq!(format_bytes(1536), "1.50 KB");
    assert_eq!(format_bytes(1073741824), "1.00 GB");
    assert_eq!(format_bytes(1099511627776), "1.00 TB");
    assert_eq!(format_bytes(5 * 1099511627776), "5.00 TB");
}

#[test]
fn model_and_device_ids() {
    assert!(!validate_model_id(&"a".repeat(257)));
    assert!(validate_model_id(&"a".repeat(256)));
    // the limit counts UTF-8 bytes: 100 two-byte letters are 200 bytes, 150 are 300
    assert!(validate_model_id(&"é".repeat(100)));
    assert!(!validate_model_id(&"é".repeat(150)));
    assert!(validate_device_id("edge-device_01"));
    assert!(!validate_device_id(""));
    assert!(!validate_device_id("dev.1"));
    assert!(validate_device_id(&"d".repeat(128)));
    assert!(!validate_device_id(&"d".repeat(129)));
}

#[test]
fn compression_round_trip() {
    let data = vec![1u8, 2, 3, 250];
    let packed = compress_data(&data);
    assert_eq!(decompress_data(&packed), Ok(data));
}

#[test]
fn rate_limiter_spends_and_refills_tokens() {
    let mut limiter = RateLimiter::new_at(2, 1, 0);
    assert!(limiter.try_acquire_at(0));
    assert!(limiter.try_acquire_at(0));
    assert!(!limiter.try_acquire_at(0));
    // one token comes back after one second
    assert!(limiter.try_acquire_at(NANOS_PER_SEC));
    assert!(!limiter.try_acquire_at(NANOS_PER_SEC));
}

#[test]
fn test_calculate_percentile() {
    // percentiles in hundredths of a percent: 50 % and 95 %
    let latencies = vec![100, 200, 300, 400, 500];
    assert_eq!(calculate_percentile(latencies.clone(), 5000), 200);
    assert_eq!(calculate_percentile(latencies.clone(), 9500), 400);
    assert_eq!(calculate_percentile(vec![], 9500), 0);
}

#[test]
fn percentile_sorts_first_and_stays_in_range() {
    assert_eq!(calculate_percentile(vec![500, 100, 400, 200, 300], 5000), 200);
    assert_eq!(calculate_percentile(vec![7, 3, 3, 9], 10000), 9);
    assert_eq!(calculate_percentile(vec![7, 3, 3, 9], 20000), 9);
    assert_eq!(calculate_percentile(vec![7, 3, 3, 9], 1), 3);
    assert_eq!(calculate_percentile(vec![42], 9900), 42);
}

#[test]
fn rate_limiter_without_refill_grants_its_capacity() {
    let mut limiter = RateLimiter::new(2, 0);
    assert!(limiter.try_acquire());
    assert!(limiter.try_acquire());
    assert!(!limiter.try_acquire());
}

#[test]
fn rate_limiter_polled_every_half_second_still_refills() {
    let half = NANOS_PER_SEC / 2;
    let mut limiter = RateLimiter::new_at(1, 1, 0);
    assert!(limiter.try_acquire_at(0));
    assert!(!limiter.try_acquire_at(half));
    // the half second already waited counts toward the next token
    assert!(limiter.try_acquire_at(2 * half));
    assert!(!limiter.try_acquire_at(3 * half));
    assert!(limiter.try_acquire_at(4 * half));
}

#[test]
fn sync_breaker_opens_after_threshold_and_recovers() {
    let mut cb = CircuitBreaker::new(2, 1000);
    let fail = || -> Result<u32, String> { Err("down".to_string()) };
    let ok = || -> Result<u32, String> { Ok(7) };
    assert_eq!(cb.call_at(0, fail), Err("down".to_string()));
    assert_eq!(cb.state(), CircuitState::Closed);
    assert_eq!(cb.call_at(NANOS_PER_SEC / 10, fail), Err("down".to_string()));
    assert_eq!(cb.state(), CircuitState::Open);
    // an open breaker still runs the operation but records nothing
    assert_eq!(cb.call_at(NANOS_PER_SEC / 2, ok), Ok(7));
    assert_eq!(cb.state(), CircuitState::Open);
    // after the recovery timeout a success closes it
    assert_eq!(cb.call_at(2 * NANOS_PER_SEC, ok), Ok(7));
    assert_eq!(cb.state(), CircuitState::Closed);
    // through the clock: a success keeps a closed breaker closed
    assert_eq!(cb.call(ok), Ok(7));
    assert_eq!(cb.state(), CircuitState::Closed);
    assert_eq!(cb.call(fail), Err("down".to_string()));
    assert_eq!(cb.call(fail), Err("down".to_string()));
    assert_eq!(cb.state(), CircuitState::Open);
}
