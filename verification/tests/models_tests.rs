use mcp_edge_gateway::models::performance_optimization::{MemoryPool, PerformanceProcessor};

#[test]
fn test_processor_creation() {
    // every feature set the CPU can report gives a usable processor
    for (avx2, sse4) in [(false, false), (false, true), (true, false), (true, true)] {
        let processor = PerformanceProcessor::from_features(avx2, sse4);
        println!("Capabilities: {}", processor.get_capabilities());
        assert!(processor.vector_size() > 0);
    }
}

#[test]
fn processor_capability_strings() {
    assert_eq!(PerformanceProcessor::from_features(true, true).get_capabilities(), "AVX2, SSE4.1");
    assert_eq!(PerformanceProcessor::from_features(true, false).get_capabilities(), "AVX2");
    assert_eq!(PerformanceProcessor::from_features(false, true).get_capabilities(), "SSE4.1");
    assert_eq!(PerformanceProcessor::from_features(false, false).get_capabilities(), "Optimized-Scalar");
    assert_eq!(PerformanceProcessor::from_features(true, false).vector_size(), 8);
    assert_eq!(PerformanceProcessor::from_features(false, true).vector_size(), 4);
}

#[test]
fn test_memory_pool() {
    let mut pool = MemoryPool::<f32>::new(100, 5);

    let buffer = pool.get_buffer().unwrap();
    assert_eq!(buffer.len(), 100);

    // share of the pool's buffers that are handed out
    let utilization = 1.0 - pool.available() as f32 / pool.pool_size() as f32;
    assert!(utilization > 0.0);

    pool.return_buffer(buffer);
    assert_eq!(pool.available(), 5);
}

#[test]
fn memory_pool_rejects_foreign_buffers() {
    let mut pool = MemoryPool::<u8>::new(4, 2);
    pool.return_buffer(vec![1, 2, 3, 4]);
    assert_eq!(pool.available(), 2);
    let b = pool.get_buffer().unwrap();
    pool.return_buffer(vec![9, 9]);
    assert_eq!(pool.available(), 1);
    pool.return_buffer(b);
    assert_eq!(pool.available(), 2);
    let reset = pool.get_buffer().unwrap();
    assert_eq!(reset, vec![0, 0, 0, 0]);
    let mut empty = MemoryPool::<u8>::new(3, 0);
    assert!(empty.get_buffer().is_none());
}
