//! Model handling: the LRU model cache and the intelligent cache, the
//! engine's loading decisions, the GGML loader's rules, processor
//! capabilities and buffer pools.

pub mod intelligent_cache;
pub mod performance_optimization;
pub mod loaders;
pub mod cache;
pub mod engine;
