use mcp_edge_gateway::common::autonomous_deployment::{DefaultVulnerabilityUpdater, TrafficManager, VulnerabilityUpdater};
use mcp_edge_gateway::common::config::{GatewayConfig, LoadBalancingAlgorithm, LoadBalancingConfig, ModelsConfig, SecurityConfig, TelemetryConfig};
use mcp_edge_gateway::common::error::Error;
use mcp_edge_gateway::models::loaders::{
    completion_text, load_delay_ms, loaded_memory_mb, metadata_from_name, parse_method, str_contains, tokenize, weight_buffer_len,
    InferenceMethod,
};

#[test]
fn metadata_follows_the_file_name() {
    let m = metadata_from_name("llama-7b-q4");
    assert_eq!(m.parameters, 7_000_000_000);
    assert_eq!(m.quantization, "Q4_0");
    assert_eq!(m.description, "GGML model loaded from llama-7b-q4");
    assert_eq!(m.supported_methods, vec!["completion", "embedding", "chat", "summarization"]);
    let t = metadata_from_name("tiny-13b-q8");
    assert_eq!(t.parameters, 13_000_000_000);
    assert_eq!(t.quantization, "Q8_0");
    let d = metadata_from_name("phi");
    assert_eq!(d.parameters, 1_100_000_000);
    assert_eq!(d.quantization, "F16");
    assert_eq!((d.context_length, d.vocab_size), (2048, 32000));
    assert_eq!(metadata_from_name("x3b").parameters, 3_000_000_000);
}

#[test]
fn substring_search() {
    assert!(str_contains("abcde", "cd"));
    assert!(str_contains("abc", ""));
    assert!(!str_contains("ab", "abc"));
    assert!(!str_contains("abcde", "ce"));
}

#[test]
fn tokens_and_methods() {
    let text = "x".repeat(1002);
    let t = tokenize(&text);
    assert_eq!(t.len(), 1002);
    assert_eq!((t[0], t[999], t[1000], t[1001]), (0, 999, 0, 1));
    assert_eq!(parse_method("chat").unwrap(), InferenceMethod::Chat);
    match parse_method("translate") {
        Err(Error::Model(m)) => assert_eq!(m, "Unsupported method: translate"),
        _ => panic!("expected a model error"),
    }
    assert_eq!(InferenceMethod::Completion.input_parameter(), "prompt");
    assert_eq!(InferenceMethod::Summarization.simulated_latency_ms(10), 220);
    assert_eq!(InferenceMethod::Completion.output_tokens(4), 10);
    assert_eq!(InferenceMethod::Completion.output_tokens(40), 20);
    assert_eq!(InferenceMethod::Chat.output_tokens(90), 30);
    assert_eq!(InferenceMethod::Summarization.output_tokens(20), 5);
    assert_eq!(completion_text(10, 4), "Generated text from 4 tokens");
    assert_eq!(loaded_memory_mb(7_500_000), 57);
    assert_eq!(load_delay_ms(2_000_000_000), 2000);
    assert_eq!(load_delay_ms(1_000), 500);
    assert_eq!(weight_buffer_len(50_000_000_000_000), 10_000_000);
}

#[test]
fn configuration_defaults() {
    let g = GatewayConfig::default();
    assert_eq!((g.bind_address.as_str(), g.port, g.max_connections), ("0.0.0.0", 8080, 1000));
    assert_eq!(g.max_request_size_bytes, 1024 * 1024);
    assert_eq!(g.cors_origins, vec!["*".to_string()]);
    let lb = LoadBalancingConfig::default();
    assert_eq!(lb.algorithm, LoadBalancingAlgorithm::HealthBased);
    let m = ModelsConfig::default();
    assert_eq!(m.models_directory, "./models");
    assert_eq!(m.supported_formats, vec!["ggml", "onnx", "tflite"]);
    let s = SecurityConfig::default();
    assert_eq!(s.encryption_algorithm, "AES-256-GCM");
    assert!(s.cert_path.is_none());
    let t = TelemetryConfig::default();
    assert_eq!((t.metrics_interval_ms, t.retention_days), (10000, 7));
}

#[test]
fn deployment_components_start_empty() {
    let _ = TrafficManager::new();
    let r = DefaultVulnerabilityUpdater::new().update().unwrap();
    assert_eq!((r.vulnerabilities_added, r.vulnerabilities_updated), (0, 0));
}

use mcp_edge_gateway::common::types::ModelFormat;
use mcp_edge_gateway::models::engine::{check_model_capacity, detect_model_format, plan_memory_release, ModelUsage};

fn usage(id: &str, mb: u32, last: u64) -> ModelUsage {
    ModelUsage { id: id.to_string(), memory_usage_mb: mb, last_used_ms: last }
}

#[test]
fn model_formats_by_extension() {
    assert!(matches!(detect_model_format(Some("GGML")), ModelFormat::GGML));
    assert!(matches!(detect_model_format(Some("bin")), ModelFormat::GGML));
    assert!(matches!(detect_model_format(Some("Onnx")), ModelFormat::ONNX));
    assert!(matches!(detect_model_format(Some("tflite")), ModelFormat::TensorFlowLite));
    assert!(matches!(detect_model_format(Some("pt")), ModelFormat::GGML));
    assert!(matches!(detect_model_format(None), ModelFormat::GGML));
}

#[test]
fn least_recently_used_models_make_room() {
    let loaded = vec![usage("a", 100, 30), usage("b", 100, 10), usage("c", 100, 20), usage("d", 50, 10)];
    // 350 loaded + 100 new in a 400 budget: 50 must go; "b" is the oldest (first among equals)
    assert_eq!(plan_memory_release(&loaded, 100, 400), vec!["b".to_string()]);
    // 350 + 300 in 400: 250 must go: b, d, c
    assert_eq!(plan_memory_release(&loaded, 300, 400), vec!["b".to_string(), "d".to_string(), "c".to_string()]);
    assert!(plan_memory_release(&loaded, 50, 400).is_empty());
    assert!(check_model_capacity(2, 3).is_ok());
    match check_model_capacity(3, 3) {
        Err(Error::Model(m)) => assert_eq!(m, "Too many models loaded"),
        _ => panic!("expected a model error"),
    }
}
