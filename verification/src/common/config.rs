//! Configuration sections of the gateway and their default values.
//!
//! File system paths are held as the strings they were written as.

use vstd::prelude::*;
use vstd::string::StringExecFns;

verus! {

/// Gateway configuration
#[derive(Debug, Clone)]
pub struct GatewayConfig {
    pub bind_address: String,
    pub port: u16,
    pub max_connections: u32,
    pub request_timeout_ms: u64,
    pub max_request_size_bytes: u64,
    pub enable_cors: bool,
    pub cors_origins: Vec<String>,
}

/// Cloud endpoint configuration
#[derive(Debug, Clone)]
pub struct CloudEndpoint {
    pub name: String,
    pub url: String,
    pub api_key: Option<String>,
    pub timeout_ms: u64,
    pub max_retries: u32,
}

/// Load balancing configuration
#[derive(Debug, Clone)]
pub struct LoadBalancingConfig {
    pub algorithm: LoadBalancingAlgorithm,
    pub health_check_interval_ms: u64,
    pub failure_threshold: u32,
}

/// Load balancing algorithms
#[derive(Debug, Clone, Copy, PartialEq, Eq, Structural)]
pub enum LoadBalancingAlgorithm {
    RoundRobin,
    LeastConnections,
    WeightedRoundRobin,
    HealthBased,
}

/// Models configuration
#[derive(Debug, Clone)]
pub struct ModelsConfig {
    pub models_directory: String,
    pub cache_size_mb: u32,
    pub max_models_in_memory: u32,
    pub model_timeout_ms: u64,
    pub auto_optimization: bool,
    pub supported_formats: Vec<String>,
}

/// Security configuration
#[derive(Debug, Clone)]
pub struct SecurityConfig {
    pub tpm_enabled: bool,
    pub mutual_tls: bool,
    pub cert_path: Option<String>,
    pub key_path: Option<String>,
    pub ca_cert_path: Option<String>,
    pub device_attestation: bool,
    pub encryption_algorithm: String,
    pub key_rotation_interval_hours: u64,
}

/// Telemetry configuration
#[derive(Debug, Clone)]
pub struct TelemetryConfig {
    pub enabled: bool,
    pub metrics_interval_ms: u64,
    pub export_endpoint: Option<String>,
    pub compression_enabled: bool,
    pub max_buffer_size: u32,
    pub retention_days: u32,
    pub prometheus_enabled: bool,
    pub opentelemetry_enabled: bool,
}

/// Thermal management profiles
#[derive(Debug, Clone, Copy, PartialEq, Eq, Structural)]
pub enum ThermalProfile {
    Passive,
    Moderate,
    Aggressive,
}

/// Power management profiles
#[derive(Debug, Clone, Copy, PartialEq, Eq, Structural)]
pub enum PowerProfile {
    HighPerformance,
    Balanced,
    PowerSaving,
    UltraLowPower,
}

/// Threading model options
#[derive(Debug, Clone, Copy, PartialEq, Eq, Structural)]
pub enum ThreadingModel {
    SingleThreaded,
    MultiThreaded { max_threads: u32 },
    WorkStealing,
}

impl Default for GatewayConfig {
    /// Listens on every interface, port 8080, with CORS open to all origins.
    fn default() -> (r: Self)
        ensures
            r.bind_address@ == "0.0.0.0"@,
            r.port == 8080,
            r.max_connections == 1000,
            r.request_timeout_ms == 30000,
            r.max_request_size_bytes == 1024 * 1024,
            r.enable_cors,
            r.cors_origins@.len() == 1,
            r.cors_origins@[0]@ == "*"@,
    {
        let mut origins: Vec<String> = Vec::new();
        origins.push(String::from_str("*"));
        GatewayConfig {
            bind_address: String::from_str("0.0.0.0"),
            port: 8080,
            max_connections: 1000,
            request_timeout_ms: 30000,
            max_request_size_bytes: 1024 * 1024,
            enable_cors: true,
            cors_origins: origins,
        }
    }
}

impl Default for LoadBalancingConfig {
    /// Health-based balancing, health checks every 30 s, three failures to eject.
    fn default() -> (r: Self)
        ensures
            r.algorithm == LoadBalancingAlgorithm::HealthBased,
            r.health_check_interval_ms == 30000,
            r.failure_threshold == 3,
    {
        LoadBalancingConfig {
            algorithm: LoadBalancingAlgorithm::HealthBased,
            health_check_interval_ms: 30000,
            failure_threshold: 3,
        }
    }
}

impl Default for ModelsConfig {
    /// Models under `./models`, a 512 MB cache, three resident models.
    fn default() -> (r: Self)
        ensures
            r.models_directory@ == "./models"@,
            r.cache_size_mb == 512,
            r.max_models_in_memory == 3,
            r.model_timeout_ms == 60000,
            r.auto_optimization,
            r.supported_formats@.len() == 3,
            r.supported_formats@[0]@ == "ggml"@,
            r.supported_formats@[1]@ == "onnx"@,
            r.supported_formats@[2]@ == "tflite"@,
    {
        let mut formats: Vec<String> = Vec::new();
        formats.push(String::from_str("ggml"));
        formats.push(String::from_str("onnx"));
        formats.push(String::from_str("tflite"));
        ModelsConfig {
            models_directory: String::from_str("./models"),
            cache_size_mb: 512,
            max_models_in_memory: 3,
            model_timeout_ms: 60000,
            auto_optimization: true,
            supported_formats: formats,
        }
    }
}

impl Default for SecurityConfig {
    /// No TPM, no mutual TLS, no certificates, AES-256-GCM keys rotated daily.
    fn default() -> (r: Self)
        ensures
            !r.tpm_enabled,
            !r.mutual_tls,
            r.cert_path is None,
            r.key_path is None,
            r.ca_cert_path is None,
            !r.device_attestation,
            r.encryption_algorithm@ == "AES-256-GCM"@,
            r.key_rotation_interval_hours == 24,
    {
        SecurityConfig {
            tpm_enabled: false,
            mutual_tls: false,
            cert_path: None,
            key_path: None,
            ca_cert_path: None,
            device_attestation: false,
            encryption_algorithm: String::from_str("AES-256-GCM"),
            key_rotation_interval_hours: 24,
        }
    }
}

impl Default for TelemetryConfig {
    /// Metrics every 10 s, compressed, kept 7 days, exported to Prometheus only.
    fn default() -> (r: Self)
        ensures
            r.enabled,
            r.metrics_interval_ms == 10000,
            r.export_endpoint is None,
            r.compression_enabled,
            r.max_buffer_size == 1000,
            r.retention_days == 7,
            r.prometheus_enabled,
            !r.opentelemetry_enabled,
    {
        TelemetryConfig {
            enabled: true,
            metrics_interval_ms: 10000,
            export_endpoint: None,
            compression_enabled: true,
            max_buffer_size: 1000,
            retention_days: 7,
            prometheus_enabled: true,
            opentelemetry_enabled: false,
        }
    }
}

} // verus!
