//! Data model of self-healing: failure, severity, remediation, risk and
//! evidence classifications, and the stateless remediation components.

use vstd::prelude::*;

verus! {

#[derive(Debug, Clone, PartialEq, Eq, Hash, Copy, Structural)]
pub enum FailureType {
    ServiceUnavailable,
    PerformanceDegradation,
    ResourceExhaustion,
    NetworkPartition,
    DatabaseConnection,
    AuthenticationFailure,
    ConfigurationError,
    DependencyFailure,
    HardwareFailure,
    SecurityBreach,
    DataCorruption,
    CapacityOverload,
}

#[derive(Debug, Clone, Copy, PartialEq, Eq, Structural)]
pub enum SeverityLevel {
    Info,
    Warning,
    Error,
    Critical,
    Emergency,
}

#[derive(Debug, Clone, PartialEq, Copy, Eq, Structural)]
pub enum RemediationActionType {
    RestartService,
    ScaleResources,
    SwitchToBackup,
    ClearCache,
    ReestablishConnections,
    UpdateConfiguration,
    IsolateComponent,
    RollbackDeployment,
    TriggerCircuitBreaker,
    ApplyPatch,
    RebalanceLoad,
    EvictUnhealthyNodes,
}

#[derive(Debug, Clone, Copy, PartialEq, Eq, Structural)]
pub enum RiskLevel {
    NoRisk,
    Low,
    Medium,
    High,
    Critical,
}

#[derive(Debug, Clone, Copy, PartialEq, Eq, Structural)]
pub enum ImpactLevel {
    NoImpact,
    LowImpact,
    MediumImpact,
    HighImpact,
}

#[derive(Debug, Clone, Copy, PartialEq, Eq, Structural)]
pub enum NetworkStatus {
    Healthy,
    Degraded,
    Partitioned,
    Offline,
}

#[derive(Debug, Clone, Copy, PartialEq, Eq, Structural)]
pub enum ServiceHealthStatus {
    Healthy,
    Degraded,
    Failing,
    Unavailable,
}

#[derive(Debug, Clone)]
pub struct AvailableResources {
    pub cpu_cores_available: u32,
    pub memory_mb_available: u64,
    pub disk_gb_available: u64,
    pub network_bandwidth_mbps: u32,
    pub backup_instances: u32,
}

#[derive(Debug, Clone, Copy, PartialEq, Eq, Structural)]
pub enum ComplexityLevel {
    Simple,
    Moderate,
    Complex,
    Critical,
}

#[derive(Debug, Clone, Copy, PartialEq, Eq, Structural)]
pub enum HealthCheckType {
    Endpoint,
    Database,
    Cache,
    Queue,
    FileSystem,
    Memory,
    CPU,
    Network,
    External,
}

#[derive(Debug, Clone, Copy, PartialEq, Eq, Structural)]
pub enum HealthLevel {
    Excellent,
    Good,
    Fair,
    Poor,
    Critical,
}

#[derive(Debug, Clone, Copy, PartialEq, Eq, Structural)]
pub enum ModelType {
    LogisticRegression,
    RandomForest,
    NeuralNetwork,
    LSTM,
    Ensemble,
}

#[derive(Debug, Clone, Copy, PartialEq, Eq, Structural)]
pub enum CausalityDirection {
    Forward,
    Backward,
    Bidirectional,
    Unknown,
}

#[derive(Debug, Clone)]
pub struct ExpertValidation {
    pub reviewer: String,
    pub approved: bool,
    pub feedback: String,
    pub risk_assessment: RiskLevel,
}

#[derive(Debug, Clone)]
pub struct FailureCatalogEntry {
    pub description: String,
    pub common_causes: Vec<String>,
    pub symptoms: Vec<String>,
    pub diagnostic_steps: Vec<String>,
    pub recommended_actions: Vec<RemediationActionType>,
    pub prevention_strategies: Vec<String>,
}

#[derive(Debug, Clone)]
pub struct BestPractice {
    pub title: String,
    pub description: String,
    pub applicability: Vec<FailureType>,
    pub evidence_quality: EvidenceQuality,
    pub implementation_complexity: ComplexityLevel,
}

#[derive(Debug, Clone, Copy, PartialEq, Eq, Structural)]
pub enum EvidenceQuality {
    Anecdotal,
    CaseStudy,
    Empirical,
    PeerReviewed,
    IndustryStandard,
}

#[derive(Debug, Clone, Copy, PartialEq, Eq, Structural)]
pub enum ValidationStatus {
    Proposed,
    UnderReview,
    Validated,
    Deprecated,
}

#[derive(Debug, Clone, Copy, PartialEq, Eq, Structural)]
pub enum FeedbackType {
    Success,
    Failure,
    Improvement,
    BugReport,
    FeatureRequest,
}

#[derive(Debug, Clone, Copy, PartialEq, Eq, Structural)]
pub enum FeedbackSource {
    AutomatedSystem,
    HumanOperator,
    ExternalMonitor,
    UserReport,
}

#[derive(Debug, Clone, Copy, PartialEq, Eq, Structural)]
pub enum EffortLevel {
    Low,
    Medium,
    High,
    VeryHigh,
}

/// Remediation that restarts the failing service.
pub struct ServiceRestartImplementation;

impl ServiceRestartImplementation {
    /// Creates the component; it holds no state.
    pub fn new() -> (r: Self)
        ensures
            r == (ServiceRestartImplementation),
    {
        ServiceRestartImplementation
    }
}

/// Remediation that scales the resources of the failing service.
pub struct ResourceScalingImplementation;

impl ResourceScalingImplementation {
    /// Creates the component; it holds no state.
    pub fn new() -> (r: Self)
        ensures
            r == (ResourceScalingImplementation),
    {
        ResourceScalingImplementation
    }
}

/// Matcher of failure patterns against known signatures.
pub struct DefaultPatternMatcher;

impl DefaultPatternMatcher {
    /// Creates the component; it holds no state.
    pub fn new() -> (r: Self)
        ensures
            r == (DefaultPatternMatcher),
    {
        DefaultPatternMatcher
    }
}

/// Tuner of failure-prediction model hyperparameters.
pub struct DefaultHyperparameterTuner;

impl DefaultHyperparameterTuner {
    /// Creates the component; it holds no state.
    pub fn new() -> (r: Self)
        ensures
            r == (DefaultHyperparameterTuner),
    {
        DefaultHyperparameterTuner
    }
}

/// Analyzer of remediation feedback.
pub struct DefaultFeedbackAnalyzer;

impl DefaultFeedbackAnalyzer {
    /// Creates the component; it holds no state.
    pub fn new() -> (r: Self)
        ensures
            r == (DefaultFeedbackAnalyzer),
    {
        DefaultFeedbackAnalyzer
    }
}

} // verus!
