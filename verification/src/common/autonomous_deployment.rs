//! Data model of autonomous deployment: environments, strategies, network,
//! security and artifact descriptions, and the deployment subsystems.

use crate::common::circuit_breaker::CircuitBreaker;
use crate::common::error::Error;
use crate::common::utils::system_time_now;
use std::collections::HashMap;
use std::sync::Arc;
use std::time::{Duration, SystemTime};
use vstd::prelude::*;

verus! {

/// Release pipeline definition.
pub struct ReleasePipeline;

impl Default for ReleasePipeline {
    fn default() -> (r: Self)
        ensures
            r == (ReleasePipeline),
    {
        ReleasePipeline
    }
}

/// Per-route rate limiter used during traffic shifting.
pub struct RateLimiter;

/// Intelligent release management with automated decision making
pub struct ReleaseManager {
    release_pipeline: ReleasePipeline,
    gate_evaluator: Arc<QualityGateEvaluator>,
    risk_assessor: Arc<RiskAssessor>,
    release_calendar: ReleaseCalendar,
    feature_flags: Arc<FeatureFlagManager>,
}

impl ReleaseManager {
    /// Creates a release manager with a default pipeline and fresh components.
    pub fn new() -> (r: Self)
        ensures
            r.release_pipeline_is_default(),
    {
        ReleaseManager {
            release_pipeline: ReleasePipeline::default(),
            gate_evaluator: Arc::new(QualityGateEvaluator::new()),
            risk_assessor: Arc::new(RiskAssessor::new()),
            release_calendar: ReleaseCalendar::new(),
            feature_flags: Arc::new(FeatureFlagManager::new()),
        }
    }

    /// The release pipeline is the default one.
    pub closed spec fn release_pipeline_is_default(&self) -> bool {
        self.release_pipeline == ReleasePipeline
    }
}

/// Advanced traffic management for gradual rollouts
pub struct TrafficManager {
    traffic_router: Arc<IntelligentTrafficRouter>,
    load_balancer: Arc<AdaptiveLoadBalancer>,
    circuit_breakers: HashMap<String, CircuitBreaker>,
    rate_limiters: HashMap<String, RateLimiter>,
}

impl TrafficManager {
    /// Creates a traffic manager with no circuit breakers and no rate limiters.
    pub fn new() -> (r: Self)
        ensures
            r.circuit_breaker_count() == 0,
            r.rate_limiter_count() == 0,
    {
        TrafficManager {
            traffic_router: Arc::new(IntelligentTrafficRouter::new()),
            load_balancer: Arc::new(AdaptiveLoadBalancer::new()),
            circuit_breakers: HashMap::new(),
            rate_limiters: HashMap::new(),
        }
    }

    /// Number of routes guarded by a circuit breaker.
    pub closed spec fn circuit_breaker_count(&self) -> nat {
        self.circuit_breakers@.len()
    }

    /// Number of routes guarded by a rate limiter.
    pub closed spec fn rate_limiter_count(&self) -> nat {
        self.rate_limiters@.len()
    }
}

/// Comprehensive deployment monitoring with ML-powered insights
pub struct DeploymentMonitoring {
    metrics_collector: Arc<DeploymentMetricsCollector>,
    anomaly_detector: Arc<DeploymentAnomalyDetector>,
    sli_monitor: Arc<SLIMonitor>,
    alert_manager: Arc<DeploymentAlertManager>,
}

impl DeploymentMonitoring {
    /// Creates the monitoring subsystem from fresh components.
    pub fn new() -> (r: Self)
        ensures
            r.has_fresh_components(),
    {
        DeploymentMonitoring {
            metrics_collector: Arc::new(DeploymentMetricsCollector::new()),
            anomaly_detector: Arc::new(DeploymentAnomalyDetector::new()),
            sli_monitor: Arc::new(SLIMonitor::new()),
            alert_manager: Arc::new(DeploymentAlertManager::new()),
        }
    }

    /// Each monitoring component is a freshly created one.
    pub closed spec fn has_fresh_components(&self) -> bool {
        &&& *self.metrics_collector == DeploymentMetricsCollector
        &&& *self.anomaly_detector == DeploymentAnomalyDetector
        &&& *self.sli_monitor == SLIMonitor
        &&& *self.alert_manager == DeploymentAlertManager
    }
}

/// Automated rollback system with intelligent decision making
pub struct AutomatedRollbackSystem {
    rollback_strategies: Vec<RollbackStrategy>,
    decision_engine: Arc<RollbackDecisionEngine>,
    execution_engine: Arc<RollbackExecutionEngine>,
    validation_system: Arc<RollbackValidationSystem>,
}

impl AutomatedRollbackSystem {
    /// Creates a rollback system with no registered rollback strategies.
    pub fn new() -> (r: Self)
        ensures
            r.strategies().len() == 0,
    {
        AutomatedRollbackSystem {
            rollback_strategies: Vec::new(),
            decision_engine: Arc::new(RollbackDecisionEngine::new()),
            execution_engine: Arc::new(RollbackExecutionEngine::new()),
            validation_system: Arc::new(RollbackValidationSystem::new()),
        }
    }

    /// The registered rollback strategies, in order.
    pub closed spec fn strategies(&self) -> Seq<RollbackStrategy> {
        self.rollback_strategies@
    }
}

/// Source of vulnerability database updates.
pub trait VulnerabilityUpdater {
    /// Refreshes the vulnerability database.
    fn update(&self) -> Result<VulnerabilityUpdateResult, Error>;
}

impl VulnerabilityUpdater for DefaultVulnerabilityUpdater {
    /// Reports an update that added and changed nothing, stamped now.
    fn update(&self) -> (r: Result<VulnerabilityUpdateResult, Error>)
        ensures
            r is Ok,
            r->Ok_0.vulnerabilities_added == 0,
            r->Ok_0.vulnerabilities_updated == 0,
    {
        Ok(VulnerabilityUpdateResult {
            vulnerabilities_added: 0,
            vulnerabilities_updated: 0,
            last_update: system_time_now(),
        })
    }
}

#[derive(Debug, Clone, Copy, PartialEq, Eq, Structural)]
pub enum DeploymentEventType {
    Started,
    PhaseCompleted,
    TrafficShiftCompleted,
    MonitoringCheckPassed,
    MonitoringCheckFailed,
    RollbackTriggered,
    RollbackCompleted,
    Completed,
    Failed,
    Cancelled,
}

#[derive(Debug, Clone, PartialEq, Eq, Hash)]
pub enum Environment {
    Development,
    Staging,
    Production,
    EdgeZone(String),
    MultiRegion(Vec<String>),
}

#[derive(Debug, Clone, Copy, PartialEq, Eq, Structural)]
pub enum DeploymentStatus {
    Pending,
    Running,
    Paused,
    Completed,
    Failed,
    RolledBack,
    Cancelled,
}

#[derive(Debug, Clone, PartialEq, Eq, Hash, Copy, Structural)]
pub enum DeploymentStrategy {
    BlueGreen,
    Canary,
    RollingUpdate,
    Recreate,
    ImmutableInfrastructure,
    FeatureToggle,
    Shadow,
    ABTesting,
}

#[derive(Debug, Clone)]
pub struct BuildMetadata {
    pub commit_sha: String,
    pub branch: String,
    pub build_time: SystemTime,
    pub builder: String,
    pub build_environment: HashMap<String, String>,
}

#[derive(Debug, Clone)]
pub struct NetworkConfiguration {
    pub ports: Vec<NetworkPort>,
    pub load_balancer_config: LoadBalancerConfig,
    pub ingress_rules: Vec<IngressRule>,
    pub egress_rules: Vec<EgressRule>,
}

#[derive(Debug, Clone)]
pub struct NetworkPort {
    pub port: u16,
    pub protocol: String,
    pub health_check_path: Option<String>,
}

#[derive(Debug, Clone)]
pub struct LoadBalancerConfig {
    pub algorithm: LoadBalancingAlgorithm,
    pub health_check_interval: Duration,
    pub unhealthy_threshold: u32,
    pub healthy_threshold: u32,
}

#[derive(Debug, Clone, Copy, PartialEq, Eq, Structural)]
pub enum LoadBalancingAlgorithm {
    RoundRobin,
    LeastConnections,
    WeightedRoundRobin,
    IpHash,
    LeastResponseTime,
}

#[derive(Debug)]
pub struct IngressRule {
    pub source: String,
    pub protocol: String,
    pub port_range: (u16, u16),
    pub action: NetworkAction,
}

impl Clone for IngressRule {
    fn clone(&self) -> (r: Self)
        ensures
            r == *self,
    {
        IngressRule {
            source: self.source.clone(),
            protocol: self.protocol.clone(),
            port_range: (self.port_range.0, self.port_range.1),
            action: self.action,
        }
    }
}

#[derive(Debug)]
pub struct EgressRule {
    pub destination: String,
    pub protocol: String,
    pub port_range: (u16, u16),
    pub action: NetworkAction,
}

impl Clone for EgressRule {
    fn clone(&self) -> (r: Self)
        ensures
            r == *self,
    {
        EgressRule {
            destination: self.destination.clone(),
            protocol: self.protocol.clone(),
            port_range: (self.port_range.0, self.port_range.1),
            action: self.action,
        }
    }
}

#[derive(Debug, Clone, Copy, PartialEq, Eq, Structural)]
pub enum NetworkAction {
    Allow,
    Deny,
    Log,
}

#[derive(Debug, Clone, Copy, PartialEq, Eq, Structural)]
pub enum LogLevel {
    Trace,
    Debug,
    Info,
    Warn,
    Error,
}

#[derive(Debug, Clone, Copy, PartialEq, Eq, Structural)]
pub enum AlertSeverity {
    Info,
    Warning,
    Critical,
    Emergency,
}

#[derive(Debug, Clone, Copy, PartialEq, Eq, Structural)]
pub enum DeploymentActionType {
    CreateInstance,
    UpdateConfiguration,
    StartService,
    StopService,
    ScaleInstances,
    UpdateLoadBalancer,
    RunHealthCheck,
    WaitForStability,
    ShiftTraffic,
    RunSmokeTests,
    UpdateDNS,
    NotifyStakeholders,
}

#[derive(Debug, Clone, Copy, PartialEq, Eq, Structural)]
pub enum ValidatorType {
    HealthCheck,
    MetricsCheck,
    LoadTest,
    SecurityScan,
    ComplianceCheck,
    UserAcceptanceTest,
    PerformanceBenchmark,
}

#[derive(Debug, Clone, Copy, PartialEq, Eq, Structural)]
pub enum GateFailureAction {
    StopDeployment,
    TriggerRollback,
    PauseForApproval,
    ContinueWithWarning,
}

#[derive(Debug, Clone, Copy, PartialEq, Eq, Structural)]
pub enum RollbackStrategy {
    Immediate,
    Gradual,
    BlueGreenSwitch,
    CanaryRollback,
    DatabaseFirst,
}

#[derive(Debug, Clone, Copy, PartialEq, Eq, Structural)]
pub enum RollbackActionType {
    RestorePreviousVersion,
    RevertConfiguration,
    RestoreDatabase,
    UpdateLoadBalancer,
    ScaleDown,
    NotifyIncident,
}

#[derive(Debug, Clone)]
pub struct DataPreservationStep {
    pub name: String,
    pub backup_location: String,
    pub encryption_key: Option<String>,
    pub retention_period: Duration,
}

#[derive(Debug, Clone, PartialEq, Eq, Hash, Copy, Structural)]
pub enum ApprovalType {
    AutomatedQualityGate,
    SecurityReview,
    BusinessApproval,
    TechnicalReview,
    ComplianceCheck,
    RiskAssessment,
}

#[derive(Debug, Clone)]
pub struct EscalationLevel {
    pub approvers: Vec<String>,
    pub notification_channels: Vec<String>,
    pub require_all_approvals: bool,
}

#[derive(Debug, Clone, Copy, PartialEq, Eq, Structural)]
pub enum IssueSeverity {
    Low,
    Medium,
    High,
    Critical,
}

#[derive(Debug, Clone, Copy, PartialEq, Eq, Structural)]
pub enum PhaseStatus {
    Pending,
    Running,
    Completed,
    Failed,
    Skipped,
}

#[derive(Debug, Clone, Copy, PartialEq, Eq, Structural)]
pub enum TrendDirection {
    Increasing,
    Decreasing,
    Stable,
    Volatile,
}

#[derive(Debug, Clone, Copy, PartialEq, Eq, Structural)]
pub enum QuotaEnforcementPolicy {
    Strict,
    Warning,
    Throttling,
    BestEffort,
}

#[derive(Debug, Clone, Copy, PartialEq, Eq, Structural)]
pub enum NetworkPerformanceLevel {
    Low,
    Moderate,
    High,
    VeryHigh,
}

#[derive(Debug, Clone)]
pub struct PlacementConstraint {
    pub constraint_type: ConstraintType,
    pub target: String,
    pub policy: PlacementPolicy,
}

#[derive(Debug, Clone, Copy, PartialEq, Eq, Structural)]
pub enum ConstraintType {
    AntiAffinity,
    Affinity,
    Zone,
    Instance,
    Label,
}

#[derive(Debug, Clone, Copy, PartialEq, Eq, Structural)]
pub enum PlacementPolicy {
    Required,
    Preferred,
    Avoided,
}

#[derive(Debug, Clone, Copy, PartialEq, Eq, Structural)]
pub enum StorageType {
    HDD,
    SSD,
    NVMe,
    Network,
}

#[derive(Debug, Clone)]
pub struct BackupPolicy {
    pub enabled: bool,
    pub frequency: Duration,
    pub retention_period: Duration,
    pub encryption: bool,
    pub cross_region_replication: bool,
}

#[derive(Debug, Clone)]
pub struct EncryptionConfig {
    pub encryption_at_rest: bool,
    pub encryption_in_transit: bool,
    pub key_management: KeyManagementConfig,
}

#[derive(Debug, Clone)]
pub struct KeyManagementConfig {
    pub key_provider: KeyProvider,
    pub key_rotation_period: Duration,
    pub key_backup: bool,
}

#[derive(Debug, Clone, Copy, PartialEq, Eq, Structural)]
pub enum KeyProvider {
    Internal,
    AwsKms,
    AzureKeyVault,
    GoogleKms,
    HashiCorpVault,
}

#[derive(Debug, Clone)]
pub struct SecurityConfiguration {
    pub network_policies: Vec<NetworkPolicy>,
    pub access_policies: Vec<AccessPolicy>,
    pub audit_config: AuditConfig,
}

#[derive(Debug, Clone)]
pub struct NetworkPolicy {
    pub name: String,
    pub ingress_rules: Vec<IngressRule>,
    pub egress_rules: Vec<EgressRule>,
    pub default_action: NetworkAction,
}

#[derive(Debug, Clone)]
pub struct AccessPolicy {
    pub name: String,
    pub subjects: Vec<String>,
    pub resources: Vec<String>,
    pub actions: Vec<String>,
    pub effect: PolicyEffect,
}

#[derive(Debug, Clone, Copy, PartialEq, Eq, Structural)]
pub enum PolicyEffect {
    Allow,
    Deny,
}

#[derive(Debug, Clone)]
pub struct AuditConfig {
    pub enabled: bool,
    pub log_level: AuditLogLevel,
    pub retention_period: Duration,
    pub encryption: bool,
}

#[derive(Debug, Clone, Copy, PartialEq, Eq, Structural)]
pub enum AuditLogLevel {
    Metadata,
    Request,
    RequestResponse,
}

#[derive(Debug, Clone, Copy, PartialEq, Eq, Structural)]
pub enum SecurityPolicyType {
    Network,
    Access,
    Data,
    Runtime,
    Compliance,
}

#[derive(Debug, Clone, Copy, PartialEq, Eq, Structural)]
pub enum SecurityAction {
    Allow,
    Block,
    Quarantine,
    Alert,
    Log,
}

#[derive(Debug, Clone, Copy, PartialEq, Eq, Structural)]
pub enum SecuritySeverity {
    Low,
    Medium,
    High,
    Critical,
}

#[derive(Debug, Clone, Copy, PartialEq, Eq, Structural)]
pub enum EnforcementMode {
    Enforcing,
    Monitoring,
    Disabled,
}

#[derive(Debug, Clone, Copy, PartialEq, Eq, Structural)]
pub enum ComplianceFramework {
    SOC2,
    ISO27001,
    GDPR,
    HIPAA,
    PciDss,
    FedRAMP,
}

#[derive(Debug, Clone, Copy, PartialEq, Eq, Structural)]
pub enum ValidationMethod {
    Automated,
    Manual,
    Hybrid,
}

#[derive(Debug, Clone, Copy, PartialEq, Eq, Structural)]
pub enum InfrastructureStatus {
    Provisioning,
    Ready,
    Updating,
    Error,
    Terminating,
}

#[derive(Debug, Clone)]
pub struct ValidationError {
    pub field: String,
    pub message: String,
    pub severity: ValidationSeverity,
}

#[derive(Debug, Clone)]
pub struct ValidationWarning {
    pub field: String,
    pub message: String,
    pub suggestion: Option<String>,
}

#[derive(Debug, Clone, Copy, PartialEq, Eq, Structural)]
pub enum ValidationSeverity {
    Error,
    Warning,
    Info,
}

#[derive(Debug, Clone)]
pub struct ArtifactFilter {
    pub name_pattern: Option<String>,
    pub version_range: Option<VersionRange>,
    pub tags: HashMap<String, String>,
    pub created_after: Option<SystemTime>,
    pub created_before: Option<SystemTime>,
}

#[derive(Debug, Clone)]
pub struct VersionRange {
    pub min_version: String,
    pub max_version: String,
    pub include_prereleases: bool,
}

#[derive(Debug, Clone)]
pub struct ArtifactMetadata {
    pub artifact_id: String,
    pub name: String,
    pub version: String,
    pub size_bytes: u64,
    pub checksum: String,
    pub created_at: SystemTime,
    pub tags: HashMap<String, String>,
}

#[derive(Debug, Clone)]
pub struct BuildSpecification {
    pub source_repository: String,
    pub source_branch: String,
    pub build_configuration: BuildConfiguration,
    pub target_platforms: Vec<TargetPlatform>,
}

#[derive(Debug, Clone)]
pub struct BuildConfiguration {
    pub build_command: String,
    pub build_environment: HashMap<String, String>,
    pub build_dependencies: Vec<String>,
    pub test_command: Option<String>,
    pub artifact_paths: Vec<String>,
}

#[derive(Debug, Clone)]
pub struct TargetPlatform {
    pub architecture: String,
    pub operating_system: String,
    pub variant: Option<String>,
}

#[derive(Debug, Clone, Copy, PartialEq, Eq, Structural)]
pub enum BuildStatus {
    Queued,
    Running,
    Completed,
    Failed,
    Cancelled,
}

#[derive(Debug, Clone, Copy, PartialEq, Eq, Structural)]
pub enum VulnerabilitySeverity {
    Low,
    Medium,
    High,
    Critical,
}

#[derive(Debug, Clone)]
pub struct VulnerabilityUpdateResult {
    pub vulnerabilities_added: u32,
    pub vulnerabilities_updated: u32,
    pub last_update: SystemTime,
}

/// Evaluator of release quality gates.
pub struct QualityGateEvaluator;

impl QualityGateEvaluator {
    /// Creates the component; it holds no state.
    pub fn new() -> (r: Self)
        ensures
            r == (QualityGateEvaluator),
    {
        QualityGateEvaluator
    }
}

/// Assessor of release risk.
pub struct RiskAssessor;

impl RiskAssessor {
    /// Creates the component; it holds no state.
    pub fn new() -> (r: Self)
        ensures
            r == (RiskAssessor),
    {
        RiskAssessor
    }
}

/// Calendar of release windows.
pub struct ReleaseCalendar;

impl ReleaseCalendar {
    /// Creates the component; it holds no state.
    pub fn new() -> (r: Self)
        ensures
            r == (ReleaseCalendar),
    {
        ReleaseCalendar
    }
}

/// Manager of feature flags.
pub struct FeatureFlagManager;

impl FeatureFlagManager {
    /// Creates the component; it holds no state.
    pub fn new() -> (r: Self)
        ensures
            r == (FeatureFlagManager),
    {
        FeatureFlagManager
    }
}

/// Router that shifts traffic between versions.
pub struct IntelligentTrafficRouter;

impl IntelligentTrafficRouter {
    /// Creates the component; it holds no state.
    pub fn new() -> (r: Self)
        ensures
            r == (IntelligentTrafficRouter),
    {
        IntelligentTrafficRouter
    }
}

/// Load balancer that adapts to deployment state.
pub struct AdaptiveLoadBalancer;

impl AdaptiveLoadBalancer {
    /// Creates the component; it holds no state.
    pub fn new() -> (r: Self)
        ensures
            r == (AdaptiveLoadBalancer),
    {
        AdaptiveLoadBalancer
    }
}

/// Collector of deployment metrics.
pub struct DeploymentMetricsCollector;

impl DeploymentMetricsCollector {
    /// Creates the component; it holds no state.
    pub fn new() -> (r: Self)
        ensures
            r == (DeploymentMetricsCollector),
    {
        DeploymentMetricsCollector
    }
}

/// Detector of deployment anomalies.
pub struct DeploymentAnomalyDetector;

impl DeploymentAnomalyDetector {
    /// Creates the component; it holds no state.
    pub fn new() -> (r: Self)
        ensures
            r == (DeploymentAnomalyDetector),
    {
        DeploymentAnomalyDetector
    }
}

/// Monitor of service level indicators.
pub struct SLIMonitor;

impl SLIMonitor {
    /// Creates the component; it holds no state.
    pub fn new() -> (r: Self)
        ensures
            r == (SLIMonitor),
    {
        SLIMonitor
    }
}

/// Manager of deployment alerts.
pub struct DeploymentAlertManager;

impl DeploymentAlertManager {
    /// Creates the component; it holds no state.
    pub fn new() -> (r: Self)
        ensures
            r == (DeploymentAlertManager),
    {
        DeploymentAlertManager
    }
}

/// Engine that decides on rollbacks.
pub struct RollbackDecisionEngine;

impl RollbackDecisionEngine {
    /// Creates the component; it holds no state.
    pub fn new() -> (r: Self)
        ensures
            r == (RollbackDecisionEngine),
    {
        RollbackDecisionEngine
    }
}

/// Engine that executes rollbacks.
pub struct RollbackExecutionEngine;

impl RollbackExecutionEngine {
    /// Creates the component; it holds no state.
    pub fn new() -> (r: Self)
        ensures
            r == (RollbackExecutionEngine),
    {
        RollbackExecutionEngine
    }
}

/// Validation of completed rollbacks.
pub struct RollbackValidationSystem;

impl RollbackValidationSystem {
    /// Creates the component; it holds no state.
    pub fn new() -> (r: Self)
        ensures
            r == (RollbackValidationSystem),
    {
        RollbackValidationSystem
    }
}

/// Approval engine driven by release risk.
pub struct RiskBasedApprovalEngine;

impl RiskBasedApprovalEngine {
    /// Creates the component; it holds no state.
    pub fn new() -> (r: Self)
        ensures
            r == (RiskBasedApprovalEngine),
    {
        RiskBasedApprovalEngine
    }
}

/// Notification of deployment stakeholders.
pub struct StakeholderNotificationSystem;

impl StakeholderNotificationSystem {
    /// Creates the component; it holds no state.
    pub fn new() -> (r: Self)
        ensures
            r == (StakeholderNotificationSystem),
    {
        StakeholderNotificationSystem
    }
}

/// Configuration store kept in memory.
pub struct InMemoryConfigurationStore;

impl InMemoryConfigurationStore {
    /// Creates the component; it holds no state.
    pub fn new() -> (r: Self)
        ensures
            r == (InMemoryConfigurationStore),
    {
        InMemoryConfigurationStore
    }
}

/// Configuration validator that accepts every configuration.
pub struct DefaultConfigurationValidator;

impl DefaultConfigurationValidator {
    /// Creates the component; it holds no state.
    pub fn new() -> (r: Self)
        ensures
            r == (DefaultConfigurationValidator),
    {
        DefaultConfigurationValidator
    }
}

/// Artifact store on the local machine.
pub struct LocalArtifactStore;

impl LocalArtifactStore {
    /// Creates the component; it holds no state.
    pub fn new() -> (r: Self)
        ensures
            r == (LocalArtifactStore),
    {
        LocalArtifactStore
    }
}

/// Artifact scanner that reports no vulnerabilities.
pub struct DefaultArtifactScanner;

impl DefaultArtifactScanner {
    /// Creates the component; it holds no state.
    pub fn new() -> (r: Self)
        ensures
            r == (DefaultArtifactScanner),
    {
        DefaultArtifactScanner
    }
}

/// Artifact builder that reports every build as successful.
pub struct DefaultArtifactBuilder;

impl DefaultArtifactBuilder {
    /// Creates the component; it holds no state.
    pub fn new() -> (r: Self)
        ensures
            r == (DefaultArtifactBuilder),
    {
        DefaultArtifactBuilder
    }
}

/// Vulnerability database updater that finds nothing new.
pub struct DefaultVulnerabilityUpdater;

impl DefaultVulnerabilityUpdater {
    /// Creates the component; it holds no state.
    pub fn new() -> (r: Self)
        ensures
            r == (DefaultVulnerabilityUpdater),
    {
        DefaultVulnerabilityUpdater
    }
}

} // verus!
