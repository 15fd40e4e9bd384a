//! Data model of autonomous scaling: event, trigger, risk, constraint and
//! workload classifications, and the stateless scaling components.

use std::collections::HashMap;
use std::time::Duration;
use vstd::prelude::*;

verus! {

#[derive(Debug, Clone, Copy, PartialEq, Eq, Structural)]
pub enum ScalingEventType {
    ScaleUp,
    ScaleDown,
    ScaleOut,
    ScaleIn,
    Optimization,
    Emergency,
    Predictive,
    Manual,
}

#[derive(Debug, Clone, Copy, PartialEq, Eq, Structural)]
pub enum ScalingTriggerReason {
    CPUThreshold,
    MemoryThreshold,
    NetworkThreshold,
    QueueDepth,
    ResponseTime,
    ErrorRate,
    PredictiveLoad,
    CostOptimization,
    ResourceEfficiency,
    ScheduledMaintenance,
    ExternalEvent,
}

#[derive(Debug, Clone, PartialEq, Eq, Hash, Copy, Structural)]
pub enum ScalingStrategy {
    Horizontal,
    Vertical,
    Diagonal,
    Predictive,
    Reactive,
    Scheduled,
    Adaptive,
    CostOptimized,
    Performance,
    Hybrid,
}

pub struct DefaultScalingStrategy;

#[derive(Debug, Clone)]
pub struct ResourceIntensity {
    pub cpu_intensity: IntensityLevel,
    pub memory_intensity: IntensityLevel,
    pub io_intensity: IntensityLevel,
    pub network_intensity: IntensityLevel,
    pub storage_intensity: IntensityLevel,
}

#[derive(Debug, Clone, Copy, PartialEq, Eq, Structural)]
pub enum IntensityLevel {
    Low,
    Medium,
    High,
    Variable,
}

#[derive(Debug, Clone)]
pub enum SeasonalityType {
    Daily,
    Weekly,
    Monthly,
    Quarterly,
    Yearly,
    Custom(Duration),
}

#[derive(Debug, Clone, Copy, PartialEq, Eq, Structural)]
pub enum TrendDirection {
    Exponential,
    Linear,
    Logarithmic,
    Cyclical,
    Declining,
    Stable,
}

#[derive(Debug, Clone)]
pub struct ComplianceConstraint {
    pub framework: String,
    pub requirements: Vec<String>,
    pub validation_frequency: Duration,
}

#[derive(Debug, Clone)]
pub struct GeographicConstraints {
    pub allowed_regions: Vec<String>,
    pub data_residency_requirements: HashMap<String, Vec<String>>,
    pub latency_requirements: HashMap<String, Duration>,
}

#[derive(Debug, Clone, Copy, PartialEq, Eq, Structural)]
pub enum ScalingFailureType {
    ResourceExhaustion,
    NetworkPartition,
    DatabaseBottleneck,
    ConfigurationError,
    DependencyFailure,
    RateLimitExceeded,
    QuotaExceeded,
    PermissionDenied,
}

#[derive(Debug, Clone, Copy, PartialEq, Eq, Structural)]
pub enum ScalingRiskType {
    ServiceDisruption,
    PerformanceDegradation,
    CostOverrun,
    ResourceContention,
    ConfigurationDrift,
    DependencyFailure,
    SecurityVulnerability,
    ComplianceViolation,
}

#[derive(Debug, Clone, Copy, PartialEq, Eq, Structural)]
pub enum RiskSeverity {
    Low,
    Medium,
    High,
    Critical,
}

#[derive(Debug, Clone)]
pub struct ScalingTimeline {
    pub preparation_time: Duration,
    pub execution_time: Duration,
    pub stabilization_time: Duration,
    pub validation_time: Duration,
    pub total_time: Duration,
    pub rollback_time: Duration,
}

#[derive(Debug, Clone, Copy, PartialEq, Eq, Structural)]
pub enum ExecutionIssueType {
    ResourceAllocationFailure,
    NetworkConfigurationError,
    ServiceStartupFailure,
    HealthCheckFailure,
    LoadBalancerError,
    DatabaseConnectionIssue,
    ConfigurationValidationError,
    SecurityPolicyViolation,
}

#[derive(Debug, Clone, Copy, PartialEq, Eq, Structural)]
pub enum IssueSeverity {
    Info,
    Warning,
    Error,
    Critical,
}

#[derive(Debug, Clone)]
pub struct ValidationError {
    pub error_type: ValidationErrorType,
    pub message: String,
    pub suggested_fix: Option<String>,
}

#[derive(Debug, Clone, Copy, PartialEq, Eq, Structural)]
pub enum ValidationErrorType {
    InsufficientResources,
    BudgetExceeded,
    ComplianceViolation,
    SecurityRiskTooHigh,
    PerformanceRegression,
    DependencyUnavailable,
}

#[derive(Debug, Clone)]
pub struct ValidationWarning {
    pub warning_type: ValidationWarningType,
    pub message: String,
    pub recommendation: Option<String>,
}

#[derive(Debug, Clone, Copy, PartialEq, Eq, Structural)]
pub enum ValidationWarningType {
    HighCostIncrease,
    PotentialPerformanceIssue,
    ResourceImbalance,
    UntestedConfiguration,
    LowConfidencePrediction,
}

#[derive(Debug, Clone, Default, Copy, PartialEq, Eq, Structural)]
pub enum RiskLevel {
    #[default]
    VeryLow,
    Low,
    Medium,
    High,
    VeryHigh,
}

#[derive(Debug, Clone, Copy, PartialEq, Eq, Structural)]
pub enum MitigationType {
    PreventiveAction,
    EarlyDetection,
    RapidResponse,
    DamageContainment,
    RecoveryAcceleration,
}

#[derive(Debug, Clone)]
pub struct EscalationLevel {
    pub contacts: Vec<String>,
    pub notification_methods: Vec<NotificationMethod>,
    pub required_acknowledgment: bool,
}

#[derive(Debug, Clone, Copy, PartialEq, Eq, Structural)]
pub enum NotificationMethod {
    Email,
    SMS,
    Slack,
    PagerDuty,
    Webhook,
    PhoneCall,
}

#[derive(Debug, Clone, Default)]
pub struct TimeImpactEstimate {
    pub deployment_time: Duration,
    pub time_to_benefit: Duration,
    pub stabilization_time: Duration,
    pub total_impact_time: Duration,
}

#[derive(Debug, Clone, Copy, PartialEq, Eq, Structural)]
pub enum ScalingActionType {
    ScaleOut,
    ScaleIn,
    ScaleUp,
    ScaleDown,
    Optimize,
    Rebalance,
}

#[derive(Debug, Clone, Copy, PartialEq, Eq, Structural)]
pub enum ConstraintType {
    MinInstances,
    MaxInstances,
    MinCPU,
    MaxCPU,
    MinMemory,
    MaxMemory,
    MaxCost,
    MinPerformance,
}

#[derive(Debug, Clone, Copy, PartialEq, Eq, Structural)]
pub enum ConstraintEnforcement {
    Hard,
    Soft,
    BestEffort,
}

#[derive(Debug, Clone)]
pub struct CooldownPeriods {
    pub scale_up_cooldown: Duration,
    pub scale_down_cooldown: Duration,
    pub optimization_cooldown: Duration,
    pub emergency_override: Duration,
}

#[derive(Debug, Clone, Copy, PartialEq, Eq, Structural)]
pub enum ResourcePoolType {
    Compute,
    Storage,
    Network,
    Database,
    Cache,
    Queue,
    Hybrid,
}

#[derive(Debug, Clone, Copy, PartialEq, Eq, Structural)]
pub enum PoolHealthStatus {
    Healthy,
    Warning,
    Critical,
    Maintenance,
    Unavailable,
}

#[derive(Debug, Clone, Copy, PartialEq, Eq, Structural)]
pub enum GlobalConstraintType {
    TotalResourceUsage,
    CostBudget,
    PerformanceSLA,
    AvailabilityRequirement,
    ComplianceRequirement,
    SecurityPolicy,
    EnvironmentalImpact,
}

#[derive(Debug, Clone, Copy, PartialEq, Eq, Structural)]
pub enum EnforcementLevel {
    Advisory,
    Warning,
    Blocking,
    Emergency,
}

#[derive(Debug, Clone, Copy, PartialEq, Eq, Structural)]
pub enum ViolationAction {
    LogOnly,
    Alert,
    BlockAction,
    AutoCorrect,
    EmergencyScale,
    ShutdownNonCritical,
}

#[derive(Debug, Clone, Copy, PartialEq, Eq, Structural)]
pub enum ViolationSeverity {
    Minor,
    Major,
    Critical,
    Catastrophic,
}

#[derive(Debug, Clone, Copy, PartialEq, Eq, Structural)]
pub enum RecommendationType {
    ResourceOptimization,
    CostReduction,
    PerformanceImprovement,
    RiskMitigation,
    ComplianceEnhancement,
}

#[derive(Debug, Clone, Copy, PartialEq, Eq, Structural)]
pub enum EffortLevel {
    Minimal,
    Low,
    Medium,
    High,
    Extensive,
}

#[derive(Debug, Clone, Copy, PartialEq, Eq, Structural)]
pub enum ResolutionType {
    Automatic,
    ManualIntervention,
    Escalation,
    Delayed,
    Partial,
}

#[derive(Debug, Clone, Copy, PartialEq, Eq, Structural)]
pub enum ForecastModelType {
    ARIMA,
    LSTM,
    Prophet,
    LinearRegression,
    RandomForest,
    Ensemble,
}

#[derive(Debug, Clone, Copy, PartialEq, Eq, Structural)]
pub enum DataQuality {
    High,
    Medium,
    Low,
    Interpolated,
    Estimated,
}

#[derive(Debug, Clone, Copy, PartialEq, Eq, Structural)]
pub enum TrendType {
    Linear,
    Exponential,
    Logarithmic,
    Polynomial,
    Cyclical,
    NoTrend,
}

#[derive(Debug, Clone, Copy, PartialEq, Eq, Structural)]
pub enum WorkloadType {
    WebApplication,
    APIGateway,
    DataProcessing,
    MachineLearning,
    Database,
    Cache,
    MessageQueue,
    FileStorage,
    VideoStreaming,
    IoT,
    Unknown,
}

#[derive(Debug, Clone, Copy, PartialEq, Eq, Structural)]
pub enum PatternType {
    DailyPeak,
    WeeklyTrend,
    SeasonalVariation,
    GradualGrowth,
    SuddenSpike,
    PeriodicMaintenance,
    PromotionEvent,
    HolidayTraffic,
}

#[derive(Debug, Clone, Copy, PartialEq, Eq, Structural)]
pub enum OptimizationType {
    RightSizing,
    ScheduledScaling,
    PredictiveScaling,
    ResourcePooling,
    LoadBalancing,
    Caching,
    DataCompression,
    NetworkOptimization,
}

#[derive(Debug, Clone, Copy, PartialEq, Eq, Structural)]
pub enum ComplexityLevel {
    Trivial,
    Simple,
    Moderate,
    Complex,
    VeryComplex,
}

#[derive(Debug, Clone, Copy, PartialEq, Eq, Structural)]
pub enum WorkloadRiskType {
    TrafficSpike,
    ResourceExhaustion,
    DependencyFailure,
    NetworkLatency,
    DataInconsistency,
    SecurityThreat,
    ComplianceBreach,
}

#[derive(Debug, Clone, Copy, PartialEq, Eq, Structural)]
pub enum ChangeType {
    Gradual,
    Sudden,
    Cyclical,
    Anomalous,
}

#[derive(Debug, Clone, Copy, PartialEq, Eq, Structural)]
pub enum EvolutionCause {
    NaturalGrowth,
    SeasonalChange,
    UserBehaviorChange,
    SystemUpgrade,
    ExternalEvent,
    Unknown,
}

#[derive(Debug, Clone, Copy, PartialEq, Eq, Structural)]
pub enum AnomalyType {
    PointAnomaly,
    ContextualAnomaly,
    CollectiveAnomaly,
    ConceptDrift,
}

#[derive(Debug, Clone, Copy, PartialEq, Eq, Structural)]
pub enum TriggerConditionType {
    MetricThreshold,
    MetricTrend,
    MetricAnomaly,
    TimePattern,
    ExternalEvent,
    UserBehavior,
}

#[derive(Debug, Clone, Copy, PartialEq, Eq, Structural)]
pub enum ScalingResponseType {
    Immediate,
    Gradual,
    Staged,
    Conditional,
}

#[derive(Debug, Clone)]
pub struct ResponseTiming {
    pub delay: Duration,
    pub ramp_up_period: Duration,
    pub stabilization_period: Duration,
}

#[derive(Debug, Clone)]
pub struct ContextApplicability {
    pub workload_types: Vec<WorkloadType>,
    pub environment_types: Vec<String>,
    pub time_constraints: TimeConstraints,
    pub resource_constraints: Vec<String>,
}

#[derive(Debug, Clone)]
pub struct TimeConstraints {
    pub applicable_hours: Vec<u8>,
    pub applicable_days: Vec<u8>,
    pub seasonal_applicability: Vec<String>,
}

#[derive(Debug, Clone, Copy, PartialEq, Eq, Structural)]
pub enum FailureModeType {
    ResourceExhaustion,
    ConfigurationError,
    NetworkIssue,
    DependencyFailure,
    PerformanceDegradation,
    SecurityBreach,
}

/// Constraint evaluator that accepts every scaling decision.
pub struct DefaultConstraintEvaluator;

impl DefaultConstraintEvaluator {
    /// Creates the component; it holds no state.
    pub fn new() -> (r: Self)
        ensures
            r == (DefaultConstraintEvaluator),
    {
        DefaultConstraintEvaluator
    }
}

/// Violation handler that resolves every violation automatically.
pub struct DefaultViolationHandler;

impl DefaultViolationHandler {
    /// Creates the component; it holds no state.
    pub fn new() -> (r: Self)
        ensures
            r == (DefaultViolationHandler),
    {
        DefaultViolationHandler
    }
}

/// Pricing model used by the cost optimizer.
pub struct PricingModel;

impl PricingModel {
    /// Creates the component; it holds no state.
    pub fn new() -> (r: Self)
        ensures
            r == (PricingModel),
    {
        PricingModel
    }
}

/// Analyzer of resource efficiency.
pub struct EfficiencyAnalyzer;

impl EfficiencyAnalyzer {
    /// Creates the component; it holds no state.
    pub fn new() -> (r: Self)
        ensures
            r == (EfficiencyAnalyzer),
    {
        EfficiencyAnalyzer
    }
}

/// Manager of scaling budgets.
pub struct BudgetManager;

impl BudgetManager {
    /// Creates the component; it holds no state.
    pub fn new() -> (r: Self)
        ensures
            r == (BudgetManager),
    {
        BudgetManager
    }
}

/// Aggregator of resource metrics.
pub struct MetricsAggregationEngine;

impl MetricsAggregationEngine {
    /// Creates the component; it holds no state.
    pub fn new() -> (r: Self)
        ensures
            r == (MetricsAggregationEngine),
    {
        MetricsAggregationEngine
    }
}

/// Alerting on resource usage.
pub struct ResourceAlertingSystem;

impl ResourceAlertingSystem {
    /// Creates the component; it holds no state.
    pub fn new() -> (r: Self)
        ensures
            r == (ResourceAlertingSystem),
    {
        ResourceAlertingSystem
    }
}

/// Reporter of scaling telemetry.
pub struct TelemetryReporter;

impl TelemetryReporter {
    /// Creates the component; it holds no state.
    pub fn new() -> (r: Self)
        ensures
            r == (TelemetryReporter),
    {
        TelemetryReporter
    }
}

/// Default workload optimization algorithm.
pub struct DefaultOptimizationAlgorithm;

impl DefaultOptimizationAlgorithm {
    /// Creates the component; it holds no state.
    pub fn new() -> (r: Self)
        ensures
            r == (DefaultOptimizationAlgorithm),
    {
        DefaultOptimizationAlgorithm
    }
}

/// Default predictor of workload pattern evolution.
pub struct DefaultPatternEvolutionPredictor;

impl DefaultPatternEvolutionPredictor {
    /// Creates the component; it holds no state.
    pub fn new() -> (r: Self)
        ensures
            r == (DefaultPatternEvolutionPredictor),
    {
        DefaultPatternEvolutionPredictor
    }
}

/// Assessor of scaling risks.
pub struct ScalingRiskAssessor;

impl ScalingRiskAssessor {
    /// Creates the component; it holds no state.
    pub fn new() -> (r: Self)
        ensures
            r == (ScalingRiskAssessor),
    {
        ScalingRiskAssessor
    }
}

/// Engine that orchestrates scaling steps.
pub struct OrchestrationEngine;

impl OrchestrationEngine {
    /// Creates the component; it holds no state.
    pub fn new() -> (r: Self)
        ensures
            r == (OrchestrationEngine),
    {
        OrchestrationEngine
    }
}

/// Manager of scaling rollbacks.
pub struct ScalingRollbackManager;

impl ScalingRollbackManager {
    /// Creates the component; it holds no state.
    pub fn new() -> (r: Self)
        ensures
            r == (ScalingRollbackManager),
    {
        ScalingRollbackManager
    }
}

/// Validation of scaling outcomes.
pub struct ScalingValidationSystem;

impl ScalingValidationSystem {
    /// Creates the component; it holds no state.
    pub fn new() -> (r: Self)
        ensures
            r == (ScalingValidationSystem),
    {
        ScalingValidationSystem
    }
}

} // verus!
