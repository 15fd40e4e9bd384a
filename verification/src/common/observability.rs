//! Classifications used by the observability subsystem: security severity,
//! trends, telemetry events, detection models, alerting and suppression.

use vstd::prelude::*;

verus! {

#[derive(Debug, Clone, Copy, PartialEq, Eq, Structural)]
pub enum SecuritySeverity {
    Info,
    Low,
    Medium,
    High,
    Critical,
}

#[derive(Debug, Clone, Copy, PartialEq, Eq, Structural)]
pub enum TrendDirection {
    Improving,
    Stable,
    Degrading,
}

#[derive(Debug, Clone, Copy, PartialEq, Eq, Structural)]
pub enum TelemetryEventType {
    MetricUpdate,
    AnomalyDetected,
    PredictionUpdate,
    AlertTriggered,
    SystemEvent,
}

#[derive(Debug, Clone, Copy, PartialEq, Eq, Structural)]
pub enum DetectionModelType {
    StatisticalThreshold,
    MachineLearning,
    PatternRecognition,
    Ensemble,
}

#[derive(Debug, Clone, Copy, PartialEq, Eq, Structural)]
pub enum TimeSeriesModelType {
    ARIMA,
    ExponentialSmoothing,
    LSTM,
    Prophet,
}

#[derive(Debug, Clone, Eq, PartialEq, Hash, Copy, Structural)]
pub enum AlertSeverity {
    Info,
    Warning,
    Critical,
    Emergency,
}

#[derive(Debug, Clone, Copy, PartialEq, Eq, Structural)]
pub enum NotificationChannelType {
    Email,
    SMS,
    Slack,
    PagerDuty,
    Webhook,
    Dashboard,
}

#[derive(Debug, Clone)]
pub enum SuppressionCondition {
    MaintenanceWindow,
    KnownIssue,
    AlertStorm,
    DependencyFailure { dependency: String },
}

} // verus!
