//! Alert severities, channels and configuration, and the decisions of the
//! alert manager: which alerts pass the severity threshold, when a batch is
//! sent, and what the standard component alerts say.

use vstd::prelude::*;
use vstd::string::StringExecFns;

verus! {

/// Alert severity levels, from least to most severe.
#[derive(Debug, Clone, Copy, PartialEq, Eq, PartialOrd, Ord, Structural)]
pub enum AlertSeverity {
    Info,
    Warning,
    Critical,
    Emergency,
}

/// Position of a severity in the order Info < Warning < Critical < Emergency.
pub open spec fn severity_rank(s: AlertSeverity) -> nat {
    match s {
        AlertSeverity::Info => 0,
        AlertSeverity::Warning => 1,
        AlertSeverity::Critical => 2,
        AlertSeverity::Emergency => 3,
    }
}

/// Severities are strictly ordered Info < Warning < Critical < Emergency,
/// and a filter that lets a severity through lets every more severe one
/// through.
pub proof fn lemma_severity_order(min: AlertSeverity, s1: AlertSeverity, s2: AlertSeverity)
    ensures
        severity_rank(AlertSeverity::Info) < severity_rank(AlertSeverity::Warning),
        severity_rank(AlertSeverity::Warning) < severity_rank(AlertSeverity::Critical),
        severity_rank(AlertSeverity::Critical) < severity_rank(AlertSeverity::Emergency),
        severity_rank(s1) >= severity_rank(min) && severity_rank(s2) >= severity_rank(s1)
            ==> severity_rank(s2) >= severity_rank(min),
        severity_rank(s1) == severity_rank(s2) ==> s1 == s2,
{
}

impl AlertSeverity {
    /// Position of the severity in the order Info < Warning < Critical < Emergency.
    pub fn rank(&self) -> (r: u8)
        ensures
            r == severity_rank(*self),
    {
        match self {
            AlertSeverity::Info => 0,
            AlertSeverity::Warning => 1,
            AlertSeverity::Critical => 2,
            AlertSeverity::Emergency => 3,
        }
    }
}

/// Alert channels for notifications
#[derive(Debug, Clone)]
pub enum AlertChannel {
    Log,
    Webhook { url: String },
    Email { address: String },
    Slack { webhook_url: String },
    Custom { handler_name: String },
}

/// Alert configuration
#[derive(Debug, Clone)]
pub struct AlertConfig {
    pub channels: Vec<AlertChannel>,
    pub min_severity: AlertSeverity,
    pub rate_limit_seconds: u64,
    pub batch_size: usize,
    pub batch_timeout_seconds: u64,
}

impl Default for AlertConfig {
    /// Log channel only, warnings and above, batches of ten or every 30 s.
    fn default() -> (r: Self)
        ensures
            r.channels@.len() == 1,
            r.channels@[0] is Log,
            r.min_severity == AlertSeverity::Warning,
            r.rate_limit_seconds == 60,
            r.batch_size == 10,
            r.batch_timeout_seconds == 30,
    {
        let mut channels: Vec<AlertChannel> = Vec::new();
        channels.push(AlertChannel::Log);
        AlertConfig {
            channels,
            min_severity: AlertSeverity::Warning,
            rate_limit_seconds: 60,
            batch_size: 10,
            batch_timeout_seconds: 30,
        }
    }
}

impl AlertConfig {
    /// Whether an alert of this severity is forwarded: it is dropped exactly
    /// when it is less severe than the configured minimum.
    pub fn accepts(&self, severity: AlertSeverity) -> (r: bool)
        ensures
            r == (severity_rank(severity) >= severity_rank(self.min_severity)),
    {
        severity.rank() >= self.min_severity.rank()
    }

    /// Whether the pending batch is sent now: it is not empty, and either it
    /// has reached the batch size or the batch timeout has passed since the
    /// last batch was sent.
    pub fn should_send_batch(&self, pending: usize, seconds_since_last_send: i64) -> (r: bool)
        ensures
            r == (pending > 0 && (pending >= self.batch_size || seconds_since_last_send
                >= self.batch_timeout_seconds as i64)),
    {
        let timeout = self.batch_timeout_seconds as i64;
        pending > 0 && (pending >= self.batch_size || seconds_since_last_send >= timeout)
    }
}

/// Severity, title and message of an alert.
pub struct AlertContent {
    pub severity: AlertSeverity,
    pub title: String,
    pub message: String,
}

/// `first` followed by `second` and `third`.
fn concat3(first: &str, second: &str, third: &str) -> (r: String)
    ensures
        r@ == first@ + second@ + third@,
{
    let mut s = String::from_str(first);
    s.append(second);
    s.append(third);
    s
}

/// The alert raised when a component is unhealthy: critical, with the
/// component and the reason in the message.
pub fn component_alert(component_id: &str, reason: &str) -> (r: AlertContent)
    ensures
        r.severity == AlertSeverity::Critical,
        r.title@ == "Component Health Alert"@,
        r.message@ == "Component "@ + component_id@ + " is unhealthy: "@ + reason@,
{
    let head = concat3("Component ", component_id, " is unhealthy: ");
    let mut message = head;
    message.append(reason);
    AlertContent {
        severity: AlertSeverity::Critical,
        title: String::from_str("Component Health Alert"),
        message,
    }
}

/// The alert raised when a component was recovered: informational.
pub fn recovery_success_alert(component_id: &str) -> (r: AlertContent)
    ensures
        r.severity == AlertSeverity::Info,
        r.title@ == "Recovery Successful"@,
        r.message@ == "Component "@ + component_id@ + " has been successfully recovered"@,
{
    AlertContent {
        severity: AlertSeverity::Info,
        title: String::from_str("Recovery Successful"),
        message: concat3("Component ", component_id, " has been successfully recovered"),
    }
}

/// The alert raised when recovering a component failed: an emergency.
pub fn recovery_failed_alert(component_id: &str, error: &str) -> (r: AlertContent)
    ensures
        r.severity == AlertSeverity::Emergency,
        r.title@ == "Recovery Failed"@,
        r.message@ == "Failed to recover component "@ + component_id@ + ": "@ + error@,
{
    let mut message = concat3("Failed to recover component ", component_id, ": ");
    message.append(error);
    AlertContent {
        severity: AlertSeverity::Emergency,
        title: String::from_str("Recovery Failed"),
        message,
    }
}

/// The emoji that prefixes an alert posted to Slack.
pub open spec fn slack_emoji_text(s: AlertSeverity) -> Seq<char> {
    match s {
        AlertSeverity::Info => ":information_source:"@,
        AlertSeverity::Warning => ":warning:"@,
        AlertSeverity::Critical => ":exclamation:"@,
        AlertSeverity::Emergency => ":rotating_light:"@,
    }
}

/// The emoji that prefixes an alert posted to Slack.
pub fn slack_emoji(severity: AlertSeverity) -> (r: &'static str)
    ensures
        r@ == slack_emoji_text(severity),
{
    match severity {
        AlertSeverity::Info => ":information_source:",
        AlertSeverity::Warning => ":warning:",
        AlertSeverity::Critical => ":exclamation:",
        AlertSeverity::Emergency => ":rotating_light:",
    }
}

} // verus!
