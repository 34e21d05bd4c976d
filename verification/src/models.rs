//! Persisted-record projections of the in-memory entities: plain
//! shapes an external storage collaborator can carry, with no logic of
//! their own.

use vstd::prelude::*;

verus! {

/// Severity of a system event log entry.
#[derive(Debug, Clone, PartialEq, Eq, Structural)]
pub enum EventSeverity {
    /// Debug level
    Debug,
    /// Informational
    Info,
    /// Warning
    Warning,
    /// Error
    Error,
    /// Critical
    Critical,
}

/// Review status of a persisted anomaly record.
#[derive(Debug, Clone, PartialEq, Eq, Structural)]
pub enum AnomalyStatus {
    /// Detected, not yet reviewed
    Detected,
    /// Under investigation
    Investigating,
    /// Resolved
    Resolved,
    /// Dismissed as a false positive
    FalsePositive,
}

/// Status of a persisted training run record.
#[derive(Debug, Clone, PartialEq, Eq, Structural)]
pub enum TrainingStatus {
    /// Training started
    Started,
    /// Training completed
    Completed,
    /// Training failed
    Failed,
}

/// Record of one autonomous decision, as persisted.
#[derive(Debug, Clone)]
pub struct AutonomousDecision {
    /// Decision ID
    pub id: String,
    /// Timestamp, seconds since the Unix epoch
    pub timestamp: u64,
    /// Decision kind
    pub decision_type: String,
    /// Target entity
    pub entity_id: String,
    /// Confidence in basis points
    pub confidence: u32,
    /// Rationale text
    pub rationale: String,
}

/// Record of one system event, as persisted.
#[derive(Debug, Clone)]
pub struct SystemEventLog {
    /// Event ID
    pub id: String,
    /// Timestamp, seconds since the Unix epoch
    pub timestamp: u64,
    /// Severity
    pub severity: EventSeverity,
    /// Component that produced the event
    pub component: String,
    /// Message text
    pub message: String,
}

/// Record of one detected anomaly, as persisted.
#[derive(Debug, Clone)]
pub struct AnomalyRecord {
    /// Record ID
    pub id: String,
    /// Timestamp, seconds since the Unix epoch
    pub timestamp: u64,
    /// Anomaly score in basis points
    pub score: u32,
    /// Affected entity
    pub entity_id: String,
    /// Review status
    pub status: AnomalyStatus,
}

/// Record of one healing action, as persisted.
#[derive(Debug, Clone)]
pub struct HealingActionRecord {
    /// Record ID
    pub id: String,
    /// Timestamp, seconds since the Unix epoch
    pub timestamp: u64,
    /// Action kind
    pub action_type: String,
    /// Target entity
    pub target: String,
    /// Outcome text
    pub outcome: Option<String>,
}

/// Record of one training run, as persisted.
#[derive(Debug, Clone)]
pub struct ModelTrainingRecord {
    /// Record ID
    pub id: String,
    /// Started at, seconds since the Unix epoch
    pub started_at: u64,
    /// Samples used
    pub samples: usize,
    /// Accuracy in basis points
    pub accuracy: Option<u32>,
    /// Status
    pub status: TrainingStatus,
}

/// Snapshot of the fleet gauges, as persisted.
#[derive(Debug, Clone, Copy)]
pub struct MetricsSnapshot {
    /// Timestamp, seconds since the Unix epoch
    pub timestamp: u64,
    /// CPU usage, hundredths of a percent
    pub cpu_usage: u32,
    /// Memory usage, hundredths of a percent
    pub memory_usage: u32,
    /// Request rate per second
    pub request_rate: u32,
    /// Error rate, hundredths of a percent
    pub error_rate: u32,
}

} // verus!
