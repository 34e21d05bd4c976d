//! Core value types of the orchestration engines.
//!
//! Fractional quantities are carried as scaled integers so that every
//! computation on them is exact: scores, rates and sensitivities lie in
//! basis points (`0..=10_000` standing for `0.0..=1.0`), gauge
//! percentages in hundredths of a percent (`7_500` standing for
//! `75.00%`), and monetary amounts in minor units.

use vstd::prelude::*;

verus! {

/// Largest magnitude of a payment amount, in minor units, that the
/// engines accept; keeps every window statistic inside machine bounds.
pub const AMOUNT_LIMIT: i64 = 1_000_000_000_000;

/// Scale of a basis-point quantity: this value stands for 1.0.
pub const SCALE_BP: u32 = 10_000;

/// Event type enumeration.
#[derive(Debug, Clone, PartialEq, Eq, Hash)]
pub enum EventType {
    /// Payment created
    PaymentCreated,
    /// Payment succeeded
    PaymentSucceeded,
    /// Payment failed
    PaymentFailed,
    /// Payment requires action
    PaymentRequiresAction,
    /// Refund created
    RefundCreated,
    /// Refund succeeded
    RefundSucceeded,
    /// Refund failed
    RefundFailed,
    /// Connector failure
    ConnectorFailure,
    /// Fraud detected
    FraudDetected,
    /// Anomaly detected
    AnomalyDetected,
    /// System health check
    HealthCheck,
    /// Resource scaling event
    ResourceScaling,
    /// Custom event
    Custom(String),
}

/// Payment event data.
#[derive(Debug, Clone)]
pub struct PaymentEvent {
    /// Event ID
    pub event_id: String,
    /// Event type
    pub event_type: EventType,
    /// Timestamp, seconds since the Unix epoch
    pub timestamp: u64,
    /// Payment ID
    pub payment_id: String,
    /// Merchant ID
    pub merchant_id: String,
    /// Connector name
    pub connector: Option<String>,
    /// Payment method
    pub payment_method: Option<String>,
    /// Amount in minor units
    pub amount: Option<i64>,
    /// Currency code
    pub currency: Option<String>,
    /// Status
    pub status: String,
    /// Error code
    pub error_code: Option<String>,
    /// Error message
    pub error_message: Option<String>,
    /// Additional metadata
    pub metadata: Vec<(String, String)>,
}

impl PaymentEvent {
    /// An event the engines accept: its amount, when present, lies
    /// within the machine bound.
    pub open spec fn wf(&self) -> bool {
        match self.amount {
            Some(a) => -AMOUNT_LIMIT <= a <= AMOUNT_LIMIT,
            None => true,
        }
    }
}

/// Anomaly type enumeration.
#[derive(Debug, Clone, PartialEq, Eq, Structural)]
pub enum AnomalyType {
    /// Payment volume spike
    VolumeSpike,
    /// Payment volume drop
    VolumeDrop,
    /// High failure rate
    HighFailureRate,
    /// Unusual payment pattern
    UnusualPattern,
    /// Potential fraud
    PotentialFraud,
    /// Performance degradation
    PerformanceDegradation,
    /// Other anomaly
    Other,
}

/// Anomaly detection result.
#[derive(Debug, Clone)]
pub struct AnomalyResult {
    /// Detection ID
    pub id: String,
    /// Timestamp, seconds since the Unix epoch
    pub timestamp: u64,
    /// Is anomalous
    pub is_anomaly: bool,
    /// Anomaly score in basis points (0..=10_000)
    pub score: u32,
    /// Anomaly type
    pub anomaly_type: AnomalyType,
    /// Affected entity
    pub entity_id: String,
    /// Details
    pub details: String,
    /// Recommended actions
    pub recommended_actions: Vec<String>,
}

/// Connector score.
#[derive(Debug, Clone)]
pub struct ConnectorScore {
    /// Connector name
    pub connector: String,
    /// Score in basis points (0..=10_000)
    pub score: u32,
    /// Expected success rate in basis points
    pub expected_success_rate: u32,
    /// Expected latency in ms
    pub expected_latency_ms: u64,
    /// Cost estimate in basis points of one currency unit
    pub cost_estimate: Option<u32>,
}

/// Content equality of two connector scores.
pub open spec fn score_eq(a: ConnectorScore, b: ConnectorScore) -> bool {
    &&& a.connector@ == b.connector@
    &&& a.score == b.score
    &&& a.expected_success_rate == b.expected_success_rate
    &&& a.expected_latency_ms == b.expected_latency_ms
    &&& a.cost_estimate == b.cost_estimate
}

/// Routing decision.
#[derive(Debug, Clone)]
pub struct RoutingDecision {
    /// Decision ID
    pub id: String,
    /// Timestamp, seconds since the Unix epoch
    pub timestamp: u64,
    /// Payment ID
    pub payment_id: String,
    /// Recommended connector
    pub recommended_connector: String,
    /// Confidence score in basis points (0..=10_000)
    pub confidence: u32,
    /// Alternative connectors
    pub alternatives: Vec<ConnectorScore>,
    /// Decision rationale
    pub rationale: String,
    /// Was prediction correct
    pub was_correct: Option<bool>,
}

/// Content equality of two routing decisions, every field compared.
pub open spec fn decision_eq(a: RoutingDecision, b: RoutingDecision) -> bool {
    &&& a.id@ == b.id@
    &&& a.timestamp == b.timestamp
    &&& a.payment_id@ == b.payment_id@
    &&& a.recommended_connector@ == b.recommended_connector@
    &&& a.confidence == b.confidence
    &&& a.alternatives.len() == b.alternatives.len()
    &&& forall|i: int|
        0 <= i < a.alternatives.len() ==> score_eq(#[trigger] a.alternatives[i], b.alternatives[i])
    &&& a.rationale@ == b.rationale@
    &&& a.was_correct == b.was_correct
}

/// Healing action type.
#[derive(Debug, Clone, PartialEq, Eq)]
pub enum HealingActionType {
    /// Retry payment
    RetryPayment,
    /// Switch connector
    SwitchConnector,
    /// Update routing
    UpdateRouting,
    /// Clear cache
    ClearCache,
    /// Restart service
    RestartService,
    /// Scale resources
    ScaleResources,
    /// Custom action
    Custom(String),
}

/// Action status.
#[derive(Debug, Clone, PartialEq, Eq, Structural)]
pub enum ActionStatus {
    /// Pending execution
    Pending,
    /// In progress
    InProgress,
    /// Successfully completed
    Success,
    /// Failed
    Failed,
    /// Rolled back
    RolledBack,
}

/// Self-healing action.
#[derive(Debug, Clone)]
pub struct HealingAction {
    /// Action ID
    pub id: String,
    /// Timestamp, seconds since the Unix epoch
    pub timestamp: u64,
    /// Action type
    pub action_type: HealingActionType,
    /// Target entity
    pub target: String,
    /// Action status
    pub status: ActionStatus,
    /// Result message
    pub result_message: Option<String>,
    /// Recovery time in ms
    pub recovery_time_ms: Option<u64>,
}

/// System health metrics, one point-in-time sample.
#[derive(Debug, Clone, Copy)]
pub struct HealthMetrics {
    /// Timestamp, seconds since the Unix epoch
    pub timestamp: u64,
    /// CPU usage, hundredths of a percent
    pub cpu_usage: u32,
    /// Memory usage, hundredths of a percent
    pub memory_usage: u32,
    /// Active connections
    pub active_connections: u64,
    /// Request rate per second
    pub request_rate: u32,
    /// Average response time in ms
    pub avg_response_time_ms: u64,
    /// Error rate, hundredths of a percent
    pub error_rate: u32,
    /// Queue depth
    pub queue_depth: usize,
    /// Database connection pool usage, hundredths of a percent
    pub db_pool_usage: u32,
    /// Redis connection pool usage, hundredths of a percent
    pub redis_pool_usage: u32,
}

/// Connector statistics.
#[derive(Debug, Clone)]
pub struct ConnectorStats {
    /// Connector name
    pub connector: String,
    /// Total transactions
    pub total_transactions: u64,
    /// Success rate in basis points
    pub success_rate: u32,
    /// Average latency in ms
    pub avg_latency_ms: u64,
    /// Total amount
    pub total_amount: i64,
}

/// Payment method statistics.
#[derive(Debug, Clone)]
pub struct PaymentMethodStats {
    /// Payment method
    pub payment_method: String,
    /// Total transactions
    pub total_transactions: u64,
    /// Success rate in basis points
    pub success_rate: u32,
    /// Total amount
    pub total_amount: i64,
}

/// Analytics summary.
#[derive(Debug, Clone)]
pub struct AnalyticsSummary {
    /// Period start, seconds since the Unix epoch
    pub period_start: u64,
    /// Period end, seconds since the Unix epoch
    pub period_end: u64,
    /// Total payments
    pub total_payments: u64,
    /// Successful payments
    pub successful_payments: u64,
    /// Failed payments
    pub failed_payments: u64,
    /// Success rate in basis points
    pub success_rate: u32,
    /// Total amount processed
    pub total_amount: i64,
    /// Average payment amount in minor units
    pub avg_amount: i64,
    /// Top connectors
    pub top_connectors: Vec<ConnectorStats>,
    /// Top payment methods
    pub top_payment_methods: Vec<PaymentMethodStats>,
    /// Anomalies detected
    pub anomalies_detected: u32,
    /// Healing actions taken
    pub healing_actions_taken: u32,
}

/// Time series point.
#[derive(Debug, Clone, Copy)]
pub struct TimeSeriesPoint {
    /// Timestamp, seconds since the Unix epoch
    pub timestamp: u64,
    /// Value in minor units
    pub value: i64,
}

/// Prediction result.
#[derive(Debug)]
pub struct PredictionResult {
    /// Prediction ID
    pub id: String,
    /// Timestamp, seconds since the Unix epoch
    pub timestamp: u64,
    /// Metric being predicted
    pub metric: String,
    /// Predicted values (future time series)
    pub predictions: Vec<TimeSeriesPoint>,
    /// Confidence interval, minor units
    pub confidence_interval: (i64, i64),
    /// Model accuracy in basis points
    pub model_accuracy: Option<u32>,
}

/// Scaling direction.
#[derive(Debug, Clone, PartialEq, Eq, Structural)]
pub enum ScalingDirection {
    /// Scale up
    Up,
    /// Scale down
    Down,
    /// No change needed
    NoChange,
}

/// Resource scaling recommendation.
#[derive(Debug, Clone)]
pub struct ScalingRecommendation {
    /// Recommendation ID
    pub id: String,
    /// Timestamp, seconds since the Unix epoch
    pub timestamp: u64,
    /// Scaling direction
    pub direction: ScalingDirection,
    /// Target instance count
    pub target_instances: u32,
    /// Current instance count
    pub current_instances: u32,
    /// Reason
    pub reason: String,
    /// Expected impact
    pub expected_impact: String,
    /// Auto-apply
    pub auto_apply: bool,
}

} // verus!
