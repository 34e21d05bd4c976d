//! Configuration of the orchestration engines: typed toggles and
//! thresholds for every engine, with validation.
//!
//! Fractional thresholds are carried as scaled integers: sensitivities
//! and confidence bounds in basis points (`7_500` standing for `0.75`),
//! gauge thresholds in hundredths of a percent, and the retry backoff
//! multiplier in hundredths (`200` standing for `2.0`).

use vstd::prelude::*;

use crate::utils::worker_count;

verus! {

/// Configuration error types.
#[derive(Debug, Clone, PartialEq, Eq)]
pub enum ConfigError {
    /// Failed to read configuration
    ReadError(String),
    /// Invalid configuration
    InvalidConfig(String),
}

/// Server configuration.
#[derive(Debug, Clone)]
pub struct ServerConfig {
    /// Server host
    pub host: String,
    /// Server port
    pub port: u16,
    /// Number of worker threads
    pub workers: usize,
    /// Request timeout in seconds
    pub request_timeout: u64,
    /// Enable TLS
    pub enable_tls: bool,
}

/// Database configuration.
#[derive(Debug, Clone)]
pub struct DatabaseConfig {
    /// Database URL
    pub url: String,
    /// Connection pool size
    pub pool_size: u32,
    /// Connection timeout in seconds
    pub connection_timeout: u64,
    /// Enable query logging
    pub log_queries: bool,
}

/// Redis configuration.
#[derive(Debug, Clone)]
pub struct RedisConfig {
    /// Redis URL
    pub url: String,
    /// Connection pool size
    pub pool_size: usize,
    /// Default TTL in seconds
    pub default_ttl: u64,
    /// Event stream name
    pub event_stream: String,
    /// Consumer group name
    pub consumer_group: String,
}

/// Event monitor configuration.
#[derive(Debug, Clone)]
pub struct EventMonitorConfig {
    /// Enable event monitoring
    pub enabled: bool,
    /// Polling interval in milliseconds
    pub poll_interval_ms: u64,
    /// Batch size for event processing
    pub batch_size: usize,
    /// Event retention in days
    pub retention_days: u32,
    /// Enable real-time alerts
    pub enable_alerts: bool,
}

/// Decision engine configuration.
#[derive(Debug, Clone)]
pub struct DecisionEngineConfig {
    /// Enable model-based routing
    pub enable_ml_routing: bool,
    /// Model update interval in hours
    pub model_update_interval_hours: u64,
    /// Minimum training samples
    pub min_training_samples: usize,
    /// Confidence threshold for decisions, basis points
    pub confidence_threshold: i32,
    /// Enable A/B testing
    pub enable_ab_testing: bool,
}

/// Anomaly detection configuration.
#[derive(Debug, Clone)]
pub struct AnomalyDetectionConfig {
    /// Enable anomaly detection
    pub enabled: bool,
    /// Detection sensitivity, basis points of a full score
    pub sensitivity: i32,
    /// Window size for analysis (in minutes)
    pub window_size_minutes: u32,
    /// Alert threshold (number of anomalies before alerting)
    pub alert_threshold: u32,
    /// Enable fraud detection
    pub enable_fraud_detection: bool,
}

/// Self-healing configuration.
#[derive(Debug, Clone)]
pub struct SelfHealingConfig {
    /// Enable self-healing
    pub enabled: bool,
    /// Maximum retry attempts
    pub max_retry_attempts: u32,
    /// Initial retry delay in seconds
    pub initial_retry_delay_seconds: u64,
    /// Retry backoff multiplier, hundredths
    pub retry_backoff_multiplier: u32,
    /// Auto-switch connectors on failure
    pub auto_switch_connectors: bool,
    /// Failure threshold for connector switching
    pub failure_threshold: u32,
}

/// Analytics configuration.
#[derive(Debug, Clone)]
pub struct AnalyticsConfig {
    /// Enable analytics
    pub enabled: bool,
    /// Analytics aggregation interval in minutes
    pub aggregation_interval_minutes: u32,
    /// Historical data retention in days
    pub retention_days: u32,
    /// Enable predictive analytics
    pub enable_predictions: bool,
    /// Forecast horizon in days
    pub forecast_horizon_days: u32,
}

/// Resource manager configuration.
#[derive(Debug, Clone)]
pub struct ResourceManagerConfig {
    /// Enable auto-scaling
    pub enable_auto_scaling: bool,
    /// CPU threshold for scaling up, hundredths of a percent
    pub cpu_scale_up_threshold: u32,
    /// CPU threshold for scaling down, hundredths of a percent
    pub cpu_scale_down_threshold: u32,
    /// Memory threshold for scaling up, hundredths of a percent
    pub memory_scale_up_threshold: u32,
    /// Memory threshold for scaling down, hundredths of a percent
    pub memory_scale_down_threshold: u32,
    /// Minimum instances
    pub min_instances: u32,
    /// Maximum instances
    pub max_instances: u32,
    /// Scale cooldown period in seconds
    pub scale_cooldown_seconds: u64,
}

/// Main configuration structure.
#[derive(Debug, Clone)]
pub struct Settings {
    /// Server configuration
    pub server: ServerConfig,
    /// Database configuration
    pub database: DatabaseConfig,
    /// Redis configuration
    pub redis: RedisConfig,
    /// Event monitor configuration
    pub event_monitor: EventMonitorConfig,
    /// Decision engine configuration
    pub decision_engine: DecisionEngineConfig,
    /// Anomaly detection configuration
    pub anomaly_detection: AnomalyDetectionConfig,
    /// Self-healing configuration
    pub self_healing: SelfHealingConfig,
    /// Analytics configuration
    pub analytics: AnalyticsConfig,
    /// Resource management configuration
    pub resource_manager: ResourceManagerConfig,
}

/// A configuration that validation accepts.
pub open spec fn settings_valid(s: Settings) -> bool {
    &&& s.server.port != 0
    &&& 0 <= s.decision_engine.confidence_threshold <= 10_000
    &&& 0 <= s.anomaly_detection.sensitivity <= 10_000
}

/// The built-in server defaults (the worker count follows the machine).
pub open spec fn server_is_default(c: ServerConfig) -> bool {
    &&& c.host@ == "127.0.0.1"@
    &&& c.port == 8090
    &&& c.workers >= 1
    &&& c.request_timeout == 30
    &&& !c.enable_tls
}

/// The built-in database defaults.
pub open spec fn database_is_default(c: DatabaseConfig) -> bool {
    &&& c.url@ == "postgresql://localhost/hyperswitch_db"@
    &&& c.pool_size == 10
    &&& c.connection_timeout == 30
    &&& !c.log_queries
}

/// The built-in Redis defaults.
pub open spec fn redis_is_default(c: RedisConfig) -> bool {
    &&& c.url@ == "redis://localhost:6379"@
    &&& c.pool_size == 20
    &&& c.default_ttl == 3600
    &&& c.event_stream@ == "apos:events"@
    &&& c.consumer_group@ == "apos_consumers"@
}

/// The built-in event monitor defaults.
pub open spec fn event_monitor_is_default(c: EventMonitorConfig) -> bool {
    &&& c.enabled
    &&& c.poll_interval_ms == 100
    &&& c.batch_size == 50
    &&& c.retention_days == 30
    &&& c.enable_alerts
}

/// The built-in decision engine defaults.
pub open spec fn decision_engine_is_default(c: DecisionEngineConfig) -> bool {
    &&& c.enable_ml_routing
    &&& c.model_update_interval_hours == 24
    &&& c.min_training_samples == 1000
    &&& c.confidence_threshold == 7500
    &&& c.enable_ab_testing
}

/// The built-in anomaly detection defaults.
pub open spec fn anomaly_detection_is_default(c: AnomalyDetectionConfig) -> bool {
    &&& c.enabled
    &&& c.sensitivity == 8500
    &&& c.window_size_minutes == 60
    &&& c.alert_threshold == 5
    &&& c.enable_fraud_detection
}

/// The built-in self-healing defaults.
pub open spec fn self_healing_is_default(c: SelfHealingConfig) -> bool {
    &&& c.enabled
    &&& c.max_retry_attempts == 3
    &&& c.initial_retry_delay_seconds == 2
    &&& c.retry_backoff_multiplier == 200
    &&& c.auto_switch_connectors
    &&& c.failure_threshold == 5
}

/// The built-in analytics defaults.
pub open spec fn analytics_is_default(c: AnalyticsConfig) -> bool {
    &&& c.enabled
    &&& c.aggregation_interval_minutes == 15
    &&& c.retention_days == 90
    &&& c.enable_predictions
    &&& c.forecast_horizon_days == 7
}

/// The built-in resource manager defaults.
pub open spec fn resource_manager_is_default(c: ResourceManagerConfig) -> bool {
    &&& c.enable_auto_scaling
    &&& c.cpu_scale_up_threshold == 7500
    &&& c.cpu_scale_down_threshold == 3000
    &&& c.memory_scale_up_threshold == 8000
    &&& c.memory_scale_down_threshold == 4000
    &&& c.min_instances == 1
    &&& c.max_instances == 10
    &&& c.scale_cooldown_seconds == 300
}

/// The whole built-in default configuration.
pub open spec fn settings_is_default(s: Settings) -> bool {
    &&& server_is_default(s.server)
    &&& database_is_default(s.database)
    &&& redis_is_default(s.redis)
    &&& event_monitor_is_default(s.event_monitor)
    &&& decision_engine_is_default(s.decision_engine)
    &&& anomaly_detection_is_default(s.anomaly_detection)
    &&& self_healing_is_default(s.self_healing)
    &&& analytics_is_default(s.analytics)
    &&& resource_manager_is_default(s.resource_manager)
}

impl Default for Settings {
    /// The built-in defaults, which validation accepts.
    fn default() -> (r: Self)
        ensures
            settings_is_default(r),
            settings_valid(r),
    {
        Settings {
            server: ServerConfig {
                host: String::from_str("127.0.0.1"),
                port: 8090,
                workers: worker_count(),
                request_timeout: 30,
                enable_tls: false,
            },
            database: DatabaseConfig {
                url: String::from_str("postgresql://localhost/hyperswitch_db"),
                pool_size: 10,
                connection_timeout: 30,
                log_queries: false,
            },
            redis: RedisConfig {
                url: String::from_str("redis://localhost:6379"),
                pool_size: 20,
                default_ttl: 3600,
                event_stream: String::from_str("apos:events"),
                consumer_group: String::from_str("apos_consumers"),
            },
            event_monitor: EventMonitorConfig {
                enabled: true,
                poll_interval_ms: 100,
                batch_size: 50,
                retention_days: 30,
                enable_alerts: true,
            },
            decision_engine: DecisionEngineConfig {
                enable_ml_routing: true,
                model_update_interval_hours: 24,
                min_training_samples: 1000,
                confidence_threshold: 7500,
                enable_ab_testing: true,
            },
            anomaly_detection: AnomalyDetectionConfig {
                enabled: true,
                sensitivity: 8500,
                window_size_minutes: 60,
                alert_threshold: 5,
                enable_fraud_detection: true,
            },
            self_healing: SelfHealingConfig {
                enabled: true,
                max_retry_attempts: 3,
                initial_retry_delay_seconds: 2,
                retry_backoff_multiplier: 200,
                auto_switch_connectors: true,
                failure_threshold: 5,
            },
            analytics: AnalyticsConfig {
                enabled: true,
                aggregation_interval_minutes: 15,
                retention_days: 90,
                enable_predictions: true,
                forecast_horizon_days: 7,
            },
            resource_manager: ResourceManagerConfig {
                enable_auto_scaling: true,
                cpu_scale_up_threshold: 7500,
                cpu_scale_down_threshold: 3000,
                memory_scale_up_threshold: 8000,
                memory_scale_down_threshold: 4000,
                min_instances: 1,
                max_instances: 10,
                scale_cooldown_seconds: 300,
            },
        }
    }
}

impl Settings {
    /// Load configuration: without an external source this is the
    /// built-in default configuration.
    pub fn new() -> (r: Result<Self, ConfigError>)
        ensures
            r matches Ok(s) && settings_is_default(s) && settings_valid(s),
    {
        Ok(Self::default())
    }

    /// Validate configuration: accepts exactly the configurations whose
    /// port is nonzero and whose confidence threshold and sensitivity
    /// lie within the basis-point scale.
    pub fn validate(&self) -> (r: Result<(), ConfigError>)
        ensures
            r is Ok <==> settings_valid(*self),
            self.server.port == 0 ==> (r matches Err(e) && e matches ConfigError::InvalidConfig(
                m,
            ) && m@ == "Port cannot be 0"@),
            self.server.port != 0 && !(0 <= self.decision_engine.confidence_threshold <= 10_000)
                ==> (r matches Err(e) && e matches ConfigError::InvalidConfig(m) && m@
            == "Confidence threshold must be between 0.0 and 1.0"@),
            self.server.port != 0 && 0 <= self.decision_engine.confidence_threshold <= 10_000 && !(0
                <= self.anomaly_detection.sensitivity <= 10_000) ==> (r matches Err(e)
                && e matches ConfigError::InvalidConfig(m) && m@
            == "Anomaly detection sensitivity must be between 0.0 and 1.0"@),
    {
        if self.server.port == 0 {
            return Err(ConfigError::InvalidConfig(String::from_str("Port cannot be 0")));
        }
        if self.decision_engine.confidence_threshold < 0 || self.decision_engine.confidence_threshold
            > 10_000 {
            return Err(
                ConfigError::InvalidConfig(
                    String::from_str("Confidence threshold must be between 0.0 and 1.0"),
                ),
            );
        }
        if self.anomaly_detection.sensitivity < 0 || self.anomaly_detection.sensitivity > 10_000 {
            return Err(
                ConfigError::InvalidConfig(
                    String::from_str("Anomaly detection sensitivity must be between 0.0 and 1.0"),
                ),
            );
        }
        Ok(())
    }
}

} // verus!
