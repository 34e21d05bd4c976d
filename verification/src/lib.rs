//! Autonomous payment orchestration core: event analytics, anomaly
//! detection, connector routing, self-healing and resource scaling,
//! with machine-checked contracts on every engine operation.

mod analytics;
mod anomaly_detector;
mod config;
mod decision_engine;
mod health;
mod models;
mod resource_manager;
mod state;
mod ring;
mod self_healing;
mod types;
mod utils;

pub use analytics::AnalyticsEngine;
pub use analytics::AnalyticsError;
pub use analytics::AnalyticsStatistics;
pub use analytics::ConnectorMetrics;
pub use analytics::PaymentMethodMetrics;
pub use analytics::amount_or_zero;
pub use analytics::conn_step;
pub use analytics::conns_updated;
pub use analytics::div_trunc;
pub use analytics::has_conn;
pub use analytics::has_method;
pub use analytics::method_step;
pub use analytics::methods_updated;
pub use analytics::rate_bp;
pub use analytics::sat_add_i64;
pub use anomaly_detector::AnomalyDetector;
pub use anomaly_detector::AnomalyDetectorError;
pub use anomaly_detector::AnomalyStatistics;
pub use anomaly_detector::TimePoint;
pub use anomaly_detector::actions_of;
pub use anomaly_detector::amount_signal;
pub use anomaly_detector::anomaly_eq;
pub use anomaly_detector::count_recent;
pub use anomaly_detector::details_of;
pub use anomaly_detector::entity_of;
pub use anomaly_detector::fraud_signal;
pub use anomaly_detector::lemma_amount_detector_threshold;
pub use anomaly_detector::lemma_isqrt_unique;
pub use anomaly_detector::point_vals;
pub use anomaly_detector::spec_isqrt;
pub use anomaly_detector::signal_at_most;
pub use anomaly_detector::signal_matches;
pub use anomaly_detector::spec_signal_type;
pub use anomaly_detector::success_signal;
pub use anomaly_detector::sum_scores;
pub use anomaly_detector::volume_signal;
pub use config::AnalyticsConfig;
pub use config::AnomalyDetectionConfig;
pub use config::ConfigError;
pub use config::DatabaseConfig;
pub use config::DecisionEngineConfig;
pub use config::EventMonitorConfig;
pub use config::RedisConfig;
pub use config::ResourceManagerConfig;
pub use config::SelfHealingConfig;
pub use config::ServerConfig;
pub use config::Settings;
pub use config::settings_is_default;
pub use config::settings_valid;
pub use decision_engine::ConnectorPerformance;
pub use decision_engine::DecisionEngine;
pub use decision_engine::DecisionEngineError;
pub use decision_engine::ModelStatistics;
pub use decision_engine::TrainingDataPoint;
pub use decision_engine::adjusted_score_bp;
pub use decision_engine::base_score_bp;
pub use decision_engine::catalog;
pub use decision_engine::connector_score_bp;
pub use decision_engine::effective_counts;
pub use decision_engine::find_perf;
pub use decision_engine::fresh_decision;
pub use decision_engine::lemma_routing_idempotent;
pub use decision_engine::lru_cap;
pub use decision_engine::lru_contents;
pub use decision_engine::perf_stepped;
pub use decision_engine::point_reads_same;
pub use decision_engine::score_row_ok;
pub use health::HealthChecker;
pub use health::HealthStatus;
pub use health::health_score_of;
pub use health::status_of;
pub use models::AnomalyRecord;
pub use models::AnomalyStatus;
pub use models::AutonomousDecision;
pub use models::EventSeverity;
pub use models::HealingActionRecord;
pub use models::MetricsSnapshot;
pub use models::ModelTrainingRecord;
pub use models::SystemEventLog;
pub use models::TrainingStatus;
pub use resource_manager::ResourceManager;
pub use resource_manager::ResourceManagerError;
pub use resource_manager::ResourceStatistics;
pub use resource_manager::ScalingEvent;
pub use resource_manager::ScalingEventInfo;
pub use resource_manager::count_direction;
pub use resource_manager::direction_name;
pub use resource_manager::down_score;
pub use resource_manager::impact_of;
pub use resource_manager::in_cooldown;
pub use resource_manager::lemma_no_recommendation_in_cooldown;
pub use resource_manager::lemma_target_clamped;
pub use resource_manager::scaling_direction;
pub use resource_manager::scaling_target;
pub use resource_manager::sum_cpu;
pub use resource_manager::sum_memory;
pub use resource_manager::up_score;
pub use ring::BoundedRing;
pub use ring::lemma_ring_fold_is_recent_suffix;
pub use ring::ring_fold;
pub use ring::ring_push;
pub use self_healing::FailureTracker;
pub use self_healing::count_failed;
pub use self_healing::count_status;
pub use self_healing::count_with_recovery;
pub use self_healing::sum_recovery;
pub use self_healing::HealingStatistics;
pub use self_healing::SelfHealingError;
pub use self_healing::SelfHealingService;
pub use self_healing::action_launched;
pub use self_healing::has_tracker;
pub use self_healing::lemma_failover_at_threshold;
pub use self_healing::lemma_success_resets_streak;
pub use self_healing::retriable;
pub use self_healing::switch_fires;
pub use self_healing::tracker_after_failure;
pub use self_healing::tracker_after_success;
pub use self_healing::trackers_after_failure;
pub use self_healing::trackers_after_success;
pub use state::MetricsCache;
pub use state::SessionData;
pub use state::SessionStore;
pub use state::StateError;
pub use state::session_eq;
pub use state::session_fresh;
pub use types::ActionStatus;
pub use types::AnalyticsSummary;
pub use types::AnomalyResult;
pub use types::AnomalyType;
pub use types::ConnectorScore;
pub use types::ConnectorStats;
pub use types::EventType;
pub use types::HealingAction;
pub use types::HealingActionType;
pub use types::HealthMetrics;
pub use types::PaymentEvent;
pub use types::PaymentMethodStats;
pub use types::PredictionResult;
pub use types::RoutingDecision;
pub use types::ScalingDirection;
pub use types::ScalingRecommendation;
pub use types::TimeSeriesPoint;
pub use types::AMOUNT_LIMIT;
pub use types::SCALE_BP;
pub use types::decision_eq;
pub use types::score_eq;

pub use utils::format_duration;
pub use utils::generate_id;
pub use utils::format_bytes;
