use autonomous_orchestrator::AnalyticsEngine;
use autonomous_orchestrator::AnomalyDetector;
use autonomous_orchestrator::AnomalyType;
use autonomous_orchestrator::DecisionEngine;
use autonomous_orchestrator::EventType;
use autonomous_orchestrator::HealingActionType;
use autonomous_orchestrator::HealthChecker;
use autonomous_orchestrator::HealthMetrics;
use autonomous_orchestrator::HealthStatus;
use autonomous_orchestrator::PaymentEvent;
use autonomous_orchestrator::ResourceManager;
use autonomous_orchestrator::ScalingDirection;
use autonomous_orchestrator::SelfHealingService;
use autonomous_orchestrator::Settings;

fn create_test_config() -> Settings {
    Settings::default()
}

fn create_test_payment_event(status: &str) -> PaymentEvent {
    PaymentEvent {
        event_id: uuid::Uuid::new_v4().to_string(),
        event_type: if status == "succeeded" {
            EventType::PaymentSucceeded
        } else {
            EventType::PaymentFailed
        },
        timestamp: 1_700_000_000,
        payment_id: format!("pay_{}", uuid::Uuid::new_v4()),
        merchant_id: "merchant_test".to_string(),
        connector: Some("stripe".to_string()),
        payment_method: Some("card".to_string()),
        amount: Some(10000),
        currency: Some("USD".to_string()),
        status: status.to_string(),
        error_code: if status == "failed" {
            Some("card_declined".to_string())
        } else {
            None
        },
        error_message: if status == "failed" {
            Some("Card was declined".to_string())
        } else {
            None
        },
        metadata: Vec::new(),
    }
}

fn sample_metrics() -> HealthMetrics {
    HealthMetrics {
        timestamp: 1_700_000_000,
        cpu_usage: 5500,
        memory_usage: 6000,
        active_connections: 120,
        request_rate: 250,
        avg_response_time_ms: 75,
        error_rate: 120,
        queue_depth: 20,
        db_pool_usage: 4500,
        redis_pool_usage: 3000,
    }
}

#[test]
fn test_decision_engine_routing() {
    let config = create_test_config();
    let mut engine = DecisionEngine::new(config);
    let event = create_test_payment_event("succeeded");

    let decision = engine.make_routing_decision(&event);
    assert!(decision.is_ok());

    let decision = decision.unwrap();
    assert!(!decision.recommended_connector.is_empty());
    assert!(decision.confidence <= 10_000);
    assert!(!decision.alternatives.is_empty());
}

#[test]
fn test_decision_engine_performance_update() {
    let config = create_test_config();
    let mut engine = DecisionEngine::new(config);

    engine.update_performance("stripe", true, 150);
    engine.update_performance("stripe", true, 200);
    engine.update_performance("stripe", false, 300);

    let stats = engine.get_model_stats();
    assert_eq!(stats.training_samples, 0);
}

#[test]
fn test_anomaly_detector_volume_spike() {
    let config = create_test_config();
    let mut detector = AnomalyDetector::new(config);

    for _ in 0..20 {
        let event = create_test_payment_event("succeeded");
        let _ = detector.analyze_event(&event);
    }

    let stats = detector.get_statistics();
    assert!(stats.total_detected < 1000);
}

#[test]
fn test_anomaly_detector_fraud_detection() {
    let mut config = create_test_config();
    config.anomaly_detection.enable_fraud_detection = true;
    config.anomaly_detection.sensitivity = 5000;

    let mut detector = AnomalyDetector::new(config);

    let mut event = create_test_payment_event("succeeded");
    event.amount = Some(200000);

    let result = detector.analyze_event(&event);
    assert!(result.is_ok());
}

#[test]
fn test_self_healing_failure_tracking() {
    let config = create_test_config();
    let mut service = SelfHealingService::new(config);

    for _ in 0..3 {
        let event = create_test_payment_event("failed");
        let _ = service.evaluate_event(&event);
    }

    let stats = service.get_statistics();
    assert!(stats.tracked_connectors > 0);
}

#[test]
fn test_self_healing_connector_switch() {
    let mut config = create_test_config();
    config.self_healing.auto_switch_connectors = true;
    config.self_healing.failure_threshold = 2;

    let mut service = SelfHealingService::new(config);

    for _ in 0..3 {
        let event = create_test_payment_event("failed");
        let _ = service.evaluate_event(&event);
    }

    let active_actions = service.get_active_actions();
    assert!(!active_actions.is_empty());
}

#[test]
fn test_analytics_event_processing() {
    let config = create_test_config();
    let mut analytics = AnalyticsEngine::new(config);

    for i in 0..10 {
        let status = if i % 3 == 0 { "failed" } else { "succeeded" };
        let event = create_test_payment_event(status);
        let _ = analytics.process_event(&event);
    }

    let summary = analytics.get_summary();
    assert_eq!(summary.total_payments, 10);
    assert!(summary.successful_payments > 0);
    assert!(summary.failed_payments > 0);
    assert!(summary.success_rate > 0);
}

#[test]
fn test_analytics_predictions() {
    let config = create_test_config();
    let analytics = AnalyticsEngine::new(config);

    let result = analytics.predict("payment_volume");
    assert!(result.is_err());
}

#[test]
fn test_resource_manager_scaling_evaluation() {
    let config = create_test_config();
    let mut manager = ResourceManager::new(config);

    let metrics = sample_metrics();
    let recommendation = manager.evaluate_scaling(&metrics);

    assert!(recommendation.is_ok());
}

#[test]
fn test_resource_manager_instance_tracking() {
    let config = create_test_config();
    let manager = ResourceManager::new(config);

    let initial_count = manager.get_instance_count();
    assert!(initial_count >= 1);

    let stats = manager.get_statistics();
    assert_eq!(stats.current_instances, initial_count);
}

#[test]
fn test_health_score_calculation() {
    let metrics = sample_metrics();
    let score = HealthChecker::calculate_health_score(&metrics);

    assert!(score <= 10_000);
    assert_eq!(score, 10_000 - 120 * 5);
    assert_eq!(
        HealthChecker::get_health_status(score),
        HealthStatus::Healthy
    );
}

#[test]
fn test_health_score_penalties() {
    let mut metrics = sample_metrics();
    metrics.cpu_usage = 9000;
    metrics.memory_usage = 9500;
    metrics.avg_response_time_ms = 700;
    metrics.error_rate = 0;

    // 10000 - 1000 (cpu) - 1000 (memory) - 2000 (response time)
    let score = HealthChecker::calculate_health_score(&metrics);
    assert_eq!(score, 6000);
    assert_eq!(
        HealthChecker::get_health_status(score),
        HealthStatus::Unhealthy
    );
}

#[test]
fn test_config_validation() {
    let config = create_test_config();
    let result = config.validate();
    assert!(result.is_ok());
}

#[test]
fn test_config_invalid_threshold() {
    let mut config = create_test_config();
    config.decision_engine.confidence_threshold = 15_000;

    let result = config.validate();
    assert!(result.is_err());
}

#[test]
fn test_config_invalid_sensitivity() {
    let mut config = create_test_config();
    config.anomaly_detection.sensitivity = -5000;

    let result = config.validate();
    assert!(result.is_err());
}

#[test]
fn routing_is_idempotent_per_payment_id() {
    let config = create_test_config();
    let mut engine = DecisionEngine::new(config);
    let event = create_test_payment_event("succeeded");

    let first = engine.make_routing_decision(&event).unwrap();
    let second = engine.make_routing_decision(&event).unwrap();

    assert_eq!(second.id, first.id);
    assert_eq!(second.timestamp, first.timestamp);
    assert_eq!(second.payment_id, first.payment_id);
    assert_eq!(second.recommended_connector, first.recommended_connector);
    assert_eq!(second.confidence, first.confidence);
    assert_eq!(second.rationale, first.rationale);
    assert_eq!(second.alternatives.len(), first.alternatives.len());
    for (a, b) in second.alternatives.iter().zip(first.alternatives.iter()) {
        assert_eq!(a.connector, b.connector);
        assert_eq!(a.score, b.score);
        assert_eq!(a.expected_success_rate, b.expected_success_rate);
        assert_eq!(a.expected_latency_ms, b.expected_latency_ms);
    }
}

#[test]
fn routing_prefers_card_adjusted_connectors() {
    let config = create_test_config();
    let mut engine = DecisionEngine::new(config);
    // Card payment with a large amount: stripe gets both adjustments on
    // equal base scores and must rank first.
    let mut event = create_test_payment_event("succeeded");
    event.amount = Some(60_000);

    let decision = engine.make_routing_decision(&event).unwrap();
    assert_eq!(decision.recommended_connector, "stripe");
    assert_eq!(decision.alternatives.len(), 4);
    // Base: 0.7 * 8000 + 0.3 * 5000 = 7100 bp; stripe: * 1.1 * 1.05.
    assert_eq!(decision.confidence, 7100 * 11 / 10 * 21 / 20);
}

#[test]
fn feedback_changes_future_scores() {
    let config = create_test_config();
    let mut engine = DecisionEngine::new(config);

    // Make adyen's history terrible, then route a non-card payment so
    // no adjustment masks the difference.
    for _ in 0..50 {
        engine.update_performance("adyen", false, 2000);
    }
    let mut event = create_test_payment_event("succeeded");
    event.payment_method = Some("bank_transfer".to_string());
    event.amount = Some(100);

    let decision = engine.make_routing_decision(&event).unwrap();
    assert_ne!(decision.recommended_connector, "adyen");
    let worst = decision.alternatives.last().unwrap();
    assert_eq!(worst.connector, "adyen");
    assert_eq!(worst.expected_success_rate, 0);
}

#[test]
fn failover_fires_at_exact_threshold() {
    let mut config = create_test_config();
    config.self_healing.auto_switch_connectors = true;
    config.self_healing.failure_threshold = 2;

    let mut service = SelfHealingService::new(config);
    let event = create_test_payment_event("failed");

    // First failure: below the threshold, so no switch yet; the
    // declined card is retriable, so a retry is launched instead.
    let first = service.evaluate_event(&event).unwrap().unwrap();
    assert_eq!(first.action_type, HealingActionType::RetryPayment);

    // Second consecutive failure reaches the threshold: a switch is
    // launched on the triggering event.
    let second = service.evaluate_event(&event).unwrap().unwrap();
    assert_eq!(second.action_type, HealingActionType::SwitchConnector);

    // One success resets the streak; the next failure retries again.
    let ok = create_test_payment_event("succeeded");
    assert!(service.evaluate_event(&ok).unwrap().is_none());
    let stats = service.get_statistics();
    assert_eq!(stats.failed_connectors, 0);
}

#[test]
fn non_retriable_errors_launch_no_retry() {
    let config = create_test_config();
    let mut service = SelfHealingService::new(config);

    let mut event = create_test_payment_event("failed");
    event.error_code = Some("insufficient_funds".to_string());

    let action = service.evaluate_event(&event).unwrap();
    assert!(action.is_none());
}

#[test]
fn completed_actions_move_to_history() {
    let config = create_test_config();
    let mut service = SelfHealingService::new(config);
    let event = create_test_payment_event("failed");

    let action = service.evaluate_event(&event).unwrap().unwrap();
    assert_eq!(service.get_active_actions().len(), 1);

    service.complete_action(
        &action.id,
        autonomous_orchestrator::ActionStatus::Success,
        "retry landed".to_string(),
    );
    assert_eq!(service.get_active_actions().len(), 0);

    let history = service.get_action_history(10);
    assert_eq!(history.len(), 1);
    assert_eq!(history[0].id, action.id);
    assert_eq!(
        history[0].status,
        autonomous_orchestrator::ActionStatus::Success
    );

    let stats = service.get_statistics();
    assert_eq!(stats.total_actions, 1);
    assert_eq!(stats.successful_actions, 1);
}

#[test]
fn cooldown_blocks_recommendations() {
    let config = create_test_config();
    let mut manager = ResourceManager::new(config);

    let mut hot = sample_metrics();
    hot.cpu_usage = 9000;
    hot.memory_usage = 9000;

    let rec = manager
        .evaluate_scaling_at(&hot, 1000)
        .unwrap()
        .expect("auto-scaling is on");
    assert_eq!(rec.direction, ScalingDirection::Up);
    assert_eq!(rec.target_instances, 2);
    manager.execute_scaling_at(rec, 1000).unwrap();
    assert_eq!(manager.get_instance_count(), 2);

    // Inside the five-minute cooldown nothing is recommended.
    let blocked = manager.evaluate_scaling_at(&hot, 1100).unwrap();
    assert!(blocked.is_none());

    // After the cooldown, recommendations flow again.
    let after = manager.evaluate_scaling_at(&hot, 1400).unwrap();
    assert!(after.is_some());
}

#[test]
fn scaling_targets_stay_clamped() {
    let mut config = create_test_config();
    config.resource_manager.max_instances = 2;
    config.resource_manager.scale_cooldown_seconds = 0;
    let mut manager = ResourceManager::new(config);

    let mut hot = sample_metrics();
    hot.cpu_usage = 9000;
    hot.memory_usage = 9000;

    let mut now: u64 = 1000;
    for _ in 0..5 {
        if let Some(rec) = manager.evaluate_scaling_at(&hot, now).unwrap() {
            assert!(rec.target_instances >= 1);
            assert!(rec.target_instances <= 2);
            manager.execute_scaling_at(rec, now).unwrap();
        }
        now += 1000;
    }
    assert_eq!(manager.get_instance_count(), 2);

    let mut cold = sample_metrics();
    cold.cpu_usage = 100;
    cold.memory_usage = 100;
    cold.request_rate = 10;
    let rec = manager
        .evaluate_scaling_at(&cold, now)
        .unwrap()
        .expect("auto-scaling is on");
    assert_eq!(rec.direction, ScalingDirection::Down);
    assert_eq!(rec.target_instances, 1);
}

#[test]
fn scaling_history_records_transitions() {
    let mut config = create_test_config();
    config.resource_manager.scale_cooldown_seconds = 0;
    let mut manager = ResourceManager::new(config);

    let mut hot = sample_metrics();
    hot.cpu_usage = 9000;
    hot.memory_usage = 9000;

    let rec = manager.evaluate_scaling_at(&hot, 50).unwrap().unwrap();
    manager.execute_scaling_at(rec, 50).unwrap();

    let history = manager.get_scaling_history(10);
    assert_eq!(history.len(), 1);
    assert_eq!(history[0].direction, "Up");
    assert_eq!(history[0].from_instances, 1);
    assert_eq!(history[0].to_instances, 2);

    let stats = manager.get_statistics_at(60);
    assert_eq!(stats.total_scaling_events, 1);
    assert_eq!(stats.scale_up_events, 1);
    assert_eq!(stats.scale_down_events, 0);
    // The cooldown was zeroed above, so the window is already shut.
    assert!(!stats.is_in_cooldown);
}

#[test]
fn summary_partitions_all_succeeded_events() {
    let config = create_test_config();
    let mut analytics = AnalyticsEngine::new(config);

    for _ in 0..5 {
        let event = create_test_payment_event("succeeded");
        analytics.process_event(&event).unwrap();
    }

    let summary = analytics.get_summary();
    assert_eq!(summary.total_payments, 5);
    assert_eq!(summary.successful_payments, 5);
    assert_eq!(summary.failed_payments, 0);
    assert_eq!(
        summary.successful_payments + summary.failed_payments,
        summary.total_payments
    );
    assert_eq!(summary.success_rate, 10_000);
    assert_eq!(summary.total_amount, 5 * 10000);
    assert_eq!(summary.avg_amount, 10000);
}

#[test]
fn summary_ranks_connectors_by_volume() {
    let config = create_test_config();
    let mut analytics = AnalyticsEngine::new(config);

    for i in 0..6 {
        let mut event = create_test_payment_event("succeeded");
        event.connector = Some(if i < 2 { "adyen" } else { "stripe" }.to_string());
        analytics.process_event(&event).unwrap();
    }

    let summary = analytics.get_summary();
    assert_eq!(summary.top_connectors.len(), 2);
    assert_eq!(summary.top_connectors[0].connector, "stripe");
    assert_eq!(summary.top_connectors[0].total_transactions, 4);
    assert_eq!(summary.top_connectors[1].connector, "adyen");
    assert_eq!(summary.top_connectors[1].total_transactions, 2);
}

#[test]
fn prediction_needs_a_hundred_points() {
    let config = create_test_config();
    let mut analytics = AnalyticsEngine::new(config);

    // 99 buffered points still fail with an insufficient-data error.
    for _ in 0..99 {
        let mut event = create_test_payment_event("succeeded");
        event.amount = Some(5000);
        event.timestamp = 9_000_000;
        analytics.process_event_at(&event, 10_000_000).unwrap();
    }
    match analytics.predict_at("payment_volume", 10_000_000) {
        Err(autonomous_orchestrator::AnalyticsError::InsufficientData(_)) => {}
        _ => panic!("expected an insufficient-data error"),
    }

    // The hundredth point turns the forecast on.
    let mut event = create_test_payment_event("succeeded");
    event.amount = Some(5000);
    event.timestamp = 9_000_000;
    analytics.process_event_at(&event, 10_000_000).unwrap();

    let p = analytics
        .predict_at("payment_volume", 10_000_000)
        .expect("a hundred points suffice");
    assert_eq!(p.metric, "payment_volume");
    // Constant amounts: zero deviation, so the interval collapses
    // symmetrically onto the mean and every projection equals it.
    assert_eq!(p.confidence_interval, (5000, 5000));
    assert_eq!(p.predictions.len(), 7);
    for (i, point) in p.predictions.iter().enumerate() {
        assert_eq!(point.value, 5000);
        assert_eq!(point.timestamp, 10_000_000 + ((i as u64) + 1) * 86400);
    }
    assert_eq!(p.model_accuracy, Some(8500));
}

#[test]
fn prediction_interval_is_symmetric_with_spread() {
    let config = create_test_config();
    let mut analytics = AnalyticsEngine::new(config);

    for i in 0..120 {
        let mut event = create_test_payment_event("succeeded");
        event.amount = Some(if i % 2 == 0 { 4000 } else { 6000 });
        event.timestamp = 9_000_000;
        analytics.process_event_at(&event, 10_000_000).unwrap();
    }

    let p = analytics
        .predict_at("payment_volume", 10_000_000)
        .expect("plenty of points");
    let (lo, hi) = p.confidence_interval;
    // Symmetric around the window mean of 5000, deviation 1000.
    assert_eq!(lo + hi, 2 * 5000);
    assert_eq!(lo, 4000);
    assert_eq!(hi, 6000);
    for point in &p.predictions {
        assert!(point.value >= lo && point.value <= hi);
    }
}

#[test]
fn amount_detector_fires_past_three_deviations() {
    let mut config = create_test_config();
    // Keep the fraud heuristic quiet so the amount signal stands alone.
    config.anomaly_detection.enable_fraud_detection = false;
    let mut detector = AnomalyDetector::new(config);

    // Twenty steady amounts build the window.
    for _ in 0..20 {
        let mut event = create_test_payment_event("succeeded");
        event.amount = Some(1000);
        let r = detector.analyze_event(&event).unwrap();
        assert!(r.is_none());
    }

    // An amount equal to the window mean never fires.
    let mut same = create_test_payment_event("succeeded");
    same.amount = Some(1000);
    assert!(detector.analyze_event(&same).unwrap().is_none());

    // An extreme outlier always fires the unusual-pattern detector.
    let mut outlier = create_test_payment_event("succeeded");
    outlier.amount = Some(1_000_000);
    let fired = detector
        .analyze_event(&outlier)
        .unwrap()
        .expect("outlier beyond three deviations");
    assert_eq!(fired.anomaly_type, AnomalyType::UnusualPattern);
    assert!(fired.is_anomaly);
    assert!(fired.score > 0 && fired.score <= 10_000);
    assert_eq!(fired.entity_id, outlier.payment_id);

    let recent = detector.get_anomalies(5);
    assert_eq!(recent.len(), 1);
    assert_eq!(recent[0].anomaly_type, AnomalyType::UnusualPattern);
}

#[test]
fn fraud_heuristic_adds_amount_and_decline_points() {
    let mut config = create_test_config();
    config.anomaly_detection.sensitivity = 4000;
    let mut detector = AnomalyDetector::new(config);

    // High amount (+3000) with a card decline (+2000) passes a 0.4
    // sensitivity.
    let mut event = create_test_payment_event("failed");
    event.amount = Some(200_000);
    let fired = detector
        .analyze_event(&event)
        .unwrap()
        .expect("heuristic total exceeds sensitivity");
    assert_eq!(fired.anomaly_type, AnomalyType::PotentialFraud);
    assert_eq!(fired.score, 5000);
}

#[test]
fn disabled_engines_observe_nothing() {
    let mut config = create_test_config();
    config.anomaly_detection.enabled = false;
    config.self_healing.enabled = false;
    config.analytics.enabled = false;

    let mut detector = AnomalyDetector::new(config.clone());
    let mut service = SelfHealingService::new(config.clone());
    let mut analytics = AnalyticsEngine::new(config);

    let event = create_test_payment_event("failed");
    assert!(detector.analyze_event(&event).unwrap().is_none());
    assert!(service.evaluate_event(&event).unwrap().is_none());
    analytics.process_event(&event).unwrap();
    assert_eq!(analytics.get_summary().total_payments, 0);
}

#[test]
fn training_needs_enough_samples() {
    let mut config = create_test_config();
    config.decision_engine.min_training_samples = 2;
    let mut engine = DecisionEngine::new(config);

    match engine.train_model() {
        Err(autonomous_orchestrator::DecisionEngineError::InsufficientData(_)) => {}
        _ => panic!("expected an insufficient-data error"),
    }

    engine.add_training_data(vec![1, 2, 3], 1);
    engine.add_training_data(vec![4, 5, 6], 0);
    assert!(engine.train_model().is_ok());
    assert_eq!(engine.get_model_stats().training_samples, 2);
}

#[test]
fn decision_ids_look_fresh() {
    let config = create_test_config();
    let mut engine = DecisionEngine::new(config);

    let a = engine
        .make_routing_decision(&create_test_payment_event("succeeded"))
        .unwrap();
    let b = engine
        .make_routing_decision(&create_test_payment_event("succeeded"))
        .unwrap();
    assert_eq!(a.id.len(), 36);
    assert_ne!(a.id, b.id);
}

#[test]
fn default_config_tracks_the_machine() {
    let settings = Settings::default();
    assert!(settings.server.workers >= 1);
    assert_eq!(settings.server.port, 8090);
    assert_eq!(settings.self_healing.failure_threshold, 5);
}
