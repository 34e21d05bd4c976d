use autonomous_orchestrator::AnalyticsEngine;
use autonomous_orchestrator::AnomalyDetector;
use autonomous_orchestrator::BoundedRing;
use autonomous_orchestrator::SessionStore;
use autonomous_orchestrator::Settings;

#[test]
fn rings_never_exceed_capacity_and_keep_recent_items() {
    let mut ring: BoundedRing<u64> = BoundedRing::new(3);
    for v in 0..10u64 {
        ring.push(v);
        assert!(ring.len() <= 3);
    }
    assert_eq!(ring.len(), 3);
    assert_eq!(*ring.get(0), 7);
    assert_eq!(*ring.get(1), 8);
    assert_eq!(*ring.get(2), 9);
}

#[test]
fn ring_below_capacity_keeps_everything() {
    let mut ring: BoundedRing<u64> = BoundedRing::new(5);
    ring.push(11);
    ring.push(22);
    assert_eq!(ring.len(), 2);
    assert_eq!(*ring.get(0), 11);
    assert_eq!(*ring.get(1), 22);
    assert_eq!(ring.capacity(), 5);
}

#[test]
fn sessions_round_trip_and_sweep() {
    let mut store = SessionStore::new();
    let id_a = store.create_session_at(100);
    let id_b = store.create_session_at(500);
    assert_eq!(store.len(), 2);

    let found = store.get_session(&id_a).expect("session a is registered");
    assert_eq!(found.id, id_a);
    assert_eq!(found.created_at, 100);
    assert!(store.get_session("sess_unknown").is_none());

    store.update_session_activity_at(&id_a, 900);
    // Sweep at 1000 with a 300-second age: only the refreshed session
    // survives.
    store.cleanup_sessions_at(300, 1000);
    assert_eq!(store.len(), 1);
    assert!(store.get_session(&id_a).is_some());
    assert!(store.get_session(&id_b).is_none());
}

#[test]
fn analytics_reset_clears_aggregates_but_keeps_samples() {
    let mut analytics = AnalyticsEngine::new(Settings::default());
    for _ in 0..4 {
        let event = sample_event();
        analytics.process_event_at(&event, 10_000_000).unwrap();
    }
    let stats_before = analytics.get_statistics_at(10_000_001);
    assert_eq!(stats_before.total_events_processed, 4);
    assert_eq!(stats_before.time_series_points, 4);
    assert_eq!(stats_before.data_freshness_seconds, 1);

    analytics.reset();
    let stats = analytics.get_statistics_at(10_000_001);
    assert_eq!(stats.total_events_processed, 0);
    assert_eq!(stats.unique_connectors, 0);
    assert_eq!(stats.unique_payment_methods, 0);
    assert_eq!(stats.time_series_points, 4);
    assert_eq!(stats.data_freshness_seconds, 0);
}

#[test]
fn anomaly_history_is_bounded() {
    let mut config = Settings::default();
    config.anomaly_detection.sensitivity = 1000;
    let mut detector = AnomalyDetector::new(config);

    // Every event trips the fraud heuristic; the history ring still
    // never passes its fixed capacity.
    for _ in 0..1010 {
        let mut event = sample_event();
        event.amount = Some(200_000);
        let fired = detector.analyze_event(&event).unwrap();
        assert!(fired.is_some());
    }
    let stats = detector.get_statistics();
    assert_eq!(stats.total_detected, 1000);
    assert_eq!(stats.avg_score, 3000);
}

fn sample_event() -> autonomous_orchestrator::PaymentEvent {
    autonomous_orchestrator::PaymentEvent {
        event_id: "evt_1".to_string(),
        event_type: autonomous_orchestrator::EventType::PaymentSucceeded,
        timestamp: 9_999_999,
        payment_id: "pay_1".to_string(),
        merchant_id: "merchant_1".to_string(),
        connector: Some("stripe".to_string()),
        payment_method: Some("card".to_string()),
        amount: Some(2500),
        currency: Some("USD".to_string()),
        status: "succeeded".to_string(),
        error_code: None,
        error_message: None,
        metadata: Vec::new(),
    }
}
