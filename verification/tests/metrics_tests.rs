use concurrency::CmapMetrics;
use concurrency::Metrics;
use concurrency::MetricsError;

#[test]
fn metrics_inc_and_dec_move_counters() {
    let mut metrics = Metrics::new();
    metrics.inc("req.page.1".to_string()).unwrap();
    metrics.inc("req.page.1".to_string()).unwrap();
    metrics.dec("call.worker.0".to_string()).unwrap();
    let snapshot = metrics.snapshot().unwrap();
    assert_eq!(
        snapshot,
        vec![
            ("req.page.1".to_string(), 2),
            ("call.worker.0".to_string(), -1)
        ]
    );
}

#[test]
fn metrics_debug_rendering_is_exact() {
    let mut metrics = Metrics::new();
    assert_eq!(metrics.debug().unwrap(), "{}");
    metrics.inc("a".to_string()).unwrap();
    metrics.inc("a".to_string()).unwrap();
    metrics.dec("b".to_string()).unwrap();
    assert_eq!(metrics.debug().unwrap(), "{\"a\": 2, \"b\": -1}");
}

#[test]
fn metrics_inc_fails_only_at_the_upper_limit() {
    let mut metrics = Metrics {
        keys: vec!["x".to_string()],
        vals: vec![i64::MAX],
    };
    let err = metrics.inc("x".to_string()).unwrap_err();
    assert_eq!(err, MetricsError::CounterOverflow);
    assert_eq!(err.message(), "Metrics error: counter out of range");
    assert!(metrics.inc("y".to_string()).is_ok());
}

#[test]
fn metrics_dec_fails_only_at_the_lower_limit() {
    let mut metrics = Metrics {
        keys: vec!["x".to_string()],
        vals: vec![i64::MIN],
    };
    assert_eq!(
        metrics.dec("x".to_string()).unwrap_err(),
        MetricsError::CounterOverflow
    );
    assert!(metrics.dec("y".to_string()).is_ok());
}

#[test]
fn metrics_default_is_empty() {
    let metrics = Metrics::default();
    assert_eq!(metrics.snapshot().unwrap(), vec![]);
}

#[test]
fn cmap_metrics_counts_through_shared_clones() {
    let metrics = CmapMetrics::new();
    let other = metrics.clone();
    metrics.inc("k".to_string()).unwrap();
    other.inc("k".to_string()).unwrap();
    assert_eq!(metrics.debug().unwrap(), "{\"k\": 2}");
}

#[test]
fn cmap_metrics_dec_creates_negative_counter() {
    let metrics = CmapMetrics::new();
    metrics.dec("d".to_string()).unwrap();
    assert_eq!(metrics.debug().unwrap(), "{\"d\": -1}");
}
