use system_monitor::history::{MetricHistory, HISTORY_CAPACITY};

#[test]
fn empty_history_has_no_latest() {
    let h: MetricHistory<u32> = MetricHistory::new();
    assert_eq!(h.latest(), None);
    assert_eq!(h.len(), 0);
    assert!(h.metrics().is_empty());
}

#[test]
fn history_keeps_the_last_twenty() {
    let mut h = MetricHistory::new();
    for i in 0..25u32 {
        h.add_metric(i);
        assert_eq!(h.latest(), Some(&i));
        assert!(h.len() <= HISTORY_CAPACITY);
    }
    assert_eq!(HISTORY_CAPACITY, 20);
    assert_eq!(h.len(), 20);
    let expected: Vec<u32> = (5..25).collect();
    assert_eq!(h.metrics(), expected.as_slice());
}

#[test]
fn history_below_capacity_keeps_everything() {
    let mut h = MetricHistory::new();
    for s in ["a", "b", "c"] {
        h.add_metric(s.to_string());
    }
    assert_eq!(h.metrics(), &["a".to_string(), "b".to_string(), "c".to_string()]);
    assert_eq!(h.latest().map(|s| s.as_str()), Some("c"));
}
