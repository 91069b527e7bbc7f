use rpc_proxy::metrics::Metric;
use rpc_proxy::providers::ProviderKind;
use rpc_proxy::tracker::RateLimitTracker;

#[test]
fn new_tracker_holds_nothing() {
    let tracker = RateLimitTracker::new(30);
    assert_eq!(tracker.cooldown_window(), 30);
    assert_eq!(tracker.rejection_count(0, "p1"), 0);
    assert_eq!(tracker.rejected_until(0, "p1"), 0);
    assert!(!tracker.is_in_cooldown(0, "p1", 0));
}

#[test]
fn rejection_starts_cooldown() {
    let mut tracker = RateLimitTracker::new(30);
    tracker.record_rejection(2, "p1", 100);
    assert_eq!(tracker.rejection_count(2, "p1"), 1);
    assert_eq!(tracker.rejected_until(2, "p1"), 130);
    assert!(tracker.is_in_cooldown(2, "p1", 100));
    assert!(tracker.is_in_cooldown(2, "p1", 129));
    assert!(!tracker.is_in_cooldown(2, "p1", 130));
    assert!(!tracker.is_in_cooldown(2, "p1", 131));
}

#[test]
fn rejection_extends_cooldown() {
    let mut tracker = RateLimitTracker::new(30);
    tracker.record_rejection(0, "p1", 100);
    tracker.record_rejection(0, "p1", 120);
    assert_eq!(tracker.rejection_count(0, "p1"), 2);
    assert_eq!(tracker.rejected_until(0, "p1"), 150);
}

#[test]
fn earlier_rejection_never_shortens_cooldown() {
    let mut tracker = RateLimitTracker::new(30);
    tracker.record_rejection(0, "p1", 100);
    tracker.record_rejection(0, "p1", 50);
    assert_eq!(tracker.rejection_count(0, "p1"), 2);
    assert_eq!(tracker.rejected_until(0, "p1"), 130);
}

#[test]
fn cooldown_is_scoped_to_tenant_and_provider() {
    let mut tracker = RateLimitTracker::new(30);
    tracker.record_rejection(0, "noisy", 100);
    tracker.record_rejection(0, "noisy", 101);
    assert!(tracker.is_in_cooldown(0, "noisy", 110));
    assert!(!tracker.is_in_cooldown(0, "quiet", 110));
    assert!(!tracker.is_in_cooldown(1, "noisy", 110));
    assert_eq!(tracker.rejection_count(0, "quiet"), 0);
    assert_eq!(tracker.rejection_count(1, "noisy"), 0);
    tracker.record_rejection(1, "quiet", 200);
    assert_eq!(tracker.rejection_count(0, "noisy"), 2);
    assert_eq!(tracker.rejected_until(0, "noisy"), 131);
    assert_eq!(tracker.rejected_until(1, "quiet"), 230);
}

#[test]
fn cooldown_end_saturates() {
    let mut tracker = RateLimitTracker::new(10);
    tracker.record_rejection(0, "p1", u64::MAX - 3);
    assert_eq!(tracker.rejected_until(0, "p1"), u64::MAX);
    assert!(tracker.is_in_cooldown(0, "p1", u64::MAX - 1));
    assert!(!tracker.is_in_cooldown(0, "p1", u64::MAX));
}

#[test]
fn zero_window_gives_no_cooldown() {
    let mut tracker = RateLimitTracker::new(0);
    tracker.record_rejection(0, "p1", 100);
    assert_eq!(tracker.rejection_count(0, "p1"), 1);
    assert_eq!(tracker.rejected_until(0, "p1"), 100);
    assert!(!tracker.is_in_cooldown(0, "p1", 100));
    assert!(tracker.is_in_cooldown(0, "p1", 99));
}

#[test]
fn classify_counts_throttled_response_only() {
    let mut tracker = RateLimitTracker::new(30);
    let none = tracker.classify(0, ProviderKind::Binance, "p1", false, 100);
    assert!(none.is_none());
    assert_eq!(tracker.rejection_count(0, "p1"), 0);
    assert!(!tracker.is_in_cooldown(0, "p1", 100));
    let metric = tracker.classify(0, ProviderKind::Binance, "p1", true, 100);
    match metric {
        Some(Metric::RateLimitedCall { provider, kind, project_id }) => {
            assert_eq!(provider, 0);
            assert_eq!(kind, ProviderKind::Binance);
            assert_eq!(project_id, "p1");
        }
        other => panic!("unexpected metric {:?}", other),
    }
    assert_eq!(tracker.rejection_count(0, "p1"), 1);
    assert_eq!(tracker.rejected_until(0, "p1"), 130);
}

#[test]
fn state_is_a_snapshot_of_one_pair() {
    let mut tracker = RateLimitTracker::new(30);
    let fresh = tracker.state(3, "p1");
    assert_eq!((fresh.provider, fresh.tenant.as_str(), fresh.rejections, fresh.rejected_until), (3, "p1", 0, 0));
    tracker.record_rejection(3, "p1", 100);
    tracker.record_rejection(3, "p1", 110);
    let state = tracker.state(3, "p1");
    assert_eq!((state.provider, state.tenant.as_str(), state.rejections, state.rejected_until), (3, "p1", 2, 140));
}
