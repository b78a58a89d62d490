use favicons::cache::cache_plan;
use favicons::cache::file_is_expired;
use favicons::cache::CachePlan;

#[test]
fn fresh_marker_is_negative() {
    let plan = cache_plan(Some(10), Some(0), 3600, 2592000);
    assert_eq!(plan, CachePlan::Negative);
}

#[test]
fn expired_marker_is_removed_and_hit_served() {
    let plan = cache_plan(Some(4000), Some(5), 3600, 2592000);
    assert_eq!(plan, CachePlan::ReadHit { remove_marker: true });
}

#[test]
fn expired_marker_without_hit_fetches() {
    let plan = cache_plan(Some(4000), None, 3600, 2592000);
    assert_eq!(plan, CachePlan::Fetch { remove_marker: true });
}

#[test]
fn missing_marker_fresh_hit_served() {
    let plan = cache_plan(None, Some(100), 3600, 2592000);
    assert_eq!(plan, CachePlan::ReadHit { remove_marker: false });
}

#[test]
fn stale_hit_triggers_fetch() {
    let plan = cache_plan(None, Some(2592000), 3600, 2592000);
    assert_eq!(plan, CachePlan::Fetch { remove_marker: false });
}

#[test]
fn zero_ttl_never_expires() {
    assert!(!file_is_expired(0, u64::MAX));
    let plan = cache_plan(None, Some(u64::MAX), 3600, 0);
    assert_eq!(plan, CachePlan::ReadHit { remove_marker: false });
}

#[test]
fn expiry_boundary_is_inclusive() {
    assert!(file_is_expired(60, 60));
    assert!(!file_is_expired(60, 59));
}
