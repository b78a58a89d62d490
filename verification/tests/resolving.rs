use favicons::candidates::Icon;
use favicons::resolve::candidate_action;
use favicons::resolve::finish_download;
use favicons::resolve::resolve_plan;
use favicons::resolve::CandidateAction;
use favicons::resolve::Config;
use favicons::resolve::Resolution;
use favicons::resolve::ResolvePlan;
use favicons::resolve::MIN_DATA_ICON_BYTES;

fn config() -> Config {
    Config {
        cache_ttl: 2592000,
        cache_negttl: 259200,
        blacklist_non_global_ips: true,
        blacklist_regex: None,
        disable_download: false,
        download_timeout: 10,
    }
}

#[test]
fn invalid_domain_short_circuits() {
    let plan = resolve_plan("a/b", None, Some(0), &config());
    assert_eq!(plan, ResolvePlan::Invalid);
}

#[test]
fn negative_cache_blocks_second_resolution() {
    // A failed resolution wrote the miss marker; a later attempt within the
    // negative TTL must not reach the network.
    let plan = resolve_plan("example.com", Some(60), None, &config());
    assert_eq!(plan, ResolvePlan::Negative);
    // The same holds even if a (stale) hit file sits beside the marker.
    let plan = resolve_plan("example.com", Some(60), Some(9999999), &config());
    assert_eq!(plan, ResolvePlan::Negative);
}

#[test]
fn fresh_hit_is_served_without_network() {
    let plan = resolve_plan("example.com", None, Some(100), &config());
    assert_eq!(plan, ResolvePlan::CachedHit { remove_marker: false });
}

#[test]
fn expired_hit_is_refetched() {
    let plan = resolve_plan("example.com", None, Some(2592000), &config());
    assert_eq!(plan, ResolvePlan::Download { remove_marker: false });
}

#[test]
fn disabled_downloads_fall_back() {
    let mut cfg = config();
    cfg.disable_download = true;
    let plan = resolve_plan("example.com", None, None, &cfg);
    assert_eq!(plan, ResolvePlan::Disabled { remove_marker: false });
}

#[test]
fn data_uri_candidate_accepted_at_floor() {
    // 92 base64 digits decode to 69 zero bytes, above the 67-byte floor.
    let href = format!("data:image/png;base64,{}", "A".repeat(92));
    let icon = Icon::new(30, href);
    match candidate_action(&icon) {
        CandidateAction::Accept { bytes } => {
            assert_eq!(bytes.len(), 69);
            assert!(bytes.iter().all(|b| *b == 0));
            assert!(bytes.len() >= MIN_DATA_ICON_BYTES);
        },
        _ => panic!("a plausible data URI must be accepted"),
    }
}

#[test]
fn small_data_uri_skipped() {
    let icon = Icon::new(30, "data:image/png;base64,QUJD".to_string());
    assert!(matches!(candidate_action(&icon), CandidateAction::Skip));
}

#[test]
fn malformed_data_uri_skipped() {
    let icon = Icon::new(30, "data:image".to_string());
    assert!(matches!(candidate_action(&icon), CandidateAction::Skip));
}

#[test]
fn network_candidate_is_fetched() {
    let icon = Icon::new(10, "https://example.com/a.png".to_string());
    match candidate_action(&icon) {
        CandidateAction::Fetch { url } => assert_eq!(url, "https://example.com/a.png"),
        _ => panic!("a network candidate must be fetched"),
    }
}

#[test]
fn empty_body_fails_the_attempt() {
    assert!(matches!(finish_download(Some(Vec::new())), Resolution::Failed));
    assert!(matches!(finish_download(None), Resolution::Failed));
    match finish_download(Some(vec![1, 2, 3])) {
        Resolution::Found { bytes } => assert_eq!(bytes, vec![1, 2, 3]),
        Resolution::Failed => panic!("a non-empty body must succeed"),
    }
}
