use proxy_pool::config::{Config, LogConfig, ProxyConfig};
use proxy_pool::error::ProxyError;
use proxy_pool::manager::{prepare_candidates, ProxyManager};

fn test_config(threshold: u32) -> Config {
    Config {
        base_url: "https://clutch.co".to_string(),
        proxy_file: "proxy.txt".to_string(),
        max_retries: 3,
        retry_delay: 5,
        proxy_switch_delay: 2,
        start_path: "/developers/rust".to_string(),
        proxy_max_retries: threshold,
        proxy_request_timeout: 15,
        proxy_concurrent_validations: 5,
        logging: LogConfig {
            level: "info".to_string(),
            directory: "logs".to_string(),
            filename: "scraper.log".to_string(),
        },
        proxy: ProxyConfig {
            file: "proxy.txt".to_string(),
            switch_delay: 2,
            max_retries: threshold,
            request_timeout: 15,
            concurrent_validations: 5,
        },
    }
}

fn pool_with(threshold: u32, outcomes: &[(&str, bool)]) -> ProxyManager {
    let mut m = ProxyManager::new(test_config(threshold));
    let outcomes: Vec<(String, bool)> =
        outcomes.iter().map(|(u, ok)| (u.to_string(), *ok)).collect();
    m.validate_proxies(&outcomes, 100).unwrap();
    m
}

fn working_urls(m: &ProxyManager) -> Vec<String> {
    m.working.iter().map(|p| p.url.clone()).collect()
}

#[test]
fn probe_outcomes_partition_candidates() {
    let m = pool_with(2, &[("socks5://a", true), ("socks5://b", false), ("socks5://c", true)]);
    // Every candidate is in exactly one of the two sets.
    for url in ["socks5://a", "socks5://b", "socks5://c"] {
        let in_working = m.working.iter().any(|p| p.url == url);
        let in_dead = m.dead.iter().any(|d| d == url);
        assert_ne!(in_working, in_dead, "{url} must be in exactly one set");
    }
    assert_eq!(m.working.len(), 2);
    assert_eq!(m.dead, vec!["socks5://b".to_string()]);
}

#[test]
fn duplicate_candidate_is_decided_by_first_outcome() {
    let m = pool_with(2, &[("socks5://a", true), ("socks5://a", false)]);
    assert_eq!(working_urls(&m), vec!["socks5://a".to_string()]);
    assert!(m.dead.is_empty());
}

#[test]
fn validation_with_no_survivor_is_fatal() {
    let mut m = ProxyManager::new(test_config(2));
    let outcomes = vec![("socks5://a".to_string(), false), ("socks5://b".to_string(), false)];
    let r = m.validate_proxies(&outcomes, 1);
    assert!(matches!(r, Err(ProxyError::NoWorkingProxies)));
    assert_eq!(m.dead.len(), 2);
}

#[test]
fn fresh_entries_are_marked_validated() {
    let m = pool_with(2, &[("socks5://a", true)]);
    let p = &m.working[0];
    assert_eq!(p.failures, 0);
    assert_eq!(p.last_used, 100);
    assert_eq!(p.stats.validation_status.as_deref(), Some("success"));
    assert_eq!(p.stats.total_requests, 0);
}

#[test]
fn report_success_on_absent_id_is_a_no_op() {
    let mut m = pool_with(2, &[("socks5://a", true), ("socks5://b", false)]);
    let before_working = working_urls(&m);
    let before_dead = m.dead.clone();
    m.mark_proxy_success("socks5://b", "/page", 200, 7);
    m.mark_proxy_success("socks5://nope", "/page", 200, 7);
    assert_eq!(working_urls(&m), before_working);
    assert_eq!(m.dead, before_dead);
    assert_eq!(m.working[0].stats.total_requests, 0);
    assert!(m.archive.is_empty());
}

#[test]
fn failure_count_resets_only_on_success() {
    let mut m = pool_with(3, &[("socks5://a", true)]);
    m.mark_proxy_failure("socks5://a", "boom", None, "/p");
    assert_eq!(m.working[0].failures, 1);
    m.mark_proxy_failure("socks5://a", "boom", None, "/p");
    assert_eq!(m.working[0].failures, 2);
    // Selection does not change the count.
    let got = m.get_proxy(200).unwrap();
    assert_eq!(got, "socks5://a");
    assert_eq!(m.working[0].failures, 2);
    // An explicit success resets it to zero.
    m.mark_proxy_success("socks5://a", "/p", 200, 300);
    assert_eq!(m.working[0].failures, 0);
}

#[test]
fn eviction_fires_exactly_at_the_threshold() {
    let mut m = pool_with(3, &[("socks5://a", true)]);
    m.mark_proxy_failure("socks5://a", "err", Some(500), "/p");
    assert_eq!(m.working.len(), 1, "not evicted before the threshold");
    m.mark_proxy_failure("socks5://a", "err", Some(500), "/p");
    assert_eq!(m.working.len(), 1, "not evicted before the threshold");
    m.mark_proxy_failure("socks5://a", "err", Some(500), "/p");
    assert_eq!(m.working.len(), 0, "evicted exactly on the threshold call");
    assert_eq!(m.dead, vec!["socks5://a".to_string()]);
    assert_eq!(m.archive.len(), 1);
    assert_eq!(m.archive[0].0, "socks5://a");
    assert_eq!(m.archive[0].1.failed_requests, 3);
    // A later failure report for the evicted proxy changes nothing.
    m.mark_proxy_failure("socks5://a", "err", None, "/p");
    assert_eq!(m.dead.len(), 1);
    assert_eq!(m.archive.len(), 1);
}

#[test]
fn selection_prefers_least_recently_used_on_equal_failures() {
    let mut m = pool_with(2, &[("socks5://a", true), ("socks5://b", true)]);
    // Touch A at tick 200; B keeps tick 100 from validation.
    m.mark_proxy_success("socks5://a", "/p", 200, 200);
    let got = m.get_proxy(300).unwrap();
    assert_eq!(got, "socks5://b", "least recently used wins when failures tie");
}

#[test]
fn selection_prefers_fewer_failures_regardless_of_timestamps() {
    let mut m = pool_with(3, &[("socks5://a", true), ("socks5://b", true)]);
    // A has one failure but is older; B is fresher but has none.
    m.mark_proxy_failure("socks5://a", "err", None, "/p");
    m.mark_proxy_success("socks5://b", "/p", 200, 999);
    let got = m.get_proxy(1000).unwrap();
    assert_eq!(got, "socks5://b", "fewer failures wins whatever the timestamps");
}

#[test]
fn acquire_updates_the_winner_timestamp() {
    let mut m = pool_with(2, &[("socks5://a", true)]);
    let got = m.get_proxy(555).unwrap();
    assert_eq!(got, "socks5://a");
    assert_eq!(m.working[0].last_used, 555);
}

#[test]
fn acquire_on_a_never_filled_pool_reports_no_working_proxies() {
    let mut m = ProxyManager::new(test_config(2));
    let r = m.get_proxy(1);
    assert!(matches!(r, Err(ProxyError::NoWorkingProxies)));
}

#[test]
fn stats_follow_real_requests() {
    let mut m = pool_with(3, &[("socks5://a", true)]);
    m.mark_proxy_success("socks5://a", "/one", 200, 10);
    m.mark_proxy_success("socks5://a", "/two", 200, 11);
    m.mark_proxy_failure("socks5://a", "404 not found", Some(404), "/three");
    let s = &m.working[0].stats;
    assert_eq!(s.total_requests, 3);
    assert_eq!(s.successful_requests, 2);
    assert_eq!(s.failed_requests, 1);
    assert_eq!(s.successful_urls, vec!["/one".to_string(), "/two".to_string()]);
    assert_eq!(s.failed_urls, vec![("/three".to_string(), "404 not found".to_string())]);
    assert_eq!(s.status_codes, vec![(200, 2), (404, 1)]);
}

#[test]
fn report_lists_working_then_dead_in_order() {
    let mut m = pool_with(
        2,
        &[("socks5://a", true), ("socks5://x", false), ("socks5://b", true)],
    );
    m.mark_proxy_success("socks5://b", "/p", 200, 150);
    // Evict b: two failures with threshold 2.
    m.mark_proxy_failure("socks5://b", "err", None, "/p");
    m.mark_proxy_failure("socks5://b", "err", None, "/p");
    let r = m.report();
    assert_eq!(r.working_count, 1);
    assert_eq!(r.dead_count, 2);
    assert_eq!(r.entries.len(), 3);
    assert_eq!(r.entries[0].url, "socks5://a");
    assert!(r.entries[0].active);
    assert!(r.entries[0].stats.is_some());
    // Dead entries come in eviction order: x died at validation (no stats),
    // b was evicted later (archived stats survive).
    assert_eq!(r.entries[1].url, "socks5://x");
    assert!(!r.entries[1].active);
    assert!(r.entries[1].stats.is_none());
    assert_eq!(r.entries[2].url, "socks5://b");
    assert!(!r.entries[2].active);
    let b_stats = r.entries[2].stats.as_ref().unwrap();
    assert_eq!(b_stats.total_requests, 3);
    assert_eq!(b_stats.failed_requests, 2);
}

#[test]
fn end_to_end_three_candidates_threshold_two() {
    // Three candidates probe as success, success, timeout; threshold 2.
    let mut m = pool_with(
        2,
        &[("socks5://a", true), ("socks5://b", true), ("socks5://c", false)],
    );
    assert_eq!(m.working.len(), 2);
    assert_eq!(m.dead.len(), 1);
    // Mark one working proxy failed twice: it moves to Dead.
    m.mark_proxy_failure("socks5://a", "timeout", None, "/p");
    m.mark_proxy_failure("socks5://a", "timeout", None, "/p");
    assert_eq!(m.working.len(), 1);
    assert_eq!(m.dead.len(), 2);
    // A subsequent acquire returns the other.
    let got = m.get_proxy(500).unwrap();
    assert_eq!(got, "socks5://b");
    // Mark that one failed twice too: the pool is exhausted.
    m.mark_proxy_failure("socks5://b", "timeout", None, "/p");
    m.mark_proxy_failure("socks5://b", "timeout", None, "/p");
    match m.get_proxy(600) {
        Err(ProxyError::AllProxiesExhausted { failed_proxies }) => {
            assert_eq!(failed_proxies.len(), 3);
            for (_, reason) in &failed_proxies {
                assert_eq!(reason, "Max retries exceeded");
            }
        }
        other => panic!("expected AllProxiesExhausted, got {other:?}"),
    }
}

#[test]
fn an_empty_candidate_list_leaves_the_pool_unstartable() {
    let mut m = ProxyManager::new(test_config(2));
    let r = m.validate_proxies(&Vec::new(), 1);
    assert!(matches!(r, Err(ProxyError::NoWorkingProxies)));
    assert!(m.working.is_empty());
    assert!(m.dead.is_empty());
}

#[test]
fn candidate_preparation_feeds_validation() {
    let lines = vec![" 1.2.3.4:1080 ".to_string(), "".to_string(), "5.6.7.8:9050".to_string()];
    let candidates = prepare_candidates(&lines);
    let outcomes: Vec<(String, bool)> =
        candidates.into_iter().map(|url| (url, true)).collect();
    let mut m = ProxyManager::new(test_config(2));
    m.validate_proxies(&outcomes, 5).unwrap();
    assert_eq!(
        working_urls(&m),
        vec!["socks5://1.2.3.4:1080".to_string(), "socks5://5.6.7.8:9050".to_string()]
    );
}

#[test]
fn candidates_are_trimmed_prefixed_and_blanks_dropped() {
    let lines = vec![
        "  1.2.3.4:1080 \r".to_string(),
        "".to_string(),
        "   ".to_string(),
        "5.6.7.8:9050".to_string(),
    ];
    let candidates = prepare_candidates(&lines);
    assert_eq!(
        candidates,
        vec!["socks5://1.2.3.4:1080".to_string(), "socks5://5.6.7.8:9050".to_string()]
    );
}
