use rargate::config::MetricsConfig;
use rargate::metrics::metrics_config;
use rargate::metrics::Counter;
use rargate::metrics::MetricsCollector;
use rargate::metrics::Rates;
use rargate::metrics::Stamps;
use rargate::path::PathName;

const SECOND: u64 = 1_000_000_000;

fn rates() -> Rates {
    Rates {
        sfv_pass_pct: "50.0".to_string(),
        cache_hit_pct: "100.0".to_string(),
        limiter_block_pct: "0.0".to_string(),
        limiter_avg_wait_ms: "0.0".to_string(),
    }
}

#[test]
fn counters_start_at_zero_and_grow() {
    let mut m = MetricsCollector::new(3 * SECOND);
    assert_eq!(m.inotify_events, 0);
    m.bump(Counter::InotifyEvents, 2);
    m.bump(Counter::InotifyEvents, 3);
    m.bump(Counter::CacheMisses, 1);
    assert_eq!(m.inotify_events, 5);
    assert_eq!(m.cache_misses, 1);
    assert_eq!(m.cache_hits, 0);
    assert_eq!(m.uptime_seconds(10 * SECOND), 7);
    assert_eq!(m.uptime_seconds(10 * SECOND - 1), 6);
}

#[test]
fn counters_wrap_around() {
    let mut m = MetricsCollector::new(0);
    m.bump(Counter::LimiterWaitMs, u64::MAX);
    m.bump(Counter::LimiterWaitMs, 2);
    assert_eq!(m.rar2fs_limiter_total_wait_ms, 1);
}

#[test]
fn stuck_releases_are_renewed_and_cleared() {
    let mut m = MetricsCollector::new(0);
    m.record_stuck(&PathName::new("/a/b"), 3, 1, 5);
    m.record_stuck(&PathName::new("/a/b/"), 4, 1, 9);
    m.record_stuck(&PathName::new("/a/c"), 7, 2, 6);
    assert_eq!(m.stuck_releases.len(), 2);
    assert_eq!(m.stuck_releases[0].release.failure_count, 4);
    assert_eq!(m.stuck_releases[0].release.last_attempt, 9);
    m.clear_stuck(&PathName::new("/a//b"));
    m.clear_stuck(&PathName::new("/nothing"));
    assert_eq!(m.stuck_releases.len(), 1);
    assert_eq!(m.stuck_releases[0].path.as_str(), "/a/c");
}

#[test]
fn the_worst_release_comes_first() {
    let mut m = MetricsCollector::new(0);
    m.record_stuck(&PathName::new("/few"), 3, 0, 0);
    m.record_stuck(&PathName::new("/many"), 30, 0, 0);
    m.record_stuck(&PathName::new("/some"), 7, 0, 0);
    m.record_stuck(&PathName::new("/some.more"), 7, 0, 0);
    let order: Vec<String> =
        m.worst_first().iter().map(|e| e.path.as_str().to_string()).collect();
    assert_eq!(order, vec!["/many", "/some", "/some.more", "/few"]);
}

#[test]
fn the_status_file_without_stuck_releases() {
    let mut m = MetricsCollector::new(0);
    m.bump(Counter::SfvPassed, 1);
    m.bump(Counter::SfvFailed, 1);
    m.bump(Counter::Arr, 4);
    m.inotify_watches = 12;
    let t = m.status_text("1.2.0", "2026-01-02T03:04:05+0000", 99, &rates(), &vec![], &vec![], 0);
    let want = "{\n  \"version\": \"1.2.0\",\n  \"timestamp\": \"2026-01-02T03:04:05+0000\",\n  \"uptime_seconds\": 99,\n  \"inotify\": {\n    \"events_processed\": 0,\n    \"queue_overflows\": 0,\n    \"current_watches\": 12\n  },\n  \"sfv\": {\n    \"validations_passed\": 1,\n    \"validations_failed\": 1,\n    \"pass_rate_pct\": 50.0\n  },\n  \"notifications\": {\n    \"emby_sent\": 0,\n    \"jellyfin_sent\": 0,\n    \"plex_sent\": 0,\n    \"arr_sent\": 4,\n    \"emby_full_refreshes\": 0,\n    \"jellyfin_full_refreshes\": 0,\n    \"plex_full_refreshes\": 0,\n    \"full_refresh_cooldown_skips\": 0\n  },\n  \"filter_cache\": {\n    \"hits\": 0,\n    \"misses\": 0,\n    \"hit_rate_pct\": 100.0\n  },\n  \"rar2fs_limiter\": {\n    \"acquires_total\": 0,\n    \"blocked_acquires\": 0,\n    \"block_rate_pct\": 0.0,\n    \"total_wait_ms\": 0,\n    \"avg_wait_ms_when_blocked\": 0.0\n  },\n  \"stuck_releases_count\": 0,\n  \"stuck_releases\": []\n}";
    assert_eq!(t, want);
}

#[test]
fn paths_are_escaped_in_the_status_file() {
    let mut m = MetricsCollector::new(0);
    m.record_stuck(&PathName::new("/a \"b\"\\c\n\u{1}"), 3, 10 * SECOND, 40 * SECOND);
    m.record_stuck(&PathName::new("/z"), 2, 10 * SECOND, 40 * SECOND);
    let stuck = m.worst_first();
    let stamps = vec![
        Stamps { first_seen: "F".to_string(), last_attempt: "L".to_string() },
        Stamps { first_seen: "F".to_string(), last_attempt: "L".to_string() },
    ];
    let t = m.status_text("v", "t", 0, &rates(), &stuck, &stamps, 70 * SECOND);
    let want = "  \"stuck_releases_count\": 2,\n  \"stuck_releases\": [\n    { \"path\": \"/a \\\"b\\\"\\\\c\\n\\u0001\", \"failure_count\": 3, \"first_seen\": \"F\", \"last_attempt\": \"L\", \"stuck_seconds\": 60 },\n    { \"path\": \"/z\", \"failure_count\": 2, \"first_seen\": \"F\", \"last_attempt\": \"L\", \"stuck_seconds\": 60 }\n  ]\n}";
    assert!(t.ends_with(want), "{}", t);
}

#[test]
fn the_status_file_is_written_only_where_wanted() {
    assert!(metrics_config(&None).is_none());
    let off = MetricsConfig { enabled: false, status_file: None, update_interval_seconds: None };
    assert!(metrics_config(&Some(off)).is_none());
    let on = MetricsConfig { enabled: true, status_file: None, update_interval_seconds: None };
    let (p, n) = metrics_config(&Some(on)).unwrap();
    assert_eq!(p.as_str(), "/mnt/cache/rargate/rargate-status.json");
    assert_eq!(n, 60);
    let own = MetricsConfig {
        enabled: true,
        status_file: Some(PathName::new("/tmp/s.json")),
        update_interval_seconds: Some(5),
    };
    let (p, n) = metrics_config(&Some(own)).unwrap();
    assert_eq!(p.as_str(), "/tmp/s.json");
    assert_eq!(n, 5);
}
