use rargate::arr_notifier::best_match;
use rargate::arr_notifier::match_by_title;
use rargate::arr_notifier::parse_release;
use rargate::arr_notifier::ArrInstance;
use rargate::arr_notifier::ArrKind;
use rargate::arr_notifier::ArrNotifier;
use rargate::arr_notifier::ArrRecord;
use rargate::config::ArrConfig;
use rargate::config::ArrInstanceConfig;
use rargate::config::PathMappingConfig;
use rargate::media_notifier_common::BatchProcessor;
use rargate::metrics::MetricsCollector;
use rargate::path::PathName;

fn rec(id: i64, path: &str) -> ArrRecord {
    ArrRecord {
        id,
        path: path.to_string(),
        title: None,
        year: None,
        has_file: false,
    }
}

fn movie(id: i64, path: &str, title: &str, year: u32, has_file: bool) -> ArrRecord {
    ArrRecord {
        id,
        path: path.to_string(),
        title: Some(title.to_string()),
        year: Some(year),
        has_file,
    }
}

fn settings(force_import: Option<bool>) -> ArrInstanceConfig {
    ArrInstanceConfig {
        url: "http://radarr:7878//".to_string(),
        api_key: "key".to_string(),
        force_import,
        path_mapping: Some(PathMappingConfig {
            host_path: Some(PathName::new("/mnt/verified")),
            host_paths: None,
            emby_path: PathName::new("/share"),
        }),
    }
}

#[test]
fn matches_episode_nested_under_series_folder() {
    let records = vec![
        rec(7, "/share/TV.Series/Star.City"),
        rec(9, "/share/TV.Series/Bad.Judge"),
    ];
    let path = PathName::new("/share/TV.Series/Star.City/Season.1/Star.City.S01E01.RELEASE");
    assert_eq!(best_match(&records, &path), Some(7));
}

#[test]
fn picks_most_specific_when_roots_nest() {
    let records = vec![rec(1, "/share/TV.Series"), rec(2, "/share/TV.Series/Star.City")];
    let path = PathName::new("/share/TV.Series/Star.City/Season.1/ep");
    assert_eq!(best_match(&records, &path), Some(2));
}

#[test]
fn no_match_for_sibling_scene_folder() {
    let records = vec![rec(3, "/share/Movies/The Odyssey (2026)")];
    let path = PathName::new("/share/Movies/The.Odyssey.2026.1080p.WEB.x264-GROUP");
    assert_eq!(best_match(&records, &path), None);
}

#[test]
fn exact_path_match_for_reconciled_movie() {
    let records = vec![rec(5, "/share/Movies/The.Odyssey.2026.1080p.WEB.x264-GROUP")];
    let path = PathName::new("/share/Movies/The.Odyssey.2026.1080p.WEB.x264-GROUP");
    assert_eq!(best_match(&records, &path), Some(5));
}

#[test]
fn no_false_prefix_across_similar_names() {
    let records = vec![rec(8, "/share/Movies/Star")];
    let path = PathName::new("/share/Movies/Star.City/release");
    assert_eq!(best_match(&records, &path), None);
}

#[test]
fn trailing_slash_on_record_path_is_tolerated() {
    let records = vec![rec(4, "/share/TV.Series/Star.City/")];
    let path = PathName::new("/share/TV.Series/Star.City/Season.1/ep");
    assert_eq!(best_match(&records, &path), Some(4));
}

#[test]
fn separators_do_not_make_a_place_deeper() {
    let records = vec![rec(1, "/a///"), rec(2, "/a/b")];
    assert_eq!(best_match(&records, &PathName::new("/a/b/c")), Some(2));
    let inner = vec![rec(1, "/a/b"), rec(2, "/.//a/.//")];
    assert_eq!(best_match(&inner, &PathName::new("/a/b/c")), Some(1));
}

#[test]
fn among_equally_deep_places_the_longer_path_wins() {
    let path = PathName::new("/a/b");
    assert_eq!(best_match(&vec![rec(1, "/a/"), rec(2, "/a")], &path), Some(1));
    assert_eq!(best_match(&vec![rec(1, "/a"), rec(2, "/a/")], &path), Some(2));
    assert_eq!(best_match(&vec![rec(1, "/a/"), rec(2, "/a"), rec(3, "/a/")], &path), Some(3));
}

#[test]
fn among_equal_places_the_last_record_wins() {
    let records = vec![rec(1, "/share/A"), rec(2, "/share/A")];
    assert_eq!(best_match(&records, &PathName::new("/share/A/x")), Some(2));
}

#[test]
fn titles_are_compared_without_punctuation_and_case() {
    assert_eq!(
        parse_release("The.Odyssey.2026.1080p.WEB.x264-GROUP"),
        Some(("theodyssey".to_string(), 2026))
    );
    assert_eq!(
        parse_release("2001.A.Space.Odyssey.1968.2160p"),
        Some(("2001aspaceodyssey".to_string(), 1968))
    );
    assert_eq!(parse_release("2012"), None);
    assert_eq!(parse_release("No.Year.Here"), None);
    assert_eq!(parse_release("\u{c4}on.Flux.2005"), Some(("\u{e4}onflux".to_string(), 2005)));
}

#[test]
fn a_movie_is_found_by_its_title_within_a_year() {
    let records = vec![
        movie(1, "/share/Movies/x", "The Odyssey", 2025, false),
        movie(2, "/share/Movies/y", "Another Film", 2026, false),
    ];
    assert_eq!(match_by_title(&records, "The.Odyssey.2026.1080p-GROUP"), Some(1));
    assert_eq!(match_by_title(&records, "The.Odyssey.2027.1080p-GROUP"), None);
}

#[test]
fn a_title_that_two_fileless_movies_share_matches_none() {
    let records = vec![
        movie(1, "/a", "The Odyssey", 2025, false),
        movie(2, "/b", "The Odyssey!", 2026, false),
    ];
    assert_eq!(match_by_title(&records, "The.Odyssey.2026.1080p-GROUP"), None);
}

#[test]
fn movies_with_a_file_are_passed_over() {
    let records = vec![
        movie(1, "/a", "The Odyssey", 2026, true),
        movie(2, "/b", "The Odyssey", 2025, false),
    ];
    assert_eq!(match_by_title(&records, "The.Odyssey.2026.1080p-GROUP"), Some(2));
    let only = vec![movie(1, "/a", "The Odyssey", 2026, true)];
    assert_eq!(match_by_title(&only, "The.Odyssey.2026.1080p-GROUP"), None);
}

#[test]
fn rescans_are_planned_once_per_record() {
    let inst = ArrInstance::new("Sonarr", ArrKind::Series, settings(None), 5);
    let records = vec![rec(7, "/share/TV/Star.City"), rec(8, "/share/TV/Other")];
    let dirs = vec![
        PathName::new("/mnt/verified/TV/Star.City/S01/ep1"),
        PathName::new("/mnt/verified/TV/Star.City/S01/ep2"),
        PathName::new("/mnt/verified/TV/Unknown/ep"),
        PathName::new("/mnt/verified/TV/Other/ep"),
    ];
    let plan = inst.plan_rescans(&dirs, &records);
    assert_eq!(plan.len(), 2);
    assert_eq!(plan[0].id, 7);
    assert_eq!(plan[1].id, 8);
    assert!(plan[0].repoint.is_none());
}

#[test]
fn an_unmatched_movie_is_repointed_at_its_release() {
    let radarr = ArrInstance::new("Radarr", ArrKind::Movie, settings(None), 5);
    let records = vec![movie(3, "/share/Movies/The Odyssey (2026)", "The Odyssey", 2026, false)];
    let dirs = vec![PathName::new("/mnt/verified/Movies/The.Odyssey.2026.1080p-GROUP")];
    let plan = radarr.plan_rescans(&dirs, &records);
    assert_eq!(plan.len(), 1);
    assert_eq!(plan[0].id, 3);
    assert_eq!(
        plan[0].repoint.as_ref().map(|p| p.as_str().to_string()),
        Some("/share/Movies/The.Odyssey.2026.1080p-GROUP".to_string())
    );
    let sonarr = ArrInstance::new("Sonarr", ArrKind::Series, settings(None), 5);
    assert!(sonarr.plan_rescans(&dirs, &records).is_empty());
}

#[test]
fn addresses_of_an_instance() {
    let radarr = ArrInstance::new("Radarr", ArrKind::Movie, settings(None), 5);
    assert_eq!(radarr.list_url, "http://radarr:7878/api/v3/movie?apikey=key");
    assert_eq!(radarr.command_url, "http://radarr:7878/api/v3/command?apikey=key");
    assert_eq!(
        radarr.record_url(12),
        Some("http://radarr:7878/api/v3/movie/12?apikey=key".to_string())
    );
    assert_eq!(radarr.record_url(-1), None);
    assert_eq!(
        radarr.manual_import_url(12),
        Some("http://radarr:7878/api/v3/manualimport?movieId=12&apikey=key".to_string())
    );
    assert_eq!(radarr.manual_import_url(-1), None);
    assert_eq!(ArrKind::Movie.rescan_command(), ("RescanMovie", "movieId"));
    assert_eq!(ArrKind::Series.rescan_command(), ("RescanSeries", "seriesId"));
}

#[test]
fn imports_are_forced_in_radarr_alone() {
    assert!(ArrInstance::new("Radarr", ArrKind::Movie, settings(None), 5).force_import_due(false));
    assert!(!ArrInstance::new("Radarr", ArrKind::Movie, settings(None), 5).force_import_due(true));
    assert!(!ArrInstance::new("Radarr", ArrKind::Movie, settings(Some(false)), 5)
        .force_import_due(false));
    assert!(!ArrInstance::new("Sonarr", ArrKind::Series, settings(Some(true)), 5)
        .force_import_due(false));
}

#[test]
fn arr_notifier_settings_have_defaults() {
    let n = ArrNotifier::new(ArrConfig {
        enabled: true,
        sonarr: None,
        radarr: Some(settings(None)),
        debounce_seconds: None,
        cache_minutes: None,
        max_retries: None,
        retry_delay_ms: None,
    });
    assert_eq!(n.instances.len(), 1);
    assert_eq!(n.instances[0].name, "Radarr");
    assert_eq!(n.debounce_seconds, 5);
    assert_eq!(n.max_retries, 3);
    assert_eq!(n.retry_delay_ms, 1000);
    assert_eq!(n.server_name(), "Arr");
    let mut m = MetricsCollector::new(0);
    n.increment_notification_counter(&mut m);
    assert_eq!(m.arr_notifications, 1);
}
