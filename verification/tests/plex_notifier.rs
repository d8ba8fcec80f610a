use rargate::config::PathMappingConfig;
use rargate::config::PlexConfig;
use rargate::emby_notifier::Fallback;
use rargate::media_notifier_common::get_parent_dirs;
use rargate::media_notifier_common::BatchProcessor;
use rargate::media_notifier_common::PathProbe;
use rargate::metrics::MetricsCollector;
use rargate::path::PathName;
use rargate::plex_notifier::find_section_for_path;
use rargate::plex_notifier::scan_dir_after_deletion;
use rargate::plex_notifier::PlexAction;
use rargate::plex_notifier::PlexBatch;
use rargate::plex_notifier::PlexDirectory;
use rargate::plex_notifier::PlexNotifier;

const SECOND: u64 = 1_000_000_000;

fn paths(all: &[&str]) -> Vec<PathName> {
    all.iter().map(|p| PathName::new(p)).collect()
}

fn section(key: &str, title: &str) -> PlexDirectory {
    PlexDirectory {
        key: key.to_string(),
        title: title.to_string(),
        section_type: "movie".to_string(),
    }
}

fn settings() -> PlexConfig {
    PlexConfig {
        enabled: true,
        url: "http://plex:32400".to_string(),
        token: "tok".to_string(),
        debounce_seconds: None,
        cache_minutes: None,
        fallback_full_refresh: Some(true),
        max_retries: None,
        retry_delay_ms: None,
        full_refresh_cooldown_seconds: Some(60),
        path_mapping: None,
    }
}

#[test]
fn test_parent_dir_from_deleted_file() {
    let deleted = paths(&["/share/Movies/Death.Note.2017/death.note.mkv"]);
    let parents = get_parent_dirs(&deleted);
    assert!(parents.contains(&PathName::new("/share/Movies/Death.Note.2017")));
}

#[test]
fn test_parent_dirs_deduplication() {
    let deleted = paths(&[
        "/share/Movies/Death.Note.2017/death.note.mkv",
        "/share/Movies/Death.Note.2017/death.note.nfo",
        "/share/Movies/Death.Note.2017/death.note.srt",
    ]);
    let parents = get_parent_dirs(&deleted);
    assert_eq!(parents.len(), 1);
    assert!(parents.contains(&PathName::new("/share/Movies/Death.Note.2017")));
}

#[test]
fn test_parent_dirs_multiple_titles() {
    let deleted = paths(&[
        "/share/Movies/Death.Note.2017/death.note.mkv",
        "/share/Movies/Inception.2010/inception.mkv",
    ]);
    let parents = get_parent_dirs(&deleted);
    assert_eq!(parents.len(), 2);
    assert!(parents.contains(&PathName::new("/share/Movies/Death.Note.2017")));
    assert!(parents.contains(&PathName::new("/share/Movies/Inception.2010")));
}

#[test]
fn test_grandparent_escalation_when_parent_missing() {
    let nonexistent_parent = PathName::new("/nonexistent/Movies/Deleted.Show");
    let exists = std::path::Path::new(nonexistent_parent.as_str()).exists();
    let result = scan_dir_after_deletion(&nonexistent_parent, exists);
    assert_eq!(result.as_str(), "/nonexistent/Movies");
}

#[test]
fn a_directory_that_is_still_there_is_scanned_itself() {
    let d = PathName::new("/share/Movies/Show");
    assert_eq!(scan_dir_after_deletion(&d, true).as_str(), "/share/Movies/Show");
    assert_eq!(scan_dir_after_deletion(&PathName::new("/"), false).as_str(), "/");
}

#[test]
fn sections_are_found_by_title_and_by_common_name() {
    let s = vec![section("1", "Kids"), section("2", "movies"), section("3", "TV Shows")];
    let find = |p: &str| find_section_for_path(&s, &PathName::new(p));
    assert_eq!(find("/share/Kids/Film"), Some("1".to_string()));
    assert_eq!(find("/share/kids/Film"), None);
    assert_eq!(find("/share/MOVIES/Film"), Some("2".to_string()));
    assert_eq!(find("/share/tv shows/Show"), Some("3".to_string()));
    assert_eq!(find("/share/TV/Show"), None);
    assert_eq!(find("/share/Movies/Kids"), Some("2".to_string()));
    assert_eq!(find("/share/Anime/x"), None);
}

#[test]
fn the_path_is_encoded_in_the_address() {
    let n = PlexNotifier::new(settings());
    assert_eq!(
        n.section_refresh_url("2", &PathName::new("/share/TV Shows/\u{e4}~-_.9")),
        "http://plex:32400/library/sections/2/refresh?path=%2Fshare%2FTV%20Shows%2F%C3%A4~-_.9&X-Plex-Token=tok"
    );
    assert_eq!(
        n.config.full_library_url,
        "http://plex:32400/library/sections/all/refresh?X-Plex-Token=tok"
    );
    assert_eq!(n.config.fetch_sections_url, "http://plex:32400/library/sections?X-Plex-Token=tok");
}

#[test]
fn a_section_is_scanned_once_per_batch() {
    let n = PlexNotifier::new(settings());
    let mut m = MetricsCollector::new(0);
    let s = vec![section("1", "Movies")];
    let mut b = PlexBatch::new(&paths(&["/share/Movies/a", "/share/Movies/b"]), &None);
    match b.next(&n, &s, 0, &mut m) {
        PlexAction::Refresh(key, p) => {
            assert_eq!(key, "1");
            assert_eq!(p.as_str(), "/share/Movies/a");
            b.section_refreshed(key);
        }
        other => panic!("{:?}", other),
    }
    assert!(matches!(b.next(&n, &s, 0, &mut m), PlexAction::AlreadyRefreshed));
    assert!(matches!(b.next(&n, &s, 0, &mut m), PlexAction::Done));
}

#[test]
fn a_failed_scan_is_tried_for_the_next_path() {
    let n = PlexNotifier::new(settings());
    let mut m = MetricsCollector::new(0);
    let s = vec![section("1", "Movies")];
    let mut b = PlexBatch::new(&paths(&["/share/Movies/a", "/share/Movies/b"]), &None);
    assert!(matches!(b.next(&n, &s, 0, &mut m), PlexAction::Refresh(_, _)));
    assert!(matches!(b.next(&n, &s, 0, &mut m), PlexAction::Refresh(_, _)));
}

#[test]
fn a_full_scan_ends_the_batch_and_cools_down() {
    let mut n = PlexNotifier::new(settings());
    let mut m = MetricsCollector::new(0);
    let s = vec![section("1", "Movies")];
    let dirs = paths(&["/share/Anime/a", "/share/Movies/b"]);
    let mut b = PlexBatch::new(&dirs, &None);
    assert!(matches!(b.next(&n, &s, 5 * SECOND, &mut m), PlexAction::FullRefresh));
    assert!(matches!(b.next(&n, &s, 5 * SECOND, &mut m), PlexAction::Done));
    n.full_refresh_done(5 * SECOND, &mut m);
    assert_eq!(m.plex_full_refreshes, 1);
    let mut again = PlexBatch::new(&dirs, &None);
    assert!(matches!(again.next(&n, &s, 25 * SECOND, &mut m), PlexAction::CoolingDown(40)));
    assert_eq!(m.full_refresh_cooldown_skips, 1);
    assert!(matches!(again.next(&n, &s, 25 * SECOND, &mut m), PlexAction::Refresh(_, _)));
    assert_eq!(n.fallback(65 * SECOND, &mut m), Fallback::FullRefresh);
}

#[test]
fn without_the_fallback_unknown_paths_are_skipped() {
    let mut off = settings();
    off.fallback_full_refresh = None;
    let n = PlexNotifier::new(off);
    let mut m = MetricsCollector::new(0);
    let mut b = PlexBatch::new(&paths(&["/share/Anime/a"]), &None);
    assert!(matches!(b.next(&n, &vec![], 0, &mut m), PlexAction::Skip));
}

#[test]
fn changed_files_lead_to_their_directories_as_plex_sees_them() {
    let n = PlexNotifier::new(settings());
    let probes = vec![
        PathProbe { exists: true, parent_exists: true, is_dir: false },
        PathProbe { exists: false, parent_exists: false, is_dir: false },
    ];
    let dirs = n.created_dirs(&paths(&["/mnt/Movies/a/f.mkv", "/gone/x"]), &probes);
    assert_eq!(dirs.len(), 1);
    let mapping = Some(PathMappingConfig {
        host_path: Some(PathName::new("/mnt")),
        host_paths: None,
        emby_path: PathName::new("/data"),
    });
    let b = PlexBatch::new(dirs.items(), &mapping);
    assert_eq!(b.paths[0].as_str(), "/data/Movies/a");
    assert_eq!(n.server_name(), "Plex");
    let mut m = MetricsCollector::new(0);
    n.increment_notification_counter(&mut m);
    assert_eq!(m.plex_notifications, 1);
}
