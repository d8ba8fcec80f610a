use rargate::config::EmbyConfig;
use rargate::config::JellyfinConfig;
use rargate::config::PathMappingConfig;
use rargate::emby_notifier::find_library_for_path;
use rargate::emby_notifier::is_scannable_item_type;
use rargate::emby_notifier::keep_usable_items;
use rargate::emby_notifier::process_batch_emby_style;
use rargate::emby_notifier::CreatedPlan;
use rargate::emby_notifier::EmbyAction;
use rargate::emby_notifier::EmbyBatch;
use rargate::emby_notifier::EmbyItem;
use rargate::emby_notifier::EmbyNotifier;
use rargate::emby_notifier::Fallback;
use rargate::emby_notifier::LibraryOptions;
use rargate::emby_notifier::NewContent;
use rargate::emby_notifier::VirtualFolder;
use rargate::jellyfin_notifier;
use rargate::media_notifier_common::translate_path;
use rargate::media_notifier_common::BatchProcessor;
use rargate::media_notifier_common::PathProbe;
use rargate::metrics::MetricsCollector;
use rargate::path::PathName;

const SECOND: u64 = 1_000_000_000;
const DIR: PathProbe = PathProbe { exists: true, parent_exists: true, is_dir: true };
const GONE: PathProbe = PathProbe { exists: false, parent_exists: false, is_dir: false };

fn layers() -> Option<PathMappingConfig> {
    Some(PathMappingConfig {
        host_path: None,
        host_paths: Some(vec![
            PathName::new("/mnt/user/share/verified"),
            PathName::new("/mnt/user/share/unverified"),
        ]),
        emby_path: PathName::new("/share"),
    })
}

fn settings() -> EmbyConfig {
    EmbyConfig {
        enabled: true,
        url: "http://emby:8096".to_string(),
        api_token: "token".to_string(),
        debounce_seconds: None,
        cache_minutes: None,
        fallback_full_refresh: Some(true),
        max_retries: None,
        retry_delay_ms: None,
        full_refresh_cooldown_seconds: None,
        path_mapping: layers(),
    }
}

fn item(id: &str, path: Option<&str>, kind: Option<&str>) -> EmbyItem {
    EmbyItem {
        id: id.to_string(),
        name: None,
        path: path.map(|p| p.to_string()),
        item_type: kind.map(|k| k.to_string()),
    }
}

#[test]
fn test_path_translation() {
    let mapping = layers();
    let host_path = PathName::new("/mnt/user/share/verified/Movies/Test.Movie/movie.mkv");
    let emby_path = translate_path(&host_path, &mapping, "Test");
    assert_eq!(emby_path.as_str(), "/share/Movies/Test.Movie/movie.mkv");

    let host_path = PathName::new("/mnt/user/share/unverified/Movies/Test.Movie/movie.mkv");
    let emby_path = translate_path(&host_path, &mapping, "Test");
    assert_eq!(emby_path.as_str(), "/share/Movies/Test.Movie/movie.mkv");

    let other_path = PathName::new("/some/other/path");
    let result = translate_path(&other_path, &mapping, "Test");
    assert_eq!(result.as_str(), other_path.as_str());
}

#[test]
fn emby_notifier_test_deletion_path_translation() {
    let mapping = layers();
    let deleted = PathName::new("/mnt/user/share/verified/Movies/Death.Note.2017");
    let translated = translate_path(&deleted, &mapping, "Emby");
    assert_eq!(translated.as_str(), "/share/Movies/Death.Note.2017");

    let deleted =
        PathName::new("/mnt/user/share/unverified/TV Shows/Breaking.Bad/Season.1/ep01.mkv");
    let translated = translate_path(&deleted, &mapping, "Emby");
    assert_eq!(translated.as_str(), "/share/TV Shows/Breaking.Bad/Season.1/ep01.mkv");

    let unmapped = PathName::new("/other/location/file.mkv");
    let result = translate_path(&unmapped, &mapping, "Emby");
    assert_eq!(result.as_str(), unmapped.as_str());
}

#[test]
fn scannable_item_type_excludes_generic_folder_nodes() {
    assert!(!is_scannable_item_type(Some("Folder")));
}

#[test]
fn scannable_item_type_keeps_real_library_items() {
    for t in ["Movie", "Series", "Season", "Episode", "CollectionFolder"] {
        assert!(is_scannable_item_type(Some(t)), "{t} should be scannable");
    }
}

#[test]
fn scannable_item_type_keeps_unknown_type() {
    assert!(is_scannable_item_type(None));
}

fn vfolder(item_id: &str, locations: &[&str]) -> VirtualFolder {
    vfolder_with_monitor(item_id, locations, false)
}

fn vfolder_with_monitor(item_id: &str, locations: &[&str], realtime_monitor: bool) -> VirtualFolder {
    VirtualFolder {
        item_id: item_id.to_string(),
        locations: locations.iter().map(|s| s.to_string()).collect(),
        library_options: Some(LibraryOptions { enable_realtime_monitor: realtime_monitor }),
    }
}

#[test]
fn library_lookup_matches_the_owning_library() {
    let folders = vec![
        vfolder("7", &["/share/Movies", "/share/Elvis/Movies.starring.Elvis"]),
        vfolder("475592", &["/share/Documentaries/Movies"]),
    ];
    let path = PathName::new("/share/Documentaries/Movies/Some.Doc.2026-GROUP");
    assert_eq!(find_library_for_path(&path, &folders), Some(("475592".to_string(), false)));
}

#[test]
fn library_lookup_picks_longest_matching_location() {
    let folders = vec![vfolder("1", &["/share"]), vfolder("2", &["/share/Movies"])];
    let path = PathName::new("/share/Movies/Some.Movie.2026-GROUP");
    assert_eq!(find_library_for_path(&path, &folders), Some(("2".to_string(), false)));
}

#[test]
fn separators_do_not_make_a_location_deeper() {
    let folders = vec![vfolder("1", &["/a///"]), vfolder("2", &["/a/b"]), vfolder("3", &["/.//a"])];
    let path = PathName::new("/a/b/c");
    assert_eq!(find_library_for_path(&path, &folders), Some(("2".to_string(), false)));
}

#[test]
fn among_equally_deep_locations_the_longer_text_wins() {
    let path = PathName::new("/a/b");
    let first = vec![vfolder("1", &["/a/"]), vfolder("2", &["/a"])];
    assert_eq!(find_library_for_path(&path, &first), Some(("1".to_string(), false)));
    let inner = vec![vfolder("1", &["/a/", "/a//", "/a"]), vfolder("2", &["/a/"])];
    assert_eq!(find_library_for_path(&path, &inner), Some(("1".to_string(), false)));
    let equal = vec![vfolder("1", &["/a/"]), vfolder("2", &["/a/"]), vfolder("3", &["/a"])];
    assert_eq!(find_library_for_path(&path, &equal), Some(("2".to_string(), false)));
}

#[test]
fn library_lookup_none_for_unconfigured_path() {
    let folders = vec![vfolder("7", &["/share/Movies"])];
    let path = PathName::new("/share/Music/Some.Album");
    assert_eq!(find_library_for_path(&path, &folders), None);
}

#[test]
fn library_lookup_surfaces_realtime_monitor_flag() {
    let folders = vec![
        vfolder_with_monitor("1", &["/share/Movies"], true),
        vfolder("2", &["/share/TV Shows"]),
    ];
    assert_eq!(
        find_library_for_path(&PathName::new("/share/Movies/New.Movie.2026"), &folders),
        Some(("1".to_string(), true)),
    );
    assert_eq!(
        find_library_for_path(&PathName::new("/share/TV Shows/New.Show"), &folders),
        Some(("2".to_string(), false)),
    );
}

#[test]
fn library_lookup_treats_missing_library_options_as_monitor_off() {
    let folders = vec![VirtualFolder {
        item_id: "3".to_string(),
        locations: vec!["/share/Movies".to_string()],
        library_options: None,
    }];
    assert_eq!(
        find_library_for_path(&PathName::new("/share/Movies/New.Movie.2026"), &folders),
        Some(("3".to_string(), false)),
    );
}

#[test]
fn items_without_a_path_and_plain_folders_are_dropped() {
    let all = vec![
        item("1", Some("/share/a"), Some("Movie")),
        item("2", None, Some("Movie")),
        item("3", Some("/share/b"), Some("Folder")),
        item("4", Some("/share/c"), None),
    ];
    let kept = keep_usable_items(&all);
    assert_eq!(kept.len(), 2);
    assert_eq!(kept[0].id, "1");
    assert_eq!(kept[1].id, "4");
}

#[test]
fn items_inside_a_changed_directory_are_refreshed_once() {
    let items = vec![
        item("1", Some("/share/TV/Show/S01/ep1.mkv"), None),
        item("2", Some("/share/TV/Show"), None),
        item("3", Some("/share/TV/Showing"), None),
        item("1", Some("/share/TV/Show/S01/ep1.mkv"), None),
    ];
    let paths = vec![PathName::new("/mnt/user/share/verified/TV/Show")];
    let ids = process_batch_emby_style(&paths, &vec![DIR], &layers(), &items, "Emby");
    assert_eq!(ids, vec!["1".to_string(), "2".to_string()]);
}

#[test]
fn the_nearest_parent_is_refreshed_where_no_item_matches() {
    let n = EmbyNotifier::new(settings());
    let items = vec![
        item("10", Some("/share"), None),
        item("11", Some("/share/TV"), None),
        item("12", Some("/share/TV/Show/"), None),
    ];
    let paths = vec![PathName::new("/mnt/user/share/verified/TV/Show/S02/New.Episode")];
    match n.plan_created(&paths, &vec![DIR], &items) {
        CreatedPlan::RefreshItems(ids) => assert_eq!(ids, vec!["12".to_string()]),
        _ => panic!("the show should be refreshed"),
    }
    match n.plan_created(&paths, &vec![GONE], &items) {
        CreatedPlan::Nothing => {}
        _ => panic!("nothing is left to refresh"),
    }
}

#[test]
fn new_content_is_sorted_by_library() {
    let n = EmbyNotifier::new(settings());
    let paths = vec![
        PathName::new("/mnt/user/share/verified/Movies/A"),
        PathName::new("/mnt/user/share/verified/TV/B"),
        PathName::new("/mnt/user/share/verified/Music/C"),
    ];
    let dirs = match n.plan_created(&paths, &vec![DIR, DIR, DIR], &vec![]) {
        CreatedPlan::NewContent(dirs) => dirs,
        _ => panic!("the content is new"),
    };
    let folders = vec![
        vfolder_with_monitor("1", &["/share/Movies"], true),
        vfolder("2", &["/share/TV"]),
    ];
    let mut c = n.sort_new_content(&dirs, &folders);
    assert_eq!(c.monitored.len(), 1);
    assert_eq!(c.monitored[0].as_str(), "/share/Movies/A");
    assert_eq!(c.libraries, vec!["2".to_string()]);
    assert_eq!(c.unmatched.len(), 1);
    assert_eq!(c.unmatched[0].as_str(), "/share/Music/C");
    c.monitored_failed();
    assert_eq!(c.libraries, vec!["2".to_string(), "1".to_string()]);
}

fn content(monitored: &[(&str, &str)], libraries: &[&str], unmatched: &[&str]) -> NewContent {
    NewContent {
        monitored: monitored.iter().map(|(p, _)| PathName::new(p)).collect(),
        monitored_libraries: monitored.iter().map(|(_, id)| id.to_string()).collect(),
        libraries: libraries.iter().map(|id| id.to_string()).collect(),
        unmatched: unmatched.iter().map(|p| PathName::new(p)).collect(),
    }
}

fn wanted(b: &EmbyBatch) -> String {
    match b.next() {
        EmbyAction::Tell(paths) => {
            let texts: Vec<&str> = paths.iter().map(|p| p.as_str()).collect();
            format!("tell {}", texts.join(" "))
        }
        EmbyAction::Refresh(id) => format!("refresh {id}"),
        EmbyAction::ScanAll => "scan".to_string(),
        EmbyAction::Done => "done".to_string(),
    }
}

#[test]
fn new_content_is_announced_in_order() {
    let mut n = EmbyNotifier::new(settings());
    let mut m = MetricsCollector::new(0);
    n.items_cache.store(vec![item("9", None, None)], 0);
    let mut b = EmbyBatch::new(content(&[("/m/A", "1"), ("/m/B", "1")], &["2", "3"], &["/x"]));
    assert_eq!(wanted(&b), "tell /m/A /m/B");
    assert_eq!(b.on_reply(true, 0, &mut n, &mut m), None);
    assert!(n.items_cache.get(0).is_none());
    assert_eq!(m.emby_targeted_new_content_notifies, 2);
    n.items_cache.store(vec![item("9", None, None)], 0);
    assert_eq!(wanted(&b), "refresh 2");
    b.on_reply(false, 0, &mut n, &mut m);
    assert!(n.items_cache.get(0).is_some());
    assert_eq!(wanted(&b), "refresh 3");
    b.on_reply(true, 0, &mut n, &mut m);
    assert!(n.items_cache.get(0).is_none());
    assert_eq!(wanted(&b), "tell /x");
    assert_eq!(b.on_reply(true, 0, &mut n, &mut m), None);
    assert_eq!(wanted(&b), "done");
    assert_eq!(m.emby_full_refreshes, 0);
    assert!(n.last_full_refresh.is_none());
}

#[test]
fn paths_that_were_not_told_refresh_their_library() {
    let mut n = EmbyNotifier::new(settings());
    let mut m = MetricsCollector::new(0);
    n.items_cache.store(vec![item("9", None, None)], 0);
    let mut b = EmbyBatch::new(content(&[("/m/A", "1"), ("/m/B", "2")], &["2"], &[]));
    b.on_reply(false, 0, &mut n, &mut m);
    assert!(n.items_cache.get(0).is_some());
    assert_eq!(m.emby_targeted_new_content_notifies, 0);
    assert_eq!(wanted(&b), "refresh 2");
    b.on_reply(true, 0, &mut n, &mut m);
    assert_eq!(wanted(&b), "refresh 1");
    b.on_reply(true, 0, &mut n, &mut m);
    assert_eq!(wanted(&b), "done");
    assert_eq!(wanted(&EmbyBatch::new(content(&[], &[], &[]))), "done");
}

#[test]
fn paths_without_a_library_fall_back_to_a_scan() {
    let mut n = EmbyNotifier::new(settings());
    let mut m = MetricsCollector::new(0);
    let mut b = EmbyBatch::new(content(&[], &[], &["/x"]));
    assert_eq!(b.on_reply(false, 0, &mut n, &mut m), Some(Fallback::FullRefresh));
    assert_eq!(wanted(&b), "scan");
    b.on_reply(true, 10 * SECOND, &mut n, &mut m);
    assert_eq!(wanted(&b), "done");
    assert_eq!(n.last_full_refresh, Some(10 * SECOND));
    assert_eq!(m.emby_full_refreshes, 1);
    let mut b = EmbyBatch::new(content(&[], &[], &["/x"]));
    let choice = b.on_reply(false, 70 * SECOND, &mut n, &mut m);
    assert_eq!(choice, Some(Fallback::CoolingDown(540)));
    assert_eq!(m.full_refresh_cooldown_skips, 1);
    assert_eq!(wanted(&b), "done");
    let mut b = EmbyBatch::new(content(&[], &[], &["/x"]));
    b.on_reply(false, 610 * SECOND, &mut n, &mut m);
    b.on_reply(false, 620 * SECOND, &mut n, &mut m);
    assert_eq!(wanted(&b), "done");
    assert_eq!(n.last_full_refresh, Some(10 * SECOND));
    assert_eq!(m.emby_full_refreshes, 1);
}

#[test]
fn items_are_fetched_anew_after_a_refresh_that_worked() {
    let mut n = EmbyNotifier::new(settings());
    n.items_cache.store(vec![item("9", None, None)], 0);
    n.items_refreshed(&vec![]);
    n.items_refreshed(&vec![false, false]);
    assert!(n.items_cache.get(0).is_some());
    n.items_refreshed(&vec![false, true, false]);
    assert!(n.items_cache.get(0).is_none());
}

#[test]
fn full_scans_wait_for_the_cooldown() {
    let mut n = EmbyNotifier::new(settings());
    let mut m = MetricsCollector::new(0);
    assert_eq!(n.fallback(0, &mut m), Fallback::FullRefresh);
    n.full_refresh_done(10 * SECOND, &mut m);
    assert_eq!(m.emby_full_refreshes, 1);
    assert_eq!(n.fallback(70 * SECOND, &mut m), Fallback::CoolingDown(540));
    assert_eq!(m.full_refresh_cooldown_skips, 1);
    assert_eq!(n.fallback(610 * SECOND, &mut m), Fallback::FullRefresh);
    let mut off = settings();
    off.fallback_full_refresh = None;
    assert_eq!(EmbyNotifier::new(off).fallback(0, &mut m), Fallback::Skip);
}

#[test]
fn addresses_of_the_emby_interface() {
    let n = EmbyNotifier::new(settings());
    assert_eq!(
        n.config.fetch_items_url,
        "http://emby:8096/emby/Items?Recursive=true&Fields=Path,Name&api_key=token"
    );
    assert_eq!(
        n.config.virtual_folders_url,
        "http://emby:8096/emby/Library/VirtualFolders?api_key=token"
    );
    assert_eq!(n.config.notify_path_url, "http://emby:8096/emby/Library/Media/Updated?api_key=token");
    assert_eq!(n.config.full_library_url, "http://emby:8096/emby/Library/Refresh?api_key=token");
    assert_eq!(
        n.item_refresh_url("42"),
        "http://emby:8096/emby/Items/42/Refresh?Recursive=true&api_key=token"
    );
    assert_eq!(n.config.debounce_seconds, 5);
    assert_eq!(n.config.cache_minutes, 15);
}

#[test]
fn deleted_paths_are_translated() {
    let n = EmbyNotifier::new(settings());
    let t = n.deleted_paths(&vec![PathName::new("/mnt/user/share/unverified/A/b.mkv")]);
    assert_eq!(t.len(), 1);
    assert_eq!(t[0].as_str(), "/share/A/b.mkv");
}

#[test]
fn jellyfin_speaks_the_same_language_without_a_prefix() {
    let n = jellyfin_notifier::new(JellyfinConfig {
        enabled: true,
        url: "http://jellyfin:8096".to_string(),
        api_token: "token".to_string(),
        debounce_seconds: Some(7),
        cache_minutes: None,
        fallback_full_refresh: None,
        max_retries: None,
        retry_delay_ms: None,
        full_refresh_cooldown_seconds: Some(30),
        path_mapping: None,
    });
    assert_eq!(n.server_name(), "Jellyfin");
    assert_eq!(n.config.full_library_url, "http://jellyfin:8096/Library/Refresh?api_key=token");
    assert_eq!(n.config.debounce_seconds, 7);
    let mut m = MetricsCollector::new(0);
    n.increment_notification_counter(&mut m);
    assert_eq!(m.jellyfin_notifications, 1);
    assert_eq!(m.emby_notifications, 0);
    EmbyNotifier::new(settings()).increment_notification_counter(&mut m);
    assert_eq!(m.emby_notifications, 1);
}
