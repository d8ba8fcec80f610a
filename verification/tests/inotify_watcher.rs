use rargate::config::OverlayConfig;
use rargate::config::ValidationBackoffConfig;
use rargate::config::WatcherConfig;
use rargate::inotify_watcher::find_sfv_file;
use rargate::inotify_watcher::get_max_watches;
use rargate::inotify_watcher::humanize_duration;
use rargate::inotify_watcher::is_excluded_dir;
use rargate::inotify_watcher::is_sidecar_extension;
use rargate::inotify_watcher::is_sidecar_file;
use rargate::inotify_watcher::is_temporary_path;
use rargate::inotify_watcher::sfv_failure_milestone;
use rargate::inotify_watcher::translate_to_backend_path;
use rargate::inotify_watcher::Action;
use rargate::inotify_watcher::EventMask;
use rargate::inotify_watcher::InotifyWatcher;
use rargate::inotify_watcher::Next;
use rargate::inotify_watcher::WatchState;
use rargate::inotify_watcher::WatchWalk;
use rargate::media_notifier_common::MediaEvent;
use rargate::path::PathName;

const SECOND: u64 = 1_000_000_000;

const WALL: u64 = 1_700_000_000 * SECOND;

fn overlay(merged: bool) -> OverlayConfig {
    OverlayConfig {
        verified_share_path: PathName::new("/v"),
        unverified_share_path: PathName::new("/u"),
        merged_directory: if merged { Some(PathName::new("/m")) } else { None },
        use_for_filtering: None,
    }
}

fn watcher(merged: bool) -> InotifyWatcher {
    InotifyWatcher::new(
        &overlay(merged),
        PathName::new("/b"),
        Some(vec!["Sample".to_string()]),
        None,
        None,
    )
}

fn shown(actions: &[Action]) -> Vec<String> {
    actions
        .iter()
        .map(|a| match a {
            Action::Invalidate(p) => format!("invalidate {}", p.as_str()),
            Action::RefreshOverlay(p) => format!("refresh {}", p.as_str()),
            Action::Notify(s, MediaEvent::Created(p)) => format!("{:?} + {}", s, p.as_str()),
            Action::Notify(s, MediaEvent::Deleted(p)) => format!("{:?} - {}", s, p.as_str()),
            Action::ClearStuck(p) => format!("clear {}", p.as_str()),
            Action::RecordStuck(p, n, t) => format!("stuck {} {} {}", p.as_str(), n, t / SECOND),
            Action::Escalate(p, n, t) => format!("escalate {} {} {}", p.as_str(), n, t / SECOND),
            Action::Warn(p, n, t) => format!("warn {} {} {}", p.as_str(), n, t / SECOND),
            Action::LogTemporary(p) => format!("temporary {}", p.as_str()),
            Action::Unwatch => "unwatch".to_string(),
        })
        .collect()
}

fn quiet() -> EventMask {
    EventMask {
        is_dir: false,
        create: false,
        delete: false,
        delete_self: false,
        moved_from: false,
        moved_to: false,
    }
}

fn created() -> EventMask {
    EventMask { create: true, ..quiet() }
}

fn deleted() -> EventMask {
    EventMask { delete: true, ..quiet() }
}

#[test]
fn sidecar_extensions_ignore_case() {
    assert!(is_sidecar_extension("srt"));
    assert!(is_sidecar_extension("part"));
    assert!(!is_sidecar_extension("mkv"));
    assert!(is_sidecar_file(&PathName::new("/v/a/Movie.SRT")));
    assert!(is_sidecar_file(&PathName::new("/v/a/movie.nfo")));
    assert!(!is_sidecar_file(&PathName::new("/v/a/movie.rar")));
    assert!(!is_sidecar_file(&PathName::new("/v/a/srt")));
}

#[test]
fn milestones_are_the_highest_reached() {
    let expected = [
        (0, 0),
        (2, 0),
        (3, 3),
        (9, 3),
        (10, 10),
        (49, 10),
        (50, 50),
        (100, 100),
        (499, 100),
        (500, 500),
        (1000, 1000),
        (5000, 5000),
        (4_000_000_000, 5000),
    ];
    for (count, milestone) in expected {
        assert_eq!(sfv_failure_milestone(count), milestone, "{}", count);
    }
}

#[test]
fn durations_show_their_largest_units() {
    assert_eq!(humanize_duration(0), "0s");
    assert_eq!(humanize_duration(30), "30s");
    assert_eq!(humanize_duration(45 * 60), "45m");
    assert_eq!(humanize_duration(5 * 3600 + 12 * 60 + 9), "5h 12m");
    assert_eq!(humanize_duration(4 * 86_400 + 3 * 3600 + 59 * 60), "4d 3h");
    assert_eq!(humanize_duration(86_400), "1d 0h");
}

#[test]
fn temporary_paths_of_download_clients() {
    let yes = [
        "/v/.::TMPNAME:D:29359%15528680822634716288:MovieName",
        "/v/.::TMPNAME:D:1:x/movie.rar",
        "/v/_UNPACK_Movie/movie.mkv",
        "/v/a/movie.mkv.!qB",
        "/v/a/._movie.mkv",
        "/v/a/movie.part",
        "/v/a/movie.tmp",
        "/v/a/movie.dctmp",
    ];
    for p in yes {
        assert!(is_temporary_path(&PathName::new(p)), "{}", p);
    }
    for p in ["/v/a/movie.mkv", "/v/a/movie.PART", "/v/part.d/movie.rar", "/"] {
        assert!(!is_temporary_path(&PathName::new(p)), "{}", p);
    }
}

#[test]
fn excluded_directories_ignore_case() {
    let exclude = vec!["sample".to_string(), "proof".to_string()];
    assert!(is_excluded_dir(&exclude, &PathName::new("/v/a/Sample")));
    assert!(is_excluded_dir(&exclude, &PathName::new("/v/PROOF")));
    assert!(!is_excluded_dir(&exclude, &PathName::new("/v/Sample/x")));
    assert!(!is_excluded_dir(&exclude, &PathName::new("/")));
    let capital = vec!["Sample".to_string()];
    assert!(is_excluded_dir(&capital, &PathName::new("/share/Movies/X/sample")));
    assert!(is_excluded_dir(&capital, &PathName::new("/share/Movies/X/SAMPLE")));
    assert!(!is_excluded_dir(&capital, &PathName::new("/share/Movies/X/samples")));
}

#[test]
fn the_first_sfv_file_is_found() {
    let entries = vec![
        PathName::new("/v/a/a.rar"),
        PathName::new("/v/a/a.SFV"),
        PathName::new("/v/a/b.sfv"),
    ];
    let found = find_sfv_file(&entries);
    assert_eq!(found.unwrap().as_str(), "/v/a/a.SFV");
    assert!(find_sfv_file(&vec![PathName::new("/v/a/a.rar")]).is_none());
}

#[test]
fn four_fifths_of_the_watches_are_used() {
    assert_eq!(get_max_watches(Some("524288\n")), (419_430, 524_288));
    assert_eq!(get_max_watches(Some("nothing")), (6553, 8192));
    assert_eq!(get_max_watches(None), (6553, 8192));
    assert_eq!(get_max_watches(Some("199")), (159, 199));
}

#[test]
fn watcher_settings_have_defaults() {
    let w = watcher(false);
    assert_eq!(w.max_validation_failures, 3);
    assert_eq!(w.validation_cooldown_secs, 300);
    assert_eq!(w.escalation_threshold, 25);
    assert_eq!(w.regression_threshold, 3);
    assert_eq!(w.sfv_debounce_secs, 30);
    assert_eq!(w.pending_cleanup_secs, 300);
    assert_eq!(w.revalidation_threshold_secs, 30);
    assert_eq!(w.exclude_dirs, vec!["sample".to_string()]);
    assert!(w.overlay_merged_path.is_none());
}

#[test]
fn escalation_never_comes_before_the_warnings() {
    let w = InotifyWatcher::new(
        &overlay(true),
        PathName::new("/b"),
        None,
        Some(ValidationBackoffConfig {
            max_failures: Some(8),
            cooldown_seconds: Some(60),
            escalate_after: Some(5),
            regression_escalate_after: Some(2),
        }),
        Some(WatcherConfig {
            sfv_debounce_seconds: Some(7),
            pending_cleanup_minutes: Some(2),
            revalidation_threshold_seconds: Some(9),
        }),
    );
    assert_eq!(w.escalation_threshold, 8);
    assert_eq!(w.regression_threshold, 2);
    assert_eq!(w.validation_cooldown_secs, 60);
    assert_eq!(w.sfv_debounce_secs, 7);
    assert_eq!(w.pending_cleanup_secs, 120);
    assert_eq!(w.revalidation_threshold_secs, 9);
    assert!(w.exclude_dirs.is_empty());
    assert_eq!(w.overlay_merged_path.unwrap().as_str(), "/m");
}

#[test]
fn both_layers_share_the_backend_path() {
    let v = PathName::new("/v");
    let u = PathName::new("/u");
    let b = PathName::new("/b");
    let from = |p: &str| {
        translate_to_backend_path(&PathName::new(p), &v, &u, &b).to_text()
    };
    assert_eq!(from("/v/Film/a.rar"), "/b/Film/a.rar");
    assert_eq!(from("/u/Film/a.rar"), "/b/Film/a.rar");
    assert_eq!(from("/elsewhere/a.rar"), "/elsewhere/a.rar");
}

#[test]
fn a_directory_is_ready_after_a_quiet_time() {
    let w = watcher(false);
    let mut s = WatchState::new(0);
    let r = s.event_arrived(&w, &PathName::new("/v/Film"), Some("a.rar"), created(), 0, SECOND);
    assert_eq!(r.path.as_str(), "/v/Film/a.rar");
    assert_eq!(r.next, Next::Finish);
    assert_eq!(shown(&r.actions), vec!["invalidate /b/Film/a.rar"]);
    assert!(s.ready_dirs(&w, 30 * SECOND).is_empty());
    assert_eq!(s.ready_dirs(&w, 31 * SECOND), vec!["/v/Film"]);
    s.event_arrived(
        &w,
        &PathName::new("/v/Film"),
        Some("b.rar"),
        created(),
        20 * SECOND,
        20 * SECOND,
    );
    assert!(s.ready_dirs(&w, 31 * SECOND).is_empty());
    assert_eq!(s.ready_dirs(&w, 50 * SECOND), vec!["/v/Film"]);
}

#[test]
fn arr_hears_of_a_release_once() {
    let w = watcher(false);
    let dir = PathName::new("/v/Film");
    let mut s = WatchState::new(0);
    let first = s.validation_passed(&w, &dir, 100 * SECOND, 100 * SECOND);
    assert_eq!(
        shown(&first),
        vec!["clear /v/Film", "Emby + /v/Film", "Jellyfin + /v/Film", "Plex + /v/Film", "Arr + /v/Film"]
    );
    let soon = s.validation_passed(&w, &dir, 219 * SECOND, 219 * SECOND);
    assert_eq!(shown(&soon), vec!["clear /v/Film"]);
    let later = s.validation_passed(&w, &dir, 220 * SECOND, 220 * SECOND);
    assert_eq!(
        shown(&later),
        vec!["clear /v/Film", "Emby + /v/Film", "Jellyfin + /v/Film", "Plex + /v/Film"]
    );
}

#[test]
fn a_passed_directory_is_not_ready_again() {
    let w = watcher(false);
    let mut s = WatchState::new(0);
    let base = PathName::new("/v/Film");
    s.event_arrived(&w, &base, Some("a.rar"), created(), 0, 0);
    s.validation_passed(&w, &base, 40 * SECOND, 40 * SECOND);
    assert!(s.ready_dirs(&w, 400 * SECOND).is_empty());
    s.event_arrived(&w, &base, Some("a.srt"), created(), 69 * SECOND, 69 * SECOND);
    assert!(s.ready_dirs(&w, 400 * SECOND).is_empty());
    s.event_arrived(&w, &base, Some("b.srt"), created(), 70 * SECOND, 70 * SECOND);
    assert_eq!(s.ready_dirs(&w, 400 * SECOND), vec!["/v/Film"]);
}

#[test]
fn failures_back_off_up_to_the_cooldown() {
    let w = InotifyWatcher::new(
        &overlay(false),
        PathName::new("/b"),
        None,
        Some(ValidationBackoffConfig {
            max_failures: Some(5),
            cooldown_seconds: Some(40),
            escalate_after: None,
            regression_escalate_after: None,
        }),
        None,
    );
    let dir = PathName::new("/v/Film");
    let mut s = WatchState::new(0);
    assert!(!s.in_backoff(&w, &dir, 0));
    let mut now: u64 = 0;
    for wait in [5, 15, 40, 40, 40, 40] {
        s.validation_failed(&w, &dir, now, WALL);
        assert!(s.in_backoff(&w, &dir, now + wait * SECOND - 1));
        assert!(!s.in_backoff(&w, &dir, now + wait * SECOND));
        now += wait * SECOND;
    }
    assert_eq!(s.failure_count(&dir), 6);
}

#[test]
fn stuck_releases_are_warned_about_at_milestones() {
    let w = watcher(false);
    let dir = PathName::new("/v/Film");
    let mut s = WatchState::new(0);
    for count in 1..=30u32 {
        let actions = shown(&s.validation_failed(&w, &dir, count as u64, WALL + count as u64 * SECOND));
        let since = 1_700_000_001;
        let stuck = format!("stuck /v/Film {} {}", count, since);
        let expected = match count {
            1 | 2 => vec![],
            3 | 10 => vec![format!("warn /v/Film {} {}", count, since), stuck],
            25 => vec![format!("escalate /v/Film {} {}", count, since), stuck],
            _ => vec![stuck],
        };
        assert_eq!(actions, expected, "{}", count);
    }
}

#[test]
fn announced_releases_escalate_early() {
    let w = InotifyWatcher::new(
        &overlay(false),
        PathName::new("/b"),
        None,
        Some(ValidationBackoffConfig {
            max_failures: Some(10),
            cooldown_seconds: None,
            escalate_after: None,
            regression_escalate_after: Some(2),
        }),
        None,
    );
    let dir = PathName::new("/v/Film");
    let mut s = WatchState::new(0);
    s.validation_passed(&w, &dir, 0, 0);
    assert!(s.validation_failed(&w, &dir, 1, WALL).is_empty());
    assert_eq!(
        shown(&s.validation_failed(&w, &dir, 2, WALL)),
        vec!["escalate /v/Film 2 1700000000", "stuck /v/Film 2 1700000000"]
    );
    assert_eq!(shown(&s.validation_failed(&w, &dir, 3, WALL)), vec!["stuck /v/Film 3 1700000000"]);
    let other = PathName::new("/v/Other");
    s.validation_failed(&w, &other, 1, WALL);
    assert!(s.validation_failed(&w, &other, 2, WALL).is_empty());
}

#[test]
fn success_and_new_files_reset_the_failures() {
    let w = watcher(false);
    let dir = PathName::new("/v/Film");
    let mut s = WatchState::new(0);
    s.validation_failed(&w, &dir, 0, WALL);
    s.validation_failed(&w, &dir, 0, WALL);
    assert_eq!(s.failure_count(&dir), 2);
    s.validation_passed(&w, &dir, 0, 0);
    assert_eq!(s.failure_count(&dir), 0);
    s.validation_failed(&w, &dir, 0, WALL);
    s.event_arrived(&w, &dir, Some("a.rar"), created(), 0, 0);
    assert_eq!(s.failure_count(&dir), 0);
}

#[test]
fn sidecar_deletions_are_ignored() {
    let w = watcher(false);
    let base = PathName::new("/v/Film");
    let mut s = WatchState::new(0);
    s.event_arrived(&w, &base, Some("a.rar"), created(), 0, 0);
    let r = s.event_arrived(&w, &base, Some("a.srt"), deleted(), 0, 0);
    assert_eq!(shown(&r.actions), vec!["invalidate /b/Film/a.srt"]);
    assert_eq!(s.ready_dirs(&w, 30 * SECOND), vec!["/v/Film"]);
    let r = s.event_arrived(&w, &base, Some("a.rar"), deleted(), 0, 0);
    assert_eq!(
        shown(&r.actions),
        vec![
            "invalidate /b/Film/a.rar",
            "Emby - /v/Film/a.rar",
            "Jellyfin - /v/Film/a.rar",
            "Plex - /v/Film/a.rar",
        ]
    );
    assert!(s.ready_dirs(&w, 30 * SECOND).is_empty());
}

#[test]
fn the_unverified_layer_is_told_at_once() {
    let w = watcher(false);
    let mut s = WatchState::new(0);
    let base = PathName::new("/u/Film");
    let r = s.event_arrived(&w, &base, Some("a.rar"), created(), 0, 0);
    assert_eq!(
        shown(&r.actions),
        vec![
            "invalidate /b/Film/a.rar",
            "Emby + /u/Film/a.rar",
            "Jellyfin + /u/Film/a.rar",
            "Plex + /u/Film/a.rar",
        ]
    );
    let r = s.event_arrived(&w, &base, Some("a.rar"), quiet(), 0, 0);
    assert_eq!(shown(&r.actions), vec!["invalidate /b/Film/a.rar"]);
    assert!(s.ready_dirs(&w, 100 * SECOND).is_empty());
}

#[test]
fn temporary_paths_are_logged_now_and_then() {
    let w = watcher(false);
    let mut s = WatchState::new(0);
    let base = PathName::new("/u/Film");
    let m = EventMask { is_dir: true, ..created() };
    let mut at = |now: u64| {
        let r = s.event_arrived(&w, &base, Some("a.tmp"), m, now, now);
        assert_eq!(r.next, Next::Done);
        shown(&r.actions)
    };
    assert_eq!(at(0), vec!["temporary /u/Film/a.tmp"]);
    assert!(at(4 * SECOND).is_empty());
    assert_eq!(at(5 * SECOND), vec!["temporary /u/Film/a.tmp"]);
}

#[test]
fn overlay_refreshes_coalesce() {
    let w = watcher(true);
    let mut s = WatchState::new(0);
    let base = PathName::new("/v/Film");
    let r = s.event_arrived(&w, &base, Some("a.rar"), created(), 0, 0);
    assert_eq!(shown(&r.actions), vec!["invalidate /b/Film/a.rar", "refresh /m/Film"]);
    let r = s.event_arrived(&w, &base, Some("b.rar"), created(), 0, 2 * SECOND);
    assert_eq!(shown(&r.actions), vec!["invalidate /b/Film/b.rar"]);
    let r = s.event_arrived(&w, &base, Some("c.rar"), created(), 0, 3 * SECOND);
    assert_eq!(shown(&r.actions), vec!["invalidate /b/Film/c.rar", "refresh /m/Film"]);
    let r = s.event_arrived(&w, &PathName::new("/u/Film"), Some("a.rar"), quiet(), 0, 9 * SECOND);
    assert_eq!(shown(&r.actions), vec!["invalidate /b/Film/a.rar"]);
}

#[test]
fn new_directories_are_watched() {
    let w = watcher(false);
    let mut s = WatchState::new(0);
    let m = EventMask { is_dir: true, ..created() };
    let r = s.event_arrived(&w, &PathName::new("/u"), Some("Film"), m, 0, 0);
    assert_eq!(r.next, Next::Watch);
    let r = s.event_arrived(&w, &PathName::new("/u"), Some("SAMPLE"), m, 0, 0);
    assert_eq!(r.next, Next::Done);
    let moved = EventMask { is_dir: true, moved_to: true, ..quiet() };
    let r = s.event_arrived(&w, &PathName::new("/v"), Some("Film"), moved, 0, 0);
    assert_eq!(r.next, Next::Watch);
    assert_eq!(s.ready_dirs(&w, 30 * SECOND), vec!["/v/Film"]);
}

#[test]
fn files_from_before_the_watch_are_validated() {
    let w = watcher(false);
    let mut s = WatchState::new(0);
    s.directory_watched(&w, &PathName::new("/v/A"), true, 0);
    s.directory_watched(&w, &PathName::new("/v/B"), false, 0);
    s.directory_watched(&w, &PathName::new("/u/C"), true, 0);
    s.directory_watched(&w, &PathName::new("/v/A"), true, 20 * SECOND);
    assert_eq!(s.ready_dirs(&w, 30 * SECOND), vec!["/v/A"]);
}

#[test]
fn deleted_directories_leave_the_tables() {
    let w = watcher(false);
    let mut s = WatchState::new(0);
    let full = PathName::new("/v/Film");
    s.directory_watched(&w, &full, true, 0);
    let gone = EventMask { delete_self: true, ..quiet() };
    assert_eq!(
        shown(&s.event_finished(&full, gone)),
        vec!["unwatch", "Emby - /v/Film", "Jellyfin - /v/Film", "Plex - /v/Film"]
    );
    assert!(s.ready_dirs(&w, 30 * SECOND).is_empty());
    let sub = EventMask { is_dir: true, ..deleted() };
    assert_eq!(
        shown(&s.event_finished(&full, sub)),
        vec!["Emby - /v/Film", "Jellyfin - /v/Film", "Plex - /v/Film"]
    );
    assert!(s.event_finished(&full, deleted()).is_empty());
}

#[test]
fn lost_events_start_the_tables_anew() {
    let w = watcher(false);
    let mut s = WatchState::new(0);
    s.directory_watched(&w, &PathName::new("/v/Old"), true, 0);
    s.validation_failed(&w, &PathName::new("/v/Bad"), 0, WALL);
    let watched = vec![
        (PathName::new("/v"), false),
        (PathName::new("/v/A"), true),
        (PathName::new("/u/B"), true),
        (PathName::new("/v/C"), true),
    ];
    s.recover_overflow(&w, &watched, SECOND);
    assert_eq!(s.ready_dirs(&w, 31 * SECOND), vec!["/v/C", "/v/A"]);
    assert_eq!(s.failure_count(&PathName::new("/v/Bad")), 0);
}

#[test]
fn cleanup_drops_what_is_old() {
    let w = watcher(false);
    let mut s = WatchState::new(0);
    let film = PathName::new("/v/Film");
    s.directory_watched(&w, &film, true, 0);
    s.validation_passed(&w, &film, 0, 0);
    s.directory_watched(&w, &PathName::new("/v/Wait"), true, 0);
    s.validation_failed(&w, &PathName::new("/v/Bad"), 0, WALL);
    s.validation_failed(&w, &PathName::new("/v/Worse"), SECOND, WALL);
    assert!(s.cleanup(&w, 59 * SECOND, 59 * SECOND).is_empty());
    assert!(s.pending.contains("/v/Film"));
    assert!(s.cleanup(&w, 299 * SECOND, 299 * SECOND).is_empty());
    assert!(s.pending.contains("/v/Film"));
    let gone = s.cleanup(&w, 3600 * SECOND, 3600 * SECOND);
    assert_eq!(shown(&gone), vec!["clear /v/Bad"]);
    assert!(!s.pending.contains("/v/Film"));
    assert!(s.pending.contains("/v/Wait"));
    assert_eq!(s.failure_count(&PathName::new("/v/Worse")), 1);
    assert!(s.announced.contains("/v/Film"));
}

#[test]
fn walks_stop_at_the_limits() {
    let exclude = vec!["sample".to_string()];
    let mut walk = WatchWalk::new(&PathName::new("/v"), 0, 3);
    let (root, depth) = walk.next().unwrap();
    assert_eq!((root.as_str(), depth), ("/v", 0));
    let children =
        vec![PathName::new("/v/a"), PathName::new("/v/Sample"), PathName::new("/v/b"), PathName::new("/v/c")];
    walk.added(&children, depth, &exclude);
    let (a, depth) = walk.next().unwrap();
    assert_eq!((a.as_str(), depth), ("/v/a", 1));
    walk.added(&vec![PathName::new("/v/a/x")], depth, &exclude);
    let (x, depth) = walk.next().unwrap();
    assert_eq!((x.as_str(), depth), ("/v/a/x", 2));
    walk.added(&vec![], depth, &exclude);
    assert_eq!(walk.watch_count(), 3);
    assert!(walk.next().is_none());
}

#[test]
fn walks_do_not_go_deeper_than_the_limit() {
    let mut walk = WatchWalk::new(&PathName::new("/v"), 5, 100);
    let mut visited = 0;
    while let Some((p, depth)) = walk.next() {
        visited += 1;
        walk.added(&vec![p.join("d")], depth, &vec![]);
    }
    assert_eq!(visited, 10);
    assert_eq!(walk.watch_count(), 15);
}
