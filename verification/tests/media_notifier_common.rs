use rargate::config::PathMappingConfig;
use rargate::media_notifier_common::batch_targets;
use rargate::media_notifier_common::default_media_extensions;
use rargate::media_notifier_common::filter_existing_paths;
use rargate::media_notifier_common::get_parent_dirs;
use rargate::media_notifier_common::get_target_dirs;
use rargate::media_notifier_common::give_up_message;
use rargate::media_notifier_common::translate_path;
use rargate::media_notifier_common::Batch;
use rargate::media_notifier_common::BatchAction;
use rargate::media_notifier_common::BatchRun;
use rargate::media_notifier_common::Debounce;
use rargate::media_notifier_common::ItemCache;
use rargate::media_notifier_common::MediaEvent;
use rargate::media_notifier_common::PathProbe;
use rargate::media_notifier_common::Reply;
use rargate::media_notifier_common::Retry;
use rargate::media_notifier_common::RetryStep;
use rargate::path::PathName;
use rargate::path_set::PathSet;

const SECOND: u64 = 1_000_000_000;

fn probe(path: &str) -> PathProbe {
    let p = std::path::Path::new(path);
    PathProbe {
        exists: p.exists(),
        parent_exists: p.parent().map(|d| d.exists()).unwrap_or(false),
        is_dir: p.is_dir(),
    }
}

fn paths(all: &[&str]) -> Vec<PathName> {
    all.iter().map(|p| PathName::new(p)).collect()
}

#[test]
fn test_media_event_created() {
    let path = PathName::new("/share/Movies/Test.Movie.2024");
    let event = MediaEvent::Created(path.clone());
    assert_eq!(event.path().as_str(), path.as_str());
    assert!(!event.is_deletion());
}

#[test]
fn test_media_event_deleted() {
    let path = PathName::new("/share/Movies/Death.Note.2017");
    let event = MediaEvent::Deleted(path.clone());
    assert_eq!(event.path().as_str(), path.as_str());
    assert!(event.is_deletion());
}

#[test]
fn test_filter_existing_paths_skips_nonexistent() {
    let names = ["/nonexistent/path/movie.mkv", "/tmp"];
    let probes: Vec<PathProbe> = names.iter().map(|p| probe(p)).collect();
    let existing = filter_existing_paths(&paths(&names), &probes);
    assert_eq!(existing.len(), 1);
    assert_eq!(existing[0].as_str(), "/tmp");
}

#[test]
fn test_get_parent_dirs_from_deleted_paths() {
    let deleted_paths = paths(&[
        "/share/Movies/Death.Note.2017/death.note.mkv",
        "/share/Movies/Death.Note.2017/death.note.nfo",
    ]);
    let parents = get_parent_dirs(&deleted_paths);
    assert_eq!(parents.len(), 1);
    assert!(parents.contains(&PathName::new("/share/Movies/Death.Note.2017")));
}

#[test]
fn media_notifier_common_test_deletion_path_translation() {
    let mapping = Some(PathMappingConfig {
        host_path: None,
        host_paths: Some(paths(&["/mnt/user/share/verified", "/mnt/user/share/unverified"])),
        emby_path: PathName::new("/share"),
    });
    let deleted = PathName::new("/mnt/user/share/verified/Movies/Death.Note.2017");
    let translated = translate_path(&deleted, &mapping, "Emby");
    assert_eq!(translated.as_str(), "/share/Movies/Death.Note.2017");

    let deleted = PathName::new("/mnt/user/share/unverified/TV/Breaking.Bad/Season.1");
    let translated = translate_path(&deleted, &mapping, "Emby");
    assert_eq!(translated.as_str(), "/share/TV/Breaking.Bad/Season.1");
}

#[test]
fn the_single_host_path_is_the_fallback() {
    let mapping = Some(PathMappingConfig {
        host_path: Some(PathName::new("/mnt/merged")),
        host_paths: Some(paths(&["/mnt/verified"])),
        emby_path: PathName::new("/share"),
    });
    let t = |p: &str| translate_path(&PathName::new(p), &mapping, "Plex").as_str().to_string();
    assert_eq!(t("/mnt/verified/a/b"), "/share/a/b");
    assert_eq!(t("/mnt/merged/a/b"), "/share/a/b");
    assert_eq!(t("/mnt/verifiedx/a"), "/mnt/verifiedx/a");
    assert_eq!(t("/mnt/verified"), "/share/");
    assert_eq!(translate_path(&PathName::new("/x"), &None, "Plex").as_str(), "/x");
}

#[test]
fn a_path_whose_parent_exists_is_kept() {
    let probes = vec![
        PathProbe { exists: false, parent_exists: true, is_dir: false },
        PathProbe { exists: false, parent_exists: false, is_dir: false },
    ];
    let kept = filter_existing_paths(&paths(&["/a/b", "/c/d"]), &probes);
    assert_eq!(kept.len(), 1);
    assert_eq!(kept[0].as_str(), "/a/b");
}

#[test]
fn targets_are_directories_or_parents() {
    let probes = vec![
        PathProbe { exists: true, parent_exists: true, is_dir: true },
        PathProbe { exists: true, parent_exists: true, is_dir: false },
        PathProbe { exists: true, parent_exists: true, is_dir: false },
    ];
    let all = paths(&["/tv/show/ep1", "/tv/show/sub.srt", "/tv/show/other.srt"]);
    let t = get_target_dirs(&all, &probes);
    assert_eq!(t.len(), 2);
    assert!(t.contains(&PathName::new("/tv/show/ep1")));
    assert!(t.contains(&PathName::new("/tv/show")));
    let gone = PathProbe { exists: false, parent_exists: false, is_dir: false };
    let b = batch_targets(&all, &vec![probes[0], gone, gone]);
    assert_eq!(b.len(), 1);
    assert_eq!(b.get(0).as_str(), "/tv/show/ep1");
}

#[test]
fn a_path_without_a_parent_is_its_own_target() {
    let probes = vec![PathProbe { exists: true, parent_exists: false, is_dir: false }];
    let t = get_target_dirs(&paths(&["/"]), &probes);
    assert!(t.contains(&PathName::new("/")));
    assert_eq!(get_parent_dirs(&paths(&["/"])).len(), 0);
}

#[test]
fn a_list_is_used_until_it_expires() {
    let mut c: ItemCache<u32> = ItemCache::new(1);
    assert!(c.get(0).is_none());
    c.store(vec![1, 2], 5 * SECOND);
    assert_eq!(c.get(64 * SECOND), Some(&vec![1, 2]));
    assert_eq!(c.get(65 * SECOND - 1), Some(&vec![1, 2]));
    assert_eq!(c.get(65 * SECOND), None);
    c.store(vec![3], 70 * SECOND);
    c.invalidate();
    assert_eq!(c.get(70 * SECOND), None);
}

#[test]
fn waits_double_until_the_request_is_given_up() {
    let mut r = Retry::new(3, 1000);
    assert!(r.can_count());
    assert_eq!(r.on_reply(Reply::ServerError), RetryStep::Wait(1000));
    assert_eq!(r.on_reply(Reply::TransportError), RetryStep::Wait(2000));
    assert_eq!(r.on_reply(Reply::ServerError), RetryStep::Wait(4000));
    assert_eq!(r.on_reply(Reply::ServerError), RetryStep::GiveUp(4));
}

#[test]
fn client_errors_and_successes_end_a_request() {
    let mut r = Retry::new(3, 1000);
    assert_eq!(r.on_reply(Reply::OtherStatus), RetryStep::Return);
    assert_eq!(r.on_reply(Reply::Success), RetryStep::Return);
    let mut none = Retry::new(0, 1000);
    assert_eq!(none.on_reply(Reply::TransportError), RetryStep::GiveUp(1));
}

#[test]
fn delays_that_cannot_be_counted_are_noticed() {
    let mut r = Retry::new(100, u64::MAX / 2 + 1);
    assert!(r.can_count());
    assert_eq!(r.on_reply(Reply::ServerError), RetryStep::Wait(u64::MAX / 2 + 1));
    assert!(!r.can_count());
}

#[test]
fn the_last_message_names_the_attempts() {
    assert_eq!(
        give_up_message(4, "refresh", "Server error 500: "),
        "All 4 retry attempts failed for refresh: Server error 500: "
    );
}

#[test]
fn repeated_events_collapse_and_move_the_deadline() {
    let mut d = Debounce::new(5 * SECOND);
    assert_eq!(d.deadline(), None);
    assert!(d.expire().is_none());
    d.receive(MediaEvent::Created(PathName::new("/a/b")), SECOND);
    assert_eq!(d.deadline(), Some(6 * SECOND));
    d.receive(MediaEvent::Created(PathName::new("/a//b/")), 3 * SECOND);
    d.receive(MediaEvent::Deleted(PathName::new("/a/c")), 4 * SECOND);
    assert_eq!(d.deadline(), Some(9 * SECOND));
    match d.expire() {
        Some(b) => {
            assert_eq!(b.created.len(), 1);
            assert_eq!(b.created.get(0).as_str(), "/a/b");
            assert_eq!(b.deleted.len(), 1);
        }
        None => panic!("a batch was due"),
    }
    assert_eq!(d.deadline(), None);
    assert!(d.expire().is_none());
}

fn turns(created: &[&str], deleted: &[&str]) -> Vec<String> {
    let mut batch = Batch { created: PathSet::new(), deleted: PathSet::new() };
    for p in created {
        batch.created.insert(PathName::new(p));
    }
    for p in deleted {
        batch.deleted.insert(PathName::new(p));
    }
    let mut run = BatchRun::new(batch);
    let mut all = Vec::new();
    loop {
        let (kind, paths) = match run.next() {
            BatchAction::Created(paths) => ("created", paths),
            BatchAction::Deleted(paths) => ("deleted", paths),
            BatchAction::Done => return all,
        };
        let texts: Vec<&str> = paths.iter().map(|p| p.as_str()).collect();
        all.push(format!("{kind} {}", texts.join(" ")));
        run.handed_on();
    }
}

#[test]
fn what_was_created_goes_before_what_was_deleted() {
    assert_eq!(turns(&["/a", "/b"], &["/c"]), vec!["created /a /b", "deleted /c"]);
    assert_eq!(turns(&["/a"], &[]), vec!["created /a"]);
    assert_eq!(turns(&[], &["/c"]), vec!["deleted /c"]);
    assert!(turns(&[], &[]).is_empty());
}

#[test]
fn twenty_extensions_count_as_media() {
    let e = default_media_extensions();
    assert_eq!(e.len(), 20);
    assert_eq!(e[0], "mkv");
    assert_eq!(e[19], "cue");
}
