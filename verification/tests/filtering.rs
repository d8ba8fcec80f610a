use rargate::config::Config;
use rargate::config::FiltersConfig;
use rargate::config::OverlayConfig;
use rargate::config::Rar2fsConfig;
use rargate::config::RarArchiveConfig;
use rargate::config::SfvConfig;
use rargate::config::UnionfsConfig;
use rargate::filtering::failure_line;
use rargate::filtering::find_sfv_name;
use rargate::filtering::is_rar_archive;
use rargate::filtering::DirectoryProbe;
use rargate::filtering::FilterEngine;
use rargate::filtering::HiddenReason;
use rargate::filtering::Layer;
use rargate::filtering::SfvMode;
use rargate::metrics::MetricsCollector;
use rargate::path::PathName;
use rargate::sfv::DirEntry;
use rargate::sfv::FileAge;
use rargate::sfv::FileEntry;

const SECOND: u64 = 1_000_000_000;

fn strings(all: &[&str]) -> Option<Vec<String>> {
    Some(all.iter().map(|s| s.to_string()).collect())
}

fn sfv(mode: &str) -> SfvConfig {
    SfvConfig {
        enabled: true,
        verified_share_indicators: vec!["/verified/".to_string()],
        unverified_share_indicators: vec!["/unverified/".to_string()],
        default_mode: mode.to_string(),
        log_failures: None,
        log_file: Some(PathName::new("/log/sfv.log")),
        lazy_mode: None,
        validation_backoff: None,
        download_threshold_seconds: None,
        permissive_validates_sfv: None,
    }
}

fn settings() -> Config {
    Config {
        source: PathName::new("/src"),
        mountpoint: PathName::new("/mnt"),
        verbose: None,
        daemon: false,
        read_only: None,
        no_delete: None,
        rar2fs: Rar2fsConfig {
            binary_path: None,
            backend_mount: None,
            seek_length: None,
            extra_options: None,
            max_concurrent_reads: None,
        },
        sfv_validation: Some(sfv("strict")),
        filters: Some(FiltersConfig {
            exclude_dirs: strings(&["Incomplete", "@eaDir"]),
            include_dirs: None,
            exclude_files: strings(&["*.TMP", "thumbs.d?"]),
            media_extensions: None,
            rar_archives: Some(RarArchiveConfig {
                enabled: true,
                hide_archives: None,
                cache_timeout: Some(10),
            }),
        }),
        overlay_reference: None,
        unionfs_reference: None,
        notifications: None,
        crash_recovery: None,
        watcher: None,
        emby: None,
        jellyfin: None,
        plex: None,
        arr: None,
        fuse_options: None,
        logging: None,
        metrics: None,
        core_dumps: None,
    }
}

fn engine(c: &Config) -> FilterEngine {
    FilterEngine::new(PathName::new("/back"), c)
}

fn file(name: &str) -> DirEntry {
    DirEntry::File(FileEntry { name: name.to_string(), age: FileAge::Unknown })
}

fn release(layer: Option<Layer>, source: Vec<DirEntry>, content: Option<&str>) -> DirectoryProbe {
    DirectoryProbe {
        layer,
        backend_files: strings(&["movie.MKV"]),
        source_entries: Some(source),
        sfv_content: content.map(|c| c.to_string()),
    }
}

#[test]
fn archives_and_their_parts_are_told_by_name() {
    for n in ["a.rar", "A.RAR", "a.r00", "a.R99", ".r12", "x.part01.rar"] {
        assert!(is_rar_archive(n), "{n}");
    }
    for n in ["a.r1", "a.r1a", "a.rarx", "r00", "a.s00", "rar", ""] {
        assert!(!is_rar_archive(n), "{n}");
    }
}

#[test]
fn files_are_hidden_by_name() {
    let e = engine(&settings());
    let p = PathName::new("/back/dir");
    assert!(!e.should_show_file(&p, "a.rar", None, true));
    assert!(!e.should_show_file(&p, "x.tmp", None, true));
    assert!(!e.should_show_file(&p, "Thumbs.DB", None, true));
    assert!(!e.should_show_file(&p, "\u{c4}.TMP", None, true));
    assert!(e.should_show_file(&p, "thumbs.data", None, true));
    assert!(e.should_show_file(&p, "movie.mkv", None, true));
    let mut c = settings();
    c.filters.as_mut().unwrap().rar_archives =
        Some(RarArchiveConfig { enabled: true, hide_archives: Some(false), cache_timeout: None });
    assert!(engine(&c).should_show_file(&p, "a.rar", None, true));
    c.filters = None;
    assert!(engine(&c).should_show_file(&p, "a.rar", None, true));
}

#[test]
fn directories_are_excluded_whatever_the_case() {
    let e = engine(&settings());
    let p = PathName::new("/back");
    assert!(!e.should_show_directory_basic_filter(&p, "INCOMPLETE"));
    assert!(!e.should_show_directory_basic_filter(&p, "@eadir"));
    assert!(e.should_show_directory_basic_filter(&p, "Movies"));
}

#[test]
fn the_root_shows_only_the_list() {
    let mut c = settings();
    c.filters.as_mut().unwrap().include_dirs = strings(&["Movies"]);
    let e = engine(&c);
    let root = PathName::new("/back/");
    let below = PathName::new("/back/Movies");
    assert!(e.should_show_directory_basic_filter(&root, "movies"));
    assert!(!e.should_show_directory_basic_filter(&root, "TV"));
    assert!(e.should_show_directory_basic_filter(&below, "TV"));
    assert!(!e.should_show_file(&root, "note.txt", None, true));
    assert!(e.should_show_file(&below, "note.txt", None, true));
}

#[test]
fn a_reload_replaces_the_lists_and_keeps_the_rest() {
    let mut c = settings();
    let mut e = engine(&c);
    c.filters.as_mut().unwrap().exclude_dirs = strings(&["Movies"]);
    c.read_only = Some(true);
    e.reload(&c);
    let p = PathName::new("/back");
    assert!(!e.should_show_directory_basic_filter(&p, "movies"));
    assert!(e.should_show_directory_basic_filter(&p, "incomplete"));
    assert!(!e.read_only_enabled());
    assert!(e.no_delete_enabled());
}

#[test]
fn media_files_are_told_by_extension() {
    let e = engine(&settings());
    assert!(e.is_media_file("A.MKV"));
    assert!(e.is_media_file(".iso"));
    assert!(!e.is_media_file("mkv"));
    assert!(!e.is_media_file("a.mkv.part"));
    let mut c = settings();
    c.filters.as_mut().unwrap().media_extensions = strings(&["XYZ"]);
    let e = engine(&c);
    assert!(e.is_media_file("a.xyz"));
    assert!(!e.is_media_file("a.mkv"));
}

#[test]
fn layers_and_indicators_decide_the_mode() {
    let e = engine(&settings());
    let p = PathName::new("/back/x");
    assert_eq!(e.get_sfv_mode(&p, Some(Layer::Verified)), SfvMode::Strict);
    assert_eq!(e.get_sfv_mode(&p, Some(Layer::Unverified)), SfvMode::Permissive);
    assert_eq!(e.get_sfv_mode(&PathName::new("/back/verified/x"), None), SfvMode::Strict);
    assert_eq!(e.get_sfv_mode(&PathName::new("/back/unverified/x"), None), SfvMode::Permissive);
    assert_eq!(e.get_sfv_mode(&p, None), SfvMode::Strict);
    let mut c = settings();
    c.sfv_validation = Some(sfv("permissive"));
    assert_eq!(engine(&c).get_sfv_mode(&p, None), SfvMode::Permissive);
    c.sfv_validation = None;
    assert_eq!(engine(&c).get_sfv_mode(&p, Some(Layer::Verified)), SfvMode::Permissive);
}

#[test]
fn the_unverified_layer_goes_first() {
    let mut c = settings();
    c.overlay_reference = Some(OverlayConfig {
        verified_share_path: PathName::new("/v"),
        unverified_share_path: PathName::new("/u"),
        merged_directory: None,
        use_for_filtering: Some(true),
    });
    c.unionfs_reference = Some(UnionfsConfig {
        verified_share_path: PathName::new("/uv"),
        unverified_share_path: PathName::new("/uu"),
        merged_directory: PathName::new("/um"),
        use_for_filtering: Some(true),
    });
    let e = engine(&c);
    let p = PathName::new("/back/Movies/a");
    let places: Vec<String> =
        e.source_layer_candidates(&p).iter().map(|x| x.0.as_str().to_string()).collect();
    assert_eq!(places, vec!["/u/Movies/a", "/v/Movies/a", "/uu/Movies/a", "/uv/Movies/a"]);
    let (q, l) = e.get_source_layer_path(&p, &vec![true, true, false, false]).unwrap();
    assert_eq!(q.as_str(), "/u/Movies/a");
    assert_eq!(l, Layer::Unverified);
    let (q, l) = e.get_source_layer_path(&p, &vec![false, true, true, false]).unwrap();
    assert_eq!(q.as_str(), "/v/Movies/a");
    assert_eq!(l, Layer::Verified);
    assert!(e.get_source_layer_path(&p, &vec![false; 4]).is_none());
    assert!(e.source_layer_candidates(&PathName::new("/other")).is_empty());
}

#[test]
fn strict_mode_requires_a_valid_sfv() {
    let e = engine(&settings());
    let p = PathName::new("/back/rel");
    let bare = release(None, vec![file("rel.r00")], None);
    assert_eq!(e.judge(&p, &bare), Some(HiddenReason::StrictWithoutSfv));
    let bad = release(None, vec![file("rel.sfv"), file("rel.r00")], Some("rel.r01 1\n"));
    assert_eq!(e.judge(&p, &bad), Some(HiddenReason::StrictInvalid));
    let good = release(None, vec![file("REL.SFV"), file("Rel.R00")], Some("rel.r00 1\n"));
    assert_eq!(e.judge(&p, &good), None);
    let unread = release(None, vec![file("rel.sfv")], None);
    assert_eq!(e.judge(&p, &unread), None);
}

#[test]
fn permissive_mode_shows_everything_unless_told_otherwise() {
    let mut c = settings();
    let p = PathName::new("/back/rel");
    let bad =
        release(Some(Layer::Unverified), vec![file("rel.sfv"), file("rel.r00")], Some("x.r01 1\n"));
    assert_eq!(engine(&c).judge(&p, &bad), None);
    c.sfv_validation.as_mut().unwrap().permissive_validates_sfv = Some(true);
    assert_eq!(engine(&c).judge(&p, &bad), Some(HiddenReason::PermissiveInvalid));
    let bare = release(Some(Layer::Unverified), vec![file("rel.r00")], None);
    assert_eq!(engine(&c).judge(&p, &bare), None);
}

#[test]
fn samples_in_subfolders_are_found() {
    let e = engine(&settings());
    let p = PathName::new("/back/rel");
    let r = release(
        None,
        vec![
            file("rel.sfv"),
            DirEntry::Dir(vec![FileEntry {
                name: "Rel-Sample.mkv".to_string(),
                age: FileAge::Unknown,
            }]),
        ],
        Some("Sample\\rel-sample.mkv 1\n"),
    );
    assert_eq!(e.judge(&p, &r), None);
}

#[test]
fn parents_and_unreadable_directories_are_shown() {
    let e = engine(&settings());
    let p = PathName::new("/back/rel");
    let mut d = release(None, vec![], None);
    d.backend_files = strings(&["readme.txt"]);
    assert_eq!(e.judge(&p, &d), None);
    d.backend_files = None;
    assert_eq!(e.judge(&p, &d), None);
    let mut d = release(None, vec![], None);
    d.source_entries = None;
    assert_eq!(e.judge(&p, &d), None);
}

#[test]
fn decisions_are_kept_until_they_expire() {
    let mut e = engine(&settings());
    let mut m = MetricsCollector::new(0);
    let p = PathName::new("/back/rel");
    let bare = release(None, vec![file("rel.r00")], None);
    let good = release(None, vec![file("rel.sfv"), file("rel.r00")], Some("rel.r00 1\n"));
    assert!(e.cached_directory_info(&p, 0).is_none());
    let d = e.get_directory_info(&p, 100 * SECOND, &bare, &mut m);
    assert!(!d.should_show);
    let d = e.get_directory_info(&PathName::new("/back//rel/"), 109 * SECOND, &good, &mut m);
    assert!(!d.should_show);
    assert_eq!(d.timestamp, 100 * SECOND);
    let d = e.get_directory_info(&p, 110 * SECOND, &good, &mut m);
    assert!(d.should_show);
    assert_eq!(m.cache_hits, 1);
    assert_eq!(m.cache_misses, 2);
    assert_eq!(m.sfv_validations_failed, 1);
    assert_eq!(m.sfv_validations_passed, 1);
    assert!(e.invalidate(&p));
    assert!(!e.invalidate(&p));
    assert!(e.cached_directory_info(&p, 110 * SECOND).is_none());
}

#[test]
fn a_change_forgets_the_directory_and_its_parent() {
    let mut e = engine(&settings());
    let mut m = MetricsCollector::new(0);
    let parent = PathName::new("/back/a");
    let child = PathName::new("/back/a/b");
    let other = PathName::new("/back/c");
    for p in [&parent, &child, &other] {
        e.get_directory_info(p, SECOND, &release(None, vec![], None), &mut m);
    }
    e.invalidate_change(&child);
    assert!(e.cached_directory_info(&child, SECOND).is_none());
    assert!(e.cached_directory_info(&parent, SECOND).is_none());
    assert!(e.cached_directory_info(&other, SECOND).is_some());
}

#[test]
fn listings_are_validated_unless_lazy() {
    let mut c = settings();
    let e = engine(&c);
    let p = PathName::new("/back");
    let names: Vec<String> = strings(&["Movies", "Incomplete", "TV"]).unwrap();
    assert!(e.needs_validation(&p, "Movies"));
    assert!(!e.needs_validation(&p, "Incomplete"));
    assert_eq!(
        e.should_show_directories_parallel(&p, &names, &vec![true, true, false]),
        vec![true, false, false]
    );
    c.sfv_validation.as_mut().unwrap().lazy_mode = Some(true);
    let lazy = engine(&c);
    assert!(!lazy.needs_validation(&p, "Movies"));
    assert_eq!(
        lazy.should_show_directories_parallel(&p, &names, &vec![false, false, false]),
        vec![true, false, true]
    );
}

#[test]
fn in_lazy_mode_files_depend_on_their_directory() {
    let mut c = settings();
    let p = PathName::new("/back/rel");
    assert!(engine(&c).should_show_file(&p, "a.mkv", None, false));
    c.sfv_validation.as_mut().unwrap().lazy_mode = Some(true);
    let e = engine(&c);
    assert!(e.file_needs_directory(&p, None));
    assert!(!e.should_show_file(&p, "a.mkv", None, false));
    assert!(e.should_show_file(&p, "a.mkv", None, true));
    assert!(e.should_show_file(&p, "a.mkv", Some(Layer::Unverified), false));
}

#[test]
fn failures_are_written_down_after_the_download() {
    let e = engine(&settings());
    let old = vec![FileAge::Seconds(60), FileAge::Unknown];
    assert_eq!(e.failure_log_file(&old).unwrap().as_str(), "/log/sfv.log");
    let young = vec![FileAge::Seconds(59)];
    assert!(e.is_download_in_progress(&young));
    assert!(e.failure_log_file(&young).is_none());
    let mut c = settings();
    c.sfv_validation.as_mut().unwrap().log_failures = Some(false);
    assert!(engine(&c).failure_log_file(&old).is_none());
    assert_eq!(
        failure_line("T", &PathName::new("/back/rel"), HiddenReason::StrictWithoutSfv, false),
        "[T] HIDDEN: /back/rel (reason: strict mode, no SFV file, hasMedia: true, hasSFV: false)\n"
    );
    assert_eq!(HiddenReason::PermissiveInvalid.text(), "permissive mode, SFV validation failed");
    assert_eq!(HiddenReason::StrictInvalid.text(), "strict mode, SFV validation failed");
}

#[test]
fn the_last_sfv_file_of_a_directory_counts() {
    assert_eq!(
        find_sfv_name(&vec![file("a.sfv"), file("b.SFV"), file("c.nfo")]),
        Some("b.SFV".to_string())
    );
    assert_eq!(find_sfv_name(&vec![file("a.nfo")]), None);
}
