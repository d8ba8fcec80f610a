use rargate::config::Config;
use rargate::config::CoreDumpConfig;
use rargate::config::CrashRecoveryConfig;
use rargate::config::FuseOptions;
use rargate::config::LogConfig;
use rargate::config::NotificationConfig;
use rargate::config::OverlayConfig;
use rargate::config::Rar2fsConfig;
use rargate::path::PathName;
use rargate::startup::debug_enabled;
use rargate::startup::diagnostics;
use rargate::startup::max_log_size_mb;
use rargate::startup::monitor_wanted;
use rargate::startup::mount_options;
use rargate::startup::permits;
use rargate::startup::user_allow_other_set;
use rargate::startup::validate_dependencies;
use rargate::startup::watcher_wanted;
use rargate::startup::DependencyFault;
use rargate::startup::DependencyProbe;
use rargate::startup::MountOption;
use rargate::utils::log_filter;
use rargate::utils::log_target;
use rargate::utils::monitor_conf_text;
use rargate::utils::needs_truncation;
use rargate::utils::paths_conf_file;
use rargate::utils::paths_conf_text;
use rargate::utils::register_capped_file;
use rargate::utils::truncated_content;
use rargate::utils::CappedFile;

fn plain() -> Config {
    Config {
        source: PathName::new("/src"),
        mountpoint: PathName::new("/mnt"),
        verbose: None,
        daemon: false,
        read_only: None,
        no_delete: None,
        rar2fs: Rar2fsConfig {
            binary_path: None,
            backend_mount: None,
            seek_length: None,
            extra_options: None,
            max_concurrent_reads: None,
        },
        sfv_validation: None,
        filters: None,
        overlay_reference: None,
        unionfs_reference: None,
        notifications: None,
        crash_recovery: None,
        watcher: None,
        emby: None,
        jellyfin: None,
        plex: None,
        arr: None,
        fuse_options: None,
        logging: None,
        metrics: None,
        core_dumps: None,
    }
}

fn logging() -> LogConfig {
    LogConfig {
        log_file: None,
        max_size_mb: None,
        rar2fs_diagnostics_enabled: None,
        rar2fs_log_enabled: None,
        rar2fs_resources_enabled: None,
        rar2fs_log_file: None,
        rar2fs_log_max_size_mb: None,
        rar2fs_resources_log_file: None,
        rar2fs_resources_log_max_size_mb: None,
        rar2fs_resource_interval_seconds: None,
    }
}

fn fuse() -> FuseOptions {
    FuseOptions {
        fsname: None,
        auto_unmount: None,
        allow_other: None,
        allow_root: None,
        default_permissions: None,
        ro: None,
        nonempty: None,
        attr_timeout: None,
        entry_timeout: None,
        permissions: None,
        custom_options: None,
    }
}

#[test]
fn files_are_capped_once_and_zero_means_no_cap() {
    let mut files: Vec<CappedFile> = Vec::new();
    register_capped_file(&mut files, PathName::new("/log/a"), 0);
    assert!(files.is_empty());
    register_capped_file(&mut files, PathName::new("/log/a"), 2);
    register_capped_file(&mut files, PathName::new("/log//a"), 9);
    register_capped_file(&mut files, PathName::new("/log/b"), 1);
    assert_eq!(files.len(), 2);
    assert_eq!(files[0].max_bytes, 2 * 1024 * 1024);
    assert_eq!(files[1].path.as_str(), "/log/b");
}

#[test]
fn the_newest_lines_of_a_log_stay() {
    assert!(!needs_truncation(100, 100));
    assert!(needs_truncation(101, 100));
    let content = "aaaa\nbbbb\ncccc\ndddd\n";
    assert_eq!(truncated_content(content, 15), Some("cccc\ndddd\n".to_string()));
    assert_eq!(truncated_content(content, 1000), Some(content.to_string()));
    assert_eq!(truncated_content(content, 0), Some(String::new()));
    assert_eq!(truncated_content("", 10), None);
    assert_eq!(truncated_content("a\nbbbbbbbbbb", 10), Some(String::new()));
    assert_eq!(truncated_content("bbbbbbbbbb\na\ncc", 10), Some("a\ncc\n".to_string()));
    assert_eq!(truncated_content("x\n\u{e4}\u{e4}\u{e4}\n", 10), Some("\u{e4}\u{e4}\u{e4}\n".to_string()));
    assert_eq!(truncated_content("one\r\ntwo", 10), Some("one\ntwo\n".to_string()));
}

#[test]
fn where_logs_go() {
    let t = log_target(None);
    assert_eq!(t.path.as_str(), "/var/log/rargate.log");
    assert_eq!(t.directory.as_str(), "/var/log");
    assert_eq!(t.file_name, "rargate.log");
    let own = log_target(Some(PathName::new("/data/own.log")));
    assert_eq!(own.directory.as_str(), "/data");
    assert_eq!(own.file_name, "own.log");
    let odd = log_target(Some(PathName::new("/")));
    assert_eq!(odd.directory.as_str(), "/var/log");
    assert_eq!(odd.file_name, "rargate.log");
    assert_eq!(log_filter(true), "rargate=debug");
    assert_eq!(log_filter(false), "rargate=info");
}

#[test]
fn the_monitor_settings() {
    assert_eq!(
        monitor_conf_text(&plain()),
        "# Generated by rargate at startup — DO NOT EDIT.\n# Source of truth is /etc/rargate/config.yaml.\nENABLE_AUTO_RESTART=1\nRESTART_AFTER_FAILURES=3\nMAX_RESTART_ATTEMPTS=5\nRESET_AFTER_MINUTES=30\nMAX_NOTIFICATIONS=3\n"
    );
    let mut c = plain();
    c.crash_recovery = Some(CrashRecoveryConfig {
        enabled: Some(false),
        restart_after_failures: Some(1),
        max_restart_attempts: None,
        reset_after_minutes: Some(60),
    });
    c.notifications = Some(NotificationConfig {
        enabled: true,
        check_interval: None,
        max_consecutive_errors: Some(9),
    });
    assert_eq!(
        monitor_conf_text(&c),
        "# Generated by rargate at startup — DO NOT EDIT.\n# Source of truth is /etc/rargate/config.yaml.\nENABLE_AUTO_RESTART=0\nRESTART_AFTER_FAILURES=1\nMAX_RESTART_ATTEMPTS=5\nRESET_AFTER_MINUTES=60\nMAX_NOTIFICATIONS=9\n"
    );
}

#[test]
fn the_paths_for_scripts() {
    let mut c = plain();
    c.rar2fs.backend_mount = Some(PathName::new("/back"));
    c.overlay_reference = Some(OverlayConfig {
        verified_share_path: PathName::new("/v"),
        unverified_share_path: PathName::new("/u"),
        merged_directory: Some(PathName::new("/m")),
        use_for_filtering: None,
    });
    let mut l = logging();
    l.log_file = Some(PathName::new("/l.log"));
    c.logging = Some(l);
    c.core_dumps = Some(CoreDumpConfig { directory: None, keep: Some(7) });
    assert_eq!(
        paths_conf_text(&c),
        "# Generated by rargate at startup — DO NOT EDIT.\n# Source of truth is /etc/rargate/config.yaml.\n# Sourced by userscripts-startup.sh, userscripts-shutdown.sh, rargate-monitor.sh.\nRARGATE_MOUNT=/mnt\nSOURCE=/src\nBACKEND_MOUNT=/back\nRARGATE_LOG_FILE=/l.log\nSFV_LOG_FILE=\nOVERLAY_LOWER=/u\nOVERLAY_UPPER=/v\nOVERLAY_MERGED=/m\nCORE_DUMP_DIR=/mnt/cache/rargate/cores\nCORE_DUMP_KEEP=7\n"
    );
    assert!(paths_conf_text(&plain()).ends_with(
        "OVERLAY_LOWER=\nOVERLAY_UPPER=\nOVERLAY_MERGED=\nCORE_DUMP_DIR=/mnt/cache/rargate/cores\nCORE_DUMP_KEEP=5\n"
    ));
}

#[test]
fn each_instance_has_its_own_paths_file() {
    let f = |p: &str| paths_conf_file(&PathName::new(p)).as_str().to_string();
    assert_eq!(f("/etc/rargate/config.yaml"), "/var/run/rargate-paths.conf");
    assert_eq!(f("/etc/rargate/second.yaml"), "/var/run/rargate-paths-second.conf");
    assert_eq!(f("/etc/rargate/.hidden"), "/var/run/rargate-paths-.hidden.conf");
    assert_eq!(f("/etc/rargate/a.b.yaml"), "/var/run/rargate-paths-a.b.conf");
    assert_eq!(f("/"), "/var/run/rargate-paths.conf");
}

fn probe() -> DependencyProbe {
    DependencyProbe {
        binary_exists: true,
        fuse_exists: true,
        root: false,
        fuse_conf: Some("# user_allow_other\nmount_max = 10\n".to_string()),
        executable: true,
    }
}

#[test]
fn what_is_needed_has_to_be_there() {
    let c = plain();
    assert_eq!(validate_dependencies(&c, &probe()), (true, Ok(())));
    let mut p = probe();
    p.root = true;
    assert_eq!(validate_dependencies(&c, &p), (false, Ok(())));
    let mut p = probe();
    p.fuse_conf = None;
    assert_eq!(validate_dependencies(&c, &p), (false, Ok(())));
    let mut p = probe();
    p.executable = false;
    assert_eq!(validate_dependencies(&c, &p), (true, Err(DependencyFault::NotExecutable)));
    p.root = true;
    assert_eq!(validate_dependencies(&c, &p), (false, Err(DependencyFault::NotExecutable)));
    p.root = false;
    p.fuse_exists = false;
    assert_eq!(validate_dependencies(&c, &p), (false, Err(DependencyFault::NoFuse)));
    p.binary_exists = false;
    assert_eq!(validate_dependencies(&c, &p), (false, Err(DependencyFault::NoBinary)));
    assert_eq!(DependencyFault::NoBinary.text(), "rar2fs not installed");
    assert_eq!(DependencyFault::NoFuse.text(), "FUSE module not loaded");
    assert_eq!(DependencyFault::NotExecutable.text(), "rar2fs not executable");
    let mut own = plain();
    let mut f = fuse();
    f.allow_other = Some(false);
    own.fuse_options = Some(f);
    assert_eq!(validate_dependencies(&own, &probe()), (false, Ok(())));
}

#[test]
fn the_setting_that_lets_users_mount_for_others() {
    assert!(user_allow_other_set("  user_allow_other  \n"));
    assert!(user_allow_other_set("x\nuser_allow_other # yes\n"));
    assert!(!user_allow_other_set("#user_allow_other\nuser_allow_others\n"));
    assert!(!user_allow_other_set(""));
}

#[test]
fn diagnostics_have_a_master_switch() {
    let d = diagnostics(&plain());
    assert!(d.log_enabled && d.resources_enabled);
    assert_eq!(d.log_path.as_str(), "/mnt/cache/rargate/rar2fs.log");
    assert_eq!(d.log_max_mb, 50);
    assert_eq!(d.resources_path.as_str(), "/mnt/cache/rargate/rar2fs-resources.log");
    assert_eq!(d.resources_max_mb, 20);
    assert_eq!(d.resource_interval, 300);
    let mut c = plain();
    let mut l = logging();
    l.rar2fs_diagnostics_enabled = Some(false);
    l.rar2fs_log_enabled = Some(true);
    l.rar2fs_log_file = Some(PathName::new("/x.log"));
    c.logging = Some(l);
    let d = diagnostics(&c);
    assert!(!d.log_enabled && !d.resources_enabled);
    assert_eq!(d.log_path.as_str(), "/x.log");
    let mut l = logging();
    l.rar2fs_resources_enabled = Some(false);
    c.logging = Some(l);
    let d = diagnostics(&c);
    assert!(d.log_enabled && !d.resources_enabled);
}

#[test]
fn switches_of_the_start() {
    let mut c = plain();
    assert!(!debug_enabled(false, &c));
    assert!(debug_enabled(true, &c));
    c.verbose = Some(true);
    assert!(debug_enabled(false, &c));
    assert_eq!(max_log_size_mb(&c), 500);
    assert_eq!(permits(&c), 4);
    assert!(!monitor_wanted(&c));
    assert!(!watcher_wanted(&c));
    c.notifications = Some(NotificationConfig {
        enabled: true,
        check_interval: None,
        max_consecutive_errors: None,
    });
    c.overlay_reference = Some(OverlayConfig {
        verified_share_path: PathName::new("/v"),
        unverified_share_path: PathName::new("/u"),
        merged_directory: None,
        use_for_filtering: Some(true),
    });
    assert!(monitor_wanted(&c));
    assert!(watcher_wanted(&c));
}

#[test]
fn mount_options_come_from_the_configuration_alone() {
    assert!(mount_options(&None).is_empty());
    let o = mount_options(&Some(fuse()));
    assert_eq!(o.len(), 1);
    assert!(matches!(o[0], MountOption::ReadWrite));
    let mut f = fuse();
    f.fsname = Some("rargate".to_string());
    f.auto_unmount = Some(true);
    f.allow_other = Some(true);
    f.allow_root = Some(false);
    f.default_permissions = Some(true);
    f.ro = Some(true);
    f.nonempty = Some(true);
    f.custom_options = Some(vec!["big_writes".to_string()]);
    let names: Vec<String> = mount_options(&Some(f)).iter().map(|o| format!("{:?}", o)).collect();
    assert_eq!(
        names,
        vec![
            "FsName(\"rargate\")",
            "AutoUnmount",
            "AllowOther",
            "DefaultPermissions",
            "ReadOnly",
            "Custom(\"nonempty\")",
            "Custom(\"big_writes\")",
        ]
    );
}
