use rargate::config::parse_permissions;
use rargate::config::validate_http_url;
use rargate::config::Config;
use rargate::config::ConfigFault;
use rargate::config::ConfigProbe;
use rargate::config::EmbyConfig;
use rargate::config::FiltersConfig;
use rargate::config::FuseOptions;
use rargate::config::JellyfinConfig;
use rargate::config::Notice;
use rargate::config::NotificationConfig;
use rargate::config::OverlayConfig;
use rargate::config::PermissionFault;
use rargate::config::PlexConfig;
use rargate::config::Rar2fsConfig;
use rargate::config::RarArchiveConfig;
use rargate::config::SfvConfig;
use rargate::config::TimeoutSetting;
use rargate::config::UnionfsConfig;
use rargate::path::PathName;

fn plain() -> Config {
    Config {
        source: PathName::new("/src"),
        mountpoint: PathName::new("/mnt"),
        verbose: None,
        daemon: false,
        read_only: None,
        no_delete: None,
        rar2fs: Rar2fsConfig {
            binary_path: None,
            backend_mount: None,
            seek_length: None,
            extra_options: None,
            max_concurrent_reads: None,
        },
        sfv_validation: None,
        filters: None,
        overlay_reference: None,
        unionfs_reference: None,
        notifications: None,
        crash_recovery: None,
        watcher: None,
        emby: None,
        jellyfin: None,
        plex: None,
        arr: None,
        fuse_options: None,
        logging: None,
        metrics: None,
        core_dumps: None,
    }
}

fn good() -> ConfigProbe {
    ConfigProbe {
        source_exists: true,
        mountpoint_exists: true,
        source_real: Some(PathName::new("/mnt/source")),
        mountpoint_real: Some(PathName::new("/mnt/view")),
        mounted: Some(false),
        overlay_verified_exists: true,
        overlay_unverified_exists: true,
        unionfs_verified_exists: true,
        unionfs_unverified_exists: true,
        unionfs_merged_exists: true,
        backend_exists: true,
    }
}

fn fuse() -> FuseOptions {
    FuseOptions {
        fsname: None,
        auto_unmount: None,
        allow_other: None,
        allow_root: None,
        default_permissions: None,
        ro: None,
        nonempty: None,
        attr_timeout: None,
        entry_timeout: None,
        permissions: None,
        custom_options: None,
    }
}

fn timeout(text: &str, negative: bool, over_a_day: bool) -> Option<TimeoutSetting> {
    Some(TimeoutSetting { text: text.to_string(), negative, over_a_day })
}

fn sfv(mode: &str, verified: &[&str], unverified: &[&str]) -> SfvConfig {
    SfvConfig {
        enabled: true,
        verified_share_indicators: verified.iter().map(|s| s.to_string()).collect(),
        unverified_share_indicators: unverified.iter().map(|s| s.to_string()).collect(),
        default_mode: mode.to_string(),
        log_failures: None,
        log_file: None,
        lazy_mode: None,
        validation_backoff: None,
        download_threshold_seconds: None,
        permissive_validates_sfv: None,
    }
}

fn emby(url: &str, token: &str) -> EmbyConfig {
    EmbyConfig {
        enabled: true,
        url: url.to_string(),
        api_token: token.to_string(),
        debounce_seconds: None,
        cache_minutes: None,
        fallback_full_refresh: None,
        max_retries: None,
        retry_delay_ms: None,
        full_refresh_cooldown_seconds: None,
        path_mapping: None,
    }
}

fn jellyfin(url: &str, token: &str) -> JellyfinConfig {
    JellyfinConfig {
        enabled: true,
        url: url.to_string(),
        api_token: token.to_string(),
        debounce_seconds: None,
        cache_minutes: None,
        fallback_full_refresh: None,
        max_retries: None,
        retry_delay_ms: None,
        full_refresh_cooldown_seconds: None,
        path_mapping: None,
    }
}

fn plex(url: &str, token: &str) -> PlexConfig {
    PlexConfig {
        enabled: true,
        url: url.to_string(),
        token: token.to_string(),
        debounce_seconds: None,
        cache_minutes: None,
        fallback_full_refresh: None,
        max_retries: None,
        retry_delay_ms: None,
        full_refresh_cooldown_seconds: None,
        path_mapping: None,
    }
}

fn check(c: &Config, p: &ConfigProbe) -> (Result<(), ConfigFault>, Vec<Notice>) {
    let mut notices = Vec::new();
    let r = c.validate(p, &mut notices);
    (r, notices)
}

#[test]
fn a_plain_configuration_is_fine() {
    assert_eq!(check(&plain(), &good()), (Ok(()), vec![]));
}

#[test]
fn faults_of_paths_come_first() {
    let c = plain();
    let mut p = good();
    p.mounted = Some(true);
    assert_eq!(check(&c, &p).0, Err(ConfigFault::AlreadyMounted));
    p.mounted = None;
    assert_eq!(check(&c, &p).0, Err(ConfigFault::MountCheckFailed));
    p.source_real = None;
    assert_eq!(check(&c, &p).0, Err(ConfigFault::MountCheckFailed));
    p.mountpoint_real = None;
    assert_eq!(check(&c, &p).0, Err(ConfigFault::SameDirectory));
    p.source_real = Some(PathName::new("/mnt/view"));
    assert_eq!(check(&c, &p).0, Err(ConfigFault::MountCheckFailed));
    p.mountpoint_real = Some(PathName::new("/mnt//view/"));
    assert_eq!(check(&c, &p).0, Err(ConfigFault::SameDirectory));
    p.mountpoint_exists = false;
    assert_eq!(check(&c, &p).0, Err(ConfigFault::MountpointMissing));
    p.source_exists = false;
    assert_eq!(check(&c, &p).0, Err(ConfigFault::SourceMissing));
}

#[test]
fn sfv_modes_and_indicators() {
    let mut c = plain();
    c.sfv_validation = Some(sfv("loose", &[], &[]));
    assert_eq!(check(&c, &good()).0, Err(ConfigFault::InvalidDefaultMode));
    c.sfv_validation = Some(sfv("strict", &[], &[]));
    assert_eq!(check(&c, &good()), (Ok(()), vec![Notice::NoShareIndicators]));
    c.sfv_validation = Some(sfv("permissive", &["/a", "/b"], &["/c", "/b/x"]));
    assert_eq!(
        check(&c, &good()),
        (Ok(()), vec![Notice::IndicatorOverlap { verified: 1, unverified: 1 }])
    );
    let mut off = sfv("whatever", &[], &[]);
    off.enabled = false;
    off.lazy_mode = Some(true);
    c.sfv_validation = Some(off);
    assert_eq!(check(&c, &good()), (Ok(()), vec![Notice::LazyModeWithoutSfv]));
}

#[test]
fn missing_layers_are_warned_about() {
    let mut c = plain();
    c.overlay_reference = Some(OverlayConfig {
        verified_share_path: PathName::new("/v"),
        unverified_share_path: PathName::new("/u"),
        merged_directory: None,
        use_for_filtering: Some(true),
    });
    c.unionfs_reference = Some(UnionfsConfig {
        verified_share_path: PathName::new("/v"),
        unverified_share_path: PathName::new("/u"),
        merged_directory: PathName::new("/m"),
        use_for_filtering: Some(true),
    });
    let mut p = good();
    p.overlay_verified_exists = false;
    p.overlay_unverified_exists = false;
    p.unionfs_verified_exists = false;
    p.unionfs_unverified_exists = false;
    p.unionfs_merged_exists = false;
    assert_eq!(
        check(&c, &p),
        (
            Ok(()),
            vec![
                Notice::OverlayVerifiedMissing,
                Notice::OverlayUnverifiedMissing,
                Notice::UnionfsVerifiedMissing,
                Notice::UnionfsUnverifiedMissing,
                Notice::UnionfsMergedMissing,
            ]
        )
    );
}

#[test]
fn faults_of_the_backend() {
    let mut c = plain();
    c.rar2fs.seek_length = Some(5);
    c.rar2fs.backend_mount = Some(PathName::new("/b"));
    let mut p = good();
    p.backend_exists = false;
    assert_eq!(
        check(&c, &p),
        (Err(ConfigFault::BackendMissing), vec![Notice::UnusualSeekLength(5)])
    );
    c.rar2fs.seek_length = Some(1);
    c.rar2fs.max_concurrent_reads = Some(0);
    assert_eq!(check(&c, &good()), (Err(ConfigFault::NoConcurrentReads), vec![]));
}

#[test]
fn timeouts_have_bounds() {
    let mut c = plain();
    let mut f = fuse();
    f.attr_timeout = timeout("-1", true, false);
    c.fuse_options = Some(f.clone());
    assert_eq!(check(&c, &good()).0, Err(ConfigFault::NegativeAttrTimeout));
    f.attr_timeout = timeout("90000", false, true);
    f.entry_timeout = timeout("-0.5", true, false);
    c.fuse_options = Some(f.clone());
    assert_eq!(
        check(&c, &good()),
        (Err(ConfigFault::NegativeEntryTimeout), vec![Notice::LongAttrTimeout])
    );
    f.attr_timeout = timeout("1", false, false);
    f.entry_timeout = timeout("1e9", false, true);
    c.fuse_options = Some(f);
    assert_eq!(check(&c, &good()), (Ok(()), vec![Notice::LongEntryTimeout]));
}

#[test]
fn settings_without_effect_and_odd_values() {
    let mut c = plain();
    c.filters = Some(FiltersConfig {
        exclude_dirs: None,
        include_dirs: None,
        exclude_files: None,
        media_extensions: None,
        rar_archives: Some(RarArchiveConfig {
            enabled: false,
            hide_archives: Some(true),
            cache_timeout: None,
        }),
    });
    c.notifications = Some(NotificationConfig {
        enabled: true,
        check_interval: Some(29),
        max_consecutive_errors: None,
    });
    let mut f = fuse();
    f.permissions = Some(0o777);
    c.fuse_options = Some(f);
    assert_eq!(
        check(&c, &good()),
        (
            Ok(()),
            vec![
                Notice::HideArchivesWithoutRar,
                Notice::ShortCheckInterval(29),
                Notice::WorldWritable(0o777),
            ]
        )
    );
}

#[test]
fn faults_of_media_servers() {
    let mut c = plain();
    c.emby = Some(emby("", "t"));
    assert_eq!(check(&c, &good()).0, Err(ConfigFault::EmbyUrlEmpty));
    c.emby = Some(emby("http://h", ""));
    assert_eq!(check(&c, &good()).0, Err(ConfigFault::EmbyTokenEmpty));
    c.emby = Some(emby("h:1", "t"));
    assert_eq!(check(&c, &good()).0, Err(ConfigFault::EmbyUrlInvalid));
    let mut quick = emby("http://h", "t");
    quick.debounce_seconds = Some(0);
    c.emby = Some(quick);
    assert_eq!(
        check(&c, &good()),
        (Ok(()), vec![Notice::ShortEmbyDebounce(0), Notice::NoEmbyPathMapping])
    );
    c.emby = None;
    c.jellyfin = Some(jellyfin("", "t"));
    assert_eq!(check(&c, &good()).0, Err(ConfigFault::JellyfinUrlEmpty));
    c.jellyfin = Some(jellyfin("http://h", ""));
    assert_eq!(check(&c, &good()).0, Err(ConfigFault::JellyfinTokenEmpty));
    c.jellyfin = Some(jellyfin("ftp://h", "t"));
    assert_eq!(check(&c, &good()).0, Err(ConfigFault::JellyfinUrlInvalid));
    c.jellyfin = None;
    c.plex = Some(plex("", "t"));
    assert_eq!(check(&c, &good()).0, Err(ConfigFault::PlexUrlEmpty));
    c.plex = Some(plex("http://h", ""));
    assert_eq!(check(&c, &good()).0, Err(ConfigFault::PlexTokenEmpty));
    c.plex = Some(plex("http://", "t"));
    assert_eq!(check(&c, &good()).0, Err(ConfigFault::PlexUrlInvalid));
}

#[test]
fn servers_that_are_off_are_not_checked() {
    let mut c = plain();
    let mut e = emby("", "");
    e.enabled = false;
    c.emby = Some(e);
    assert_eq!(check(&c, &good()), (Ok(()), vec![]));
}

#[test]
fn addresses_of_servers() {
    assert_eq!(validate_http_url("http://emby:8096"), Ok(()));
    assert_eq!(validate_http_url("https://h/path:x"), Ok(()));
    assert_eq!(validate_http_url("emby:8096"), Err("must start with http:// or https://"));
    assert_eq!(validate_http_url("https://"), Err("missing host after scheme"));
    assert_eq!(validate_http_url("http:///x"), Err("missing host (path-only URL)"));
    assert_eq!(validate_http_url("http://:80"), Err("empty host before port"));
    assert_eq!(validate_http_url("http://h:"), Err("port must be a number 0–65535"));
    assert_eq!(validate_http_url("http://h:65536"), Err("port must be a number 0–65535"));
    assert_eq!(validate_http_url("http://h:65535/x"), Ok(()));
}

#[test]
fn permissions_are_octal() {
    assert_eq!(parse_permissions("0o777"), Ok(0o777));
    assert_eq!(parse_permissions("0755"), Ok(0o755));
    assert_eq!(parse_permissions("755"), Ok(0o755));
    assert_eq!(parse_permissions("0o888"), Err(PermissionFault::InvalidOctal));
    assert_eq!(parse_permissions("9"), Err(PermissionFault::InvalidOctal));
    assert_eq!(parse_permissions("777777"), Err(PermissionFault::InvalidOctal));
    assert_eq!(parse_permissions(""), Err(PermissionFault::InvalidOctal));
    assert_eq!(parse_permissions("rwx"), Err(PermissionFault::InvalidFormat));
}
