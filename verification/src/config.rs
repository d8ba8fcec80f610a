//! The configuration tree and the rules that a configuration has to keep.

use crate::path;
use crate::path::PathName;
use crate::text;
use vstd::prelude::*;
use vstd::string::*;

verus! {

broadcast use vstd::string::group_string_axioms;

#[derive(Debug, Clone)]
pub struct Config {
    pub source: PathName,
    pub mountpoint: PathName,
    pub verbose: Option<bool>,
    pub daemon: bool,
    pub read_only: Option<bool>,
    pub no_delete: Option<bool>,
    pub rar2fs: Rar2fsConfig,
    pub sfv_validation: Option<SfvConfig>,
    pub filters: Option<FiltersConfig>,
    pub overlay_reference: Option<OverlayConfig>,
    pub unionfs_reference: Option<UnionfsConfig>,
    pub notifications: Option<NotificationConfig>,
    pub crash_recovery: Option<CrashRecoveryConfig>,
    pub watcher: Option<WatcherConfig>,
    pub emby: Option<EmbyConfig>,
    pub jellyfin: Option<JellyfinConfig>,
    pub plex: Option<PlexConfig>,
    pub arr: Option<ArrConfig>,
    pub fuse_options: Option<FuseOptions>,
    pub logging: Option<LogConfig>,
    pub metrics: Option<MetricsConfig>,
    pub core_dumps: Option<CoreDumpConfig>,
}

#[derive(Debug, Clone)]
pub struct Rar2fsConfig {
    pub binary_path: Option<String>,
    pub backend_mount: Option<PathName>,
    pub seek_length: Option<i32>,
    pub extra_options: Option<String>,
    /// Maximum concurrent reads from the rar2fs backend. Default: 4. rar2fs is
    /// single-threaded and can be overwhelmed by concurrent access.
    pub max_concurrent_reads: Option<usize>,
}

#[derive(Debug, Clone)]
pub struct SfvConfig {
    pub enabled: bool,
    pub verified_share_indicators: Vec<String>,
    pub unverified_share_indicators: Vec<String>,
    pub default_mode: String,
    pub log_failures: Option<bool>,
    pub log_file: Option<PathName>,
    /// Show all directories while listing and validate only on access.
    pub lazy_mode: Option<bool>,
    pub validation_backoff: Option<ValidationBackoffConfig>,
    /// Files modified within this many seconds count as still downloading. Default: 60
    pub download_threshold_seconds: Option<u64>,
    /// Validate permissive directories that hold an SFV file. Default: false
    pub permissive_validates_sfv: Option<bool>,
}

/// Backoff for failed SFV validations.
#[derive(Debug, Clone, Copy)]
pub struct ValidationBackoffConfig {
    /// Consecutive failures before the cooldown starts. Default: 3
    pub max_failures: Option<u32>,
    /// Cooldown in seconds. Default: 300
    pub cooldown_seconds: Option<u64>,
    /// Failures after which a release is escalated. Default: 25
    pub escalate_after: Option<u32>,
    /// The same for a release that had already been announced. Default: 3
    pub regression_escalate_after: Option<u32>,
}

#[derive(Debug, Clone)]
pub struct FiltersConfig {
    pub exclude_dirs: Option<Vec<String>>,
    /// Top-level directory names to expose at the mount root; everything else there is
    /// hidden. Default: no restriction
    pub include_dirs: Option<Vec<String>>,
    pub exclude_files: Option<Vec<String>>,
    /// Media file extensions, without dots.
    pub media_extensions: Option<Vec<String>>,
    pub rar_archives: Option<RarArchiveConfig>,
}

#[derive(Debug, Clone, Copy)]
pub struct RarArchiveConfig {
    pub enabled: bool,
    pub hide_archives: Option<bool>,
    pub cache_timeout: Option<u64>,
}

#[derive(Debug, Clone)]
pub struct OverlayConfig {
    pub verified_share_path: PathName,
    pub unverified_share_path: PathName,
    /// Where the overlay is mounted; its cache is refreshed when files are written to the
    /// verified layer.
    pub merged_directory: Option<PathName>,
    pub use_for_filtering: Option<bool>,
}

#[derive(Debug, Clone)]
pub struct UnionfsConfig {
    pub verified_share_path: PathName,
    pub unverified_share_path: PathName,
    pub merged_directory: PathName,
    pub use_for_filtering: Option<bool>,
}

#[derive(Debug, Clone, Copy)]
pub struct NotificationConfig {
    pub enabled: bool,
    pub check_interval: Option<u64>,
    pub max_consecutive_errors: Option<u32>,
}

/// Auto-recovery settings, handed on to the monitor script.
#[derive(Debug, Clone, Copy)]
pub struct CrashRecoveryConfig {
    pub enabled: Option<bool>,
    pub restart_after_failures: Option<u32>,
    pub max_restart_attempts: Option<u32>,
    pub reset_after_minutes: Option<u32>,
}

/// Timing of the file watcher.
#[derive(Debug, Clone, Copy)]
pub struct WatcherConfig {
    /// Seconds to wait after the last file event before validation. Default: 30
    pub sfv_debounce_seconds: Option<u64>,
    /// Minutes to keep announced directories. Default: 5
    pub pending_cleanup_minutes: Option<u64>,
    /// Seconds after which new events validate an announced directory again. Default: 30
    pub revalidation_threshold_seconds: Option<u64>,
}

#[derive(Debug, Clone)]
pub struct EmbyConfig {
    pub enabled: bool,
    pub url: String,
    pub api_token: String,
    /// Default: 5
    pub debounce_seconds: Option<u64>,
    /// Default: 15
    pub cache_minutes: Option<u64>,
    /// Refresh the whole library where no item matches. Default: false
    pub fallback_full_refresh: Option<bool>,
    /// Default: 3
    pub max_retries: Option<u32>,
    /// First delay between attempts; doubles each time. Default: 1000
    pub retry_delay_ms: Option<u64>,
    /// Minimum seconds between full library scans. Default: 600
    pub full_refresh_cooldown_seconds: Option<u64>,
    pub path_mapping: Option<PathMappingConfig>,
}

/// Translation of host paths to the paths that a media server sees.
#[derive(Debug, Clone)]
pub struct PathMappingConfig {
    pub host_path: Option<PathName>,
    /// Several host paths that map to the same container path.
    pub host_paths: Option<Vec<PathName>>,
    /// The container path, for Emby, Jellyfin and Plex alike.
    pub emby_path: PathName,
}

#[derive(Debug, Clone)]
pub struct JellyfinConfig {
    pub enabled: bool,
    pub url: String,
    pub api_token: String,
    /// Default: 5
    pub debounce_seconds: Option<u64>,
    /// Default: 15
    pub cache_minutes: Option<u64>,
    /// Default: false
    pub fallback_full_refresh: Option<bool>,
    /// Default: 3
    pub max_retries: Option<u32>,
    /// Default: 1000
    pub retry_delay_ms: Option<u64>,
    /// Default: 600
    pub full_refresh_cooldown_seconds: Option<u64>,
    pub path_mapping: Option<PathMappingConfig>,
}

#[derive(Debug, Clone)]
pub struct PlexConfig {
    pub enabled: bool,
    pub url: String,
    pub token: String,
    /// Default: 5
    pub debounce_seconds: Option<u64>,
    /// Default: 15
    pub cache_minutes: Option<u64>,
    /// Default: false
    pub fallback_full_refresh: Option<bool>,
    /// Default: 3
    pub max_retries: Option<u32>,
    /// Default: 1000
    pub retry_delay_ms: Option<u64>,
    /// Default: 600
    pub full_refresh_cooldown_seconds: Option<u64>,
    pub path_mapping: Option<PathMappingConfig>,
}

/// Rescans in Sonarr and Radarr when a release becomes visible.
#[derive(Debug, Clone)]
pub struct ArrConfig {
    pub enabled: bool,
    pub sonarr: Option<ArrInstanceConfig>,
    pub radarr: Option<ArrInstanceConfig>,
    /// Default: 5
    pub debounce_seconds: Option<u64>,
    /// Default: 5
    pub cache_minutes: Option<u64>,
    /// Default: 3
    pub max_retries: Option<u32>,
    /// Default: 1000
    pub retry_delay_ms: Option<u64>,
}

/// One Sonarr or Radarr instance.
#[derive(Debug, Clone)]
pub struct ArrInstanceConfig {
    pub url: String,
    pub api_key: String,
    /// Import by movie id where a rescan leaves a matched movie without a file. Radarr only.
    /// Default: true
    pub force_import: Option<bool>,
    pub path_mapping: Option<PathMappingConfig>,
}

#[derive(Debug, Clone)]
pub struct MetricsConfig {
    pub enabled: bool,
    /// Default: /mnt/cache/rargate/rargate-status.json
    pub status_file: Option<PathName>,
    /// Default: 60
    pub update_interval_seconds: Option<u64>,
}

#[derive(Debug, Clone)]
pub struct LogConfig {
    /// Default: /var/log/rargate.log
    pub log_file: Option<PathName>,
    /// Default: 500
    pub max_size_mb: Option<u64>,
    /// Master switch for the rar2fs diagnostics. Default: true
    pub rar2fs_diagnostics_enabled: Option<bool>,
    /// Default: true
    pub rar2fs_log_enabled: Option<bool>,
    /// Default: true
    pub rar2fs_resources_enabled: Option<bool>,
    /// Default: /mnt/cache/rargate/rar2fs.log
    pub rar2fs_log_file: Option<PathName>,
    /// Default: 50
    pub rar2fs_log_max_size_mb: Option<u64>,
    /// Default: /mnt/cache/rargate/rar2fs-resources.log
    pub rar2fs_resources_log_file: Option<PathName>,
    /// Default: 20
    pub rar2fs_resources_log_max_size_mb: Option<u64>,
    /// Default: 300
    pub rar2fs_resource_interval_seconds: Option<u64>,
}

#[derive(Debug, Clone)]
pub struct CoreDumpConfig {
    /// Default: /mnt/cache/rargate/cores
    pub directory: Option<PathName>,
    /// Default: 5
    pub keep: Option<u32>,
}

/// A cache timeout in seconds as the configuration states it: on which side of the bounds
/// it lies, and its text.
#[derive(Debug, Clone)]
pub struct TimeoutSetting {
    pub text: String,
    /// Below zero.
    pub negative: bool,
    /// Above 24 hours.
    pub over_a_day: bool,
}

#[derive(Debug, Clone)]
pub struct FuseOptions {
    pub fsname: Option<String>,
    pub auto_unmount: Option<bool>,
    pub allow_other: Option<bool>,
    pub allow_root: Option<bool>,
    pub default_permissions: Option<bool>,
    pub ro: Option<bool>,
    pub nonempty: Option<bool>,
    pub attr_timeout: Option<TimeoutSetting>,
    pub entry_timeout: Option<TimeoutSetting>,
    pub permissions: Option<u16>,
    pub custom_options: Option<Vec<String>>,
}

/// Why a permission setting cannot be read.
#[derive(Debug, Clone, Copy, PartialEq, Eq, Structural)]
pub enum PermissionFault {
    /// Not an octal number of sixteen bits.
    InvalidOctal,
    /// Neither octal digits nor a number after `0o`.
    InvalidFormat,
}

/// What a permission text states: octal digits, with or without `0o` before them.
pub open spec fn permissions_stated(t: Seq<char>) -> Result<int, PermissionFault> {
    if text::starts(t, "0o"@) {
        match text::number(t.skip("0o"@.len() as int), 8, 0xffff) {
            Some(n) => Ok(n),
            None => Err(PermissionFault::InvalidOctal),
        }
    } else if text::all_digits(t) {
        match text::number(t, 8, 0xffff) {
            Some(n) => Ok(n),
            None => Err(PermissionFault::InvalidOctal),
        }
    } else {
        Err(PermissionFault::InvalidFormat)
    }
}

/// Reads a permission text such as `0o755` or `755`.
pub fn parse_permissions(s: &str) -> (r: Result<u16, PermissionFault>)
    ensures
        match r {
            Ok(n) => permissions_stated(s@) == Ok::<int, PermissionFault>(n as int),
            Err(e) => permissions_stated(s@) == Err::<int, PermissionFault>(e),
        },
{
    let t = text::chars_of(s);
    let prefix = text::chars_of("0o");
    let digits = if text::starts_with(&t, &prefix) {
        let rest = text::copy_range(&t, prefix.len(), t.len());
        proof {
            assert(rest@ =~= s@.skip("0o"@.len() as int));
        }
        rest
    } else if text::is_all_digits(&t) {
        t
    } else {
        return Err(PermissionFault::InvalidFormat);
    };
    match text::parse_number(&digits, 8, 0xffff) {
        Some(n) => Ok(n as u16),
        None => Err(PermissionFault::InvalidOctal),
    }
}

/// What is wrong with an HTTP address, if anything.
pub open spec fn url_fault(url: Seq<char>) -> Option<Seq<char>> {
    if !text::starts(url, "http://"@) && !text::starts(url, "https://"@) {
        Some("must start with http:// or https://"@)
    } else {
        let rest = if text::starts(url, "http://"@) {
            url.skip("http://"@.len() as int)
        } else {
            url.skip("https://"@.len() as int)
        };
        let host_part = rest.take(text::until(rest, '/'));
        let colon = text::last_index(host_part, ':');
        if rest.len() == 0 {
            Some("missing host after scheme"@)
        } else if host_part.len() == 0 {
            Some("missing host (path-only URL)"@)
        } else if colon == 0 {
            Some("empty host before port"@)
        } else if colon > 0 && text::number(host_part.skip(colon + 1), 10, 65535) is None {
            Some("port must be a number 0–65535"@)
        } else {
            None
        }
    }
}

/// A sanity check of the addresses of media servers: the scheme, a host, and a port that is
/// a number where there is one.
pub fn validate_http_url(url: &str) -> (r: Result<(), &'static str>)
    ensures
        match r {
            Ok(()) => url_fault(url@) is None,
            Err(e) => url_fault(url@) == Some(e@),
        },
{
    let t = text::chars_of(url);
    let plain = text::chars_of("http://");
    let secure = text::chars_of("https://");
    let skip: usize = if text::starts_with(&t, &plain) {
        plain.len()
    } else if text::starts_with(&t, &secure) {
        secure.len()
    } else {
        return Err("must start with http:// or https://");
    };
    let rest = text::copy_range(&t, skip, t.len());
    proof {
        assert(rest@ =~= url@.skip(skip as int));
        text::until_bounds(rest@, '/');
        assert(rest@.skip(0) =~= rest@);
    }
    if rest.len() == 0 {
        return Err("missing host after scheme");
    }
    let end: usize = text::find_char(&rest, 0, '/');
    let host_part = text::copy_range(&rest, 0, end);
    proof {
        assert(host_part@ =~= rest@.take(end as int));
    }
    if host_part.len() == 0 {
        return Err("missing host (path-only URL)");
    }
    match text::find_last_char(&host_part, ':') {
        Some(colon) => {
            if colon == 0 {
                return Err("empty host before port");
            }
            let port = text::copy_range(&host_part, colon + 1, host_part.len());
            proof {
                assert(port@ =~= host_part@.skip(colon + 1));
            }
            if text::parse_decimal(&port, 65535).is_none() {
                return Err("port must be a number 0–65535");
            }
        },
        None => {},
    }
    Ok(())
}

/// What the file system says of the paths in a configuration.
#[derive(Debug, Clone)]
pub struct ConfigProbe {
    pub source_exists: bool,
    pub mountpoint_exists: bool,
    /// What the source resolves to; `None` where it cannot be resolved.
    pub source_real: Option<PathName>,
    /// What the mountpoint resolves to; `None` where it cannot be resolved.
    pub mountpoint_real: Option<PathName>,
    /// Whether something is mounted at the mountpoint; `None` where that cannot be told.
    pub mounted: Option<bool>,
    pub overlay_verified_exists: bool,
    pub overlay_unverified_exists: bool,
    pub unionfs_verified_exists: bool,
    pub unionfs_unverified_exists: bool,
    pub unionfs_merged_exists: bool,
    pub backend_exists: bool,
}

/// Why a configuration is refused.
#[derive(Debug, Clone, Copy, PartialEq, Eq, Structural)]
pub enum ConfigFault {
    SourceMissing,
    MountpointMissing,
    SameDirectory,
    MountCheckFailed,
    AlreadyMounted,
    InvalidDefaultMode,
    BackendMissing,
    NoConcurrentReads,
    NegativeAttrTimeout,
    NegativeEntryTimeout,
    EmbyUrlEmpty,
    EmbyTokenEmpty,
    EmbyUrlInvalid,
    JellyfinUrlEmpty,
    JellyfinTokenEmpty,
    JellyfinUrlInvalid,
    PlexUrlEmpty,
    PlexTokenEmpty,
    PlexUrlInvalid,
}

/// Something in a configuration that is allowed but probably not meant.
#[derive(Debug, Clone, Copy, PartialEq, Eq, Structural)]
pub enum Notice {
    NoShareIndicators,
    /// A verified and an unverified indicator of which one contains the other, by position.
    IndicatorOverlap { verified: usize, unverified: usize },
    LazyModeWithoutSfv,
    OverlayVerifiedMissing,
    OverlayUnverifiedMissing,
    UnionfsVerifiedMissing,
    UnionfsUnverifiedMissing,
    UnionfsMergedMissing,
    UnusualSeekLength(i32),
    LongAttrTimeout,
    LongEntryTimeout,
    HideArchivesWithoutRar,
    ShortCheckInterval(u64),
    ShortEmbyDebounce(u64),
    NoEmbyPathMapping,
    WorldWritable(u16),
}

/// What a run of checks comes to: the notices up to the first fault, and that fault.
pub struct Findings {
    pub notices: Seq<Notice>,
    pub fault: Option<ConfigFault>,
}

/// One run of checks after another; the second is not made where the first finds a fault.
pub open spec fn followed_by(a: Findings, b: Findings) -> Findings {
    if a.fault is Some {
        a
    } else {
        Findings { notices: a.notices + b.notices, fault: b.fault }
    }
}

/// No finding at all.
pub open spec fn clean() -> Findings {
    Findings { notices: Seq::empty(), fault: None }
}

/// One notice where the condition holds.
pub open spec fn noted(when: bool, n: Notice) -> Findings {
    Findings {
        notices: if when {
            seq![n]
        } else {
            Seq::empty()
        },
        fault: None,
    }
}

/// A fault where the condition holds.
pub open spec fn refused(when: bool, f: ConfigFault) -> Findings {
    Findings {
        notices: Seq::empty(),
        fault: if when {
            Some(f)
        } else {
            None
        },
    }
}

/// Source and mountpoint resolve to the same directory. Two that cannot be resolved count as
/// the same.
pub open spec fn same_directory(p: ConfigProbe) -> bool {
    match (p.source_real, p.mountpoint_real) {
        (Some(s), Some(m)) => path::parts(s@) == path::parts(m@),
        (None, None) => true,
        _ => false,
    }
}

pub open spec fn path_findings(p: ConfigProbe) -> Findings {
    if !p.source_exists {
        refused(true, ConfigFault::SourceMissing)
    } else if !p.mountpoint_exists {
        refused(true, ConfigFault::MountpointMissing)
    } else if same_directory(p) {
        refused(true, ConfigFault::SameDirectory)
    } else if p.mounted is None {
        refused(true, ConfigFault::MountCheckFailed)
    } else {
        refused(p.mounted == Some(true), ConfigFault::AlreadyMounted)
    }
}

/// One indicator contains the other, so that a path can match both.
pub open spec fn overlapping(v: Seq<char>, u: Seq<char>) -> bool {
    v == u || text::contains(v, u) || text::contains(u, v)
}

/// The overlaps of the verified indicator at `i` with the first `n` unverified ones.
pub open spec fn overlaps_with(
    vs: Seq<Seq<char>>,
    us: Seq<Seq<char>>,
    i: nat,
    n: nat,
) -> Seq<Notice>
    decreases n,
{
    if n == 0 {
        Seq::empty()
    } else {
        let before = overlaps_with(vs, us, i, (n - 1) as nat);
        if overlapping(vs[i as int], us[n - 1]) {
            before.push(
                Notice::IndicatorOverlap { verified: i as usize, unverified: (n - 1) as usize },
            )
        } else {
            before
        }
    }
}

/// The overlaps of the first `n` verified indicators with all unverified ones.
pub open spec fn overlaps(vs: Seq<Seq<char>>, us: Seq<Seq<char>>, n: nat) -> Seq<Notice>
    decreases n,
{
    if n == 0 {
        Seq::empty()
    } else {
        overlaps(vs, us, (n - 1) as nat) + overlaps_with(vs, us, (n - 1) as nat, us.len())
    }
}

pub open spec fn sfv_findings(c: Option<SfvConfig>) -> Findings {
    match c {
        Some(sfv) => {
            let vs = text::views(sfv.verified_share_indicators@);
            let us = text::views(sfv.unverified_share_indicators@);
            if !sfv.enabled {
                noted(sfv.lazy_mode == Some(true), Notice::LazyModeWithoutSfv)
            } else if sfv.default_mode@ != "strict"@ && sfv.default_mode@ != "permissive"@ {
                refused(true, ConfigFault::InvalidDefaultMode)
            } else {
                followed_by(
                    noted(vs.len() == 0 && us.len() == 0, Notice::NoShareIndicators),
                    Findings { notices: overlaps(vs, us, vs.len()), fault: None },
                )
            }
        },
        None => clean(),
    }
}

pub open spec fn overlay_findings(c: Option<OverlayConfig>, p: ConfigProbe) -> Findings {
    match c {
        Some(o) if o.use_for_filtering == Some(true) => {
            followed_by(
                noted(!p.overlay_verified_exists, Notice::OverlayVerifiedMissing),
                noted(!p.overlay_unverified_exists, Notice::OverlayUnverifiedMissing),
            )
        },
        _ => clean(),
    }
}

pub open spec fn unionfs_findings(c: Option<UnionfsConfig>, p: ConfigProbe) -> Findings {
    match c {
        Some(u) if u.use_for_filtering == Some(true) => {
            followed_by(
                followed_by(
                    noted(!p.unionfs_verified_exists, Notice::UnionfsVerifiedMissing),
                    noted(!p.unionfs_unverified_exists, Notice::UnionfsUnverifiedMissing),
                ),
                noted(!p.unionfs_merged_exists, Notice::UnionfsMergedMissing),
            )
        },
        _ => clean(),
    }
}

pub open spec fn rar2fs_findings(c: Rar2fsConfig, p: ConfigProbe) -> Findings {
    followed_by(
        match c.seek_length {
            Some(n) => noted(n != 0 && n != 1, Notice::UnusualSeekLength(n)),
            None => clean(),
        },
        followed_by(
            refused(c.backend_mount is Some && !p.backend_exists, ConfigFault::BackendMissing),
            refused(c.max_concurrent_reads == Some(0usize), ConfigFault::NoConcurrentReads),
        ),
    )
}

pub open spec fn timeout_findings(
    t: Option<TimeoutSetting>,
    fault: ConfigFault,
    notice: Notice,
) -> Findings {
    match t {
        Some(t) => followed_by(refused(t.negative, fault), noted(t.over_a_day, notice)),
        None => clean(),
    }
}

pub open spec fn timeouts_findings(c: Option<FuseOptions>) -> Findings {
    match c {
        Some(f) => followed_by(
            timeout_findings(
                f.attr_timeout,
                ConfigFault::NegativeAttrTimeout,
                Notice::LongAttrTimeout,
            ),
            timeout_findings(
                f.entry_timeout,
                ConfigFault::NegativeEntryTimeout,
                Notice::LongEntryTimeout,
            ),
        ),
        None => clean(),
    }
}

pub open spec fn archive_findings(c: Option<FiltersConfig>) -> Findings {
    match c {
        Some(FiltersConfig { rar_archives: Some(rar), .. }) => noted(
            !rar.enabled && rar.hide_archives == Some(true),
            Notice::HideArchivesWithoutRar,
        ),
        _ => clean(),
    }
}

pub open spec fn monitoring_findings(c: Option<NotificationConfig>) -> Findings {
    match c {
        Some(n) if n.enabled => {
            let interval = match n.check_interval {
                Some(i) => i,
                None => 60u64,
            };
            noted(interval < 30, Notice::ShortCheckInterval(interval))
        },
        _ => clean(),
    }
}

pub open spec fn server_findings(
    url: Seq<char>,
    token: Seq<char>,
    no_url: ConfigFault,
    no_token: ConfigFault,
    bad_url: ConfigFault,
) -> Findings {
    if url.len() == 0 {
        refused(true, no_url)
    } else if token.len() == 0 {
        refused(true, no_token)
    } else {
        refused(url_fault(url) is Some, bad_url)
    }
}

pub open spec fn emby_findings(c: Option<EmbyConfig>) -> Findings {
    match c {
        Some(e) if e.enabled => {
            followed_by(
                server_findings(
                    e.url@,
                    e.api_token@,
                    ConfigFault::EmbyUrlEmpty,
                    ConfigFault::EmbyTokenEmpty,
                    ConfigFault::EmbyUrlInvalid,
                ),
                followed_by(
                    noted(e.debounce_seconds == Some(0u64), Notice::ShortEmbyDebounce(0)),
                    noted(e.path_mapping is None, Notice::NoEmbyPathMapping),
                ),
            )
        },
        _ => clean(),
    }
}

pub open spec fn jellyfin_findings(c: Option<JellyfinConfig>) -> Findings {
    match c {
        Some(j) if j.enabled => {
            server_findings(
                j.url@,
                j.api_token@,
                ConfigFault::JellyfinUrlEmpty,
                ConfigFault::JellyfinTokenEmpty,
                ConfigFault::JellyfinUrlInvalid,
            )
        },
        _ => clean(),
    }
}

pub open spec fn plex_findings(c: Option<PlexConfig>) -> Findings {
    match c {
        Some(p) if p.enabled => {
            server_findings(
                p.url@,
                p.token@,
                ConfigFault::PlexUrlEmpty,
                ConfigFault::PlexTokenEmpty,
                ConfigFault::PlexUrlInvalid,
            )
        },
        _ => clean(),
    }
}

pub open spec fn permission_findings(c: Option<FuseOptions>) -> Findings {
    match c {
        Some(FuseOptions { permissions: Some(perms), .. }) => noted(
            perms & 0o002 != 0,
            Notice::WorldWritable(perms),
        ),
        _ => clean(),
    }
}

impl Config {
    /// The checks of the paths, of the SFV rules and of the layers.
    pub open spec fn layer_findings(&self, p: ConfigProbe) -> Findings {
        followed_by(
            path_findings(p),
            followed_by(
                sfv_findings(self.sfv_validation),
                followed_by(
                    overlay_findings(self.overlay_reference, p),
                    unionfs_findings(self.unionfs_reference, p),
                ),
            ),
        )
    }

    /// The checks of the backend, of the mount options, of the filters and of the monitor.
    pub open spec fn backend_findings(&self, p: ConfigProbe) -> Findings {
        followed_by(
            rar2fs_findings(self.rar2fs, p),
            followed_by(
                timeouts_findings(self.fuse_options),
                followed_by(
                    archive_findings(self.filters),
                    monitoring_findings(self.notifications),
                ),
            ),
        )
    }

    /// The checks of the media servers and of the permissions.
    pub open spec fn service_findings(&self) -> Findings {
        followed_by(
            emby_findings(self.emby),
            followed_by(
                jellyfin_findings(self.jellyfin),
                followed_by(plex_findings(self.plex), permission_findings(self.fuse_options)),
            ),
        )
    }

    /// All checks of a configuration, in the order in which they are made.
    pub open spec fn findings(&self, p: ConfigProbe) -> Findings {
        followed_by(
            self.layer_findings(p),
            followed_by(self.backend_findings(p), self.service_findings()),
        )
    }

    /// Checks the configuration: refuses it at the first fault, and adds to `notices` what
    /// deserves a warning up to there.
    pub fn validate(&self, probe: &ConfigProbe, notices: &mut Vec<Notice>) -> (r: Result<
        (),
        ConfigFault,
    >)
        ensures
            final(notices)@ == old(notices)@ + self.findings(*probe).notices,
            match r {
                Ok(()) => self.findings(*probe).fault is None,
                Err(f) => self.findings(*probe).fault == Some(f),
            },
    {
        self.check_layers(probe, notices)?;
        self.check_backend(probe, notices)?;
        self.check_services(notices)
    }

    #[verifier::rlimit(50)]
    #[verifier::spinoff_prover]
    fn check_layers(&self, probe: &ConfigProbe, notices: &mut Vec<Notice>) -> (r: Result<
        (),
        ConfigFault,
    >)
        ensures
            final(notices)@ == old(notices)@ + self.layer_findings(*probe).notices,
            match r {
                Ok(()) => self.layer_findings(*probe).fault is None,
                Err(f) => self.layer_findings(*probe).fault == Some(f),
            },
    {
        let ghost paths = path_findings(*probe);
        let ghost sfv = sfv_findings(self.sfv_validation);
        let ghost overlay = overlay_findings(self.overlay_reference, *probe);
        let ghost unionfs = unionfs_findings(self.unionfs_reference, *probe);
        assert(self.layer_findings(*probe) == followed_by(
            paths,
            followed_by(sfv, followed_by(overlay, unionfs)),
        ));
        check_paths(probe, notices)?;
        check_sfv(&self.sfv_validation, notices)?;
        check_overlay(&self.overlay_reference, probe, notices);
        check_unionfs(&self.unionfs_reference, probe, notices);
        proof {
            assert(old(notices)@ + paths.notices + sfv.notices + overlay.notices
                + unionfs.notices =~= old(notices)@ + (paths.notices + (sfv.notices + (
            overlay.notices + unionfs.notices))));
        }
        Ok(())
    }

    fn check_backend(&self, probe: &ConfigProbe, notices: &mut Vec<Notice>) -> (r: Result<
        (),
        ConfigFault,
    >)
        ensures
            final(notices)@ == old(notices)@ + self.backend_findings(*probe).notices,
            match r {
                Ok(()) => self.backend_findings(*probe).fault is None,
                Err(f) => self.backend_findings(*probe).fault == Some(f),
            },
    {
        check_rar2fs(&self.rar2fs, probe, notices)?;
        check_timeouts(&self.fuse_options, notices)?;
        check_archives(&self.filters, notices);
        check_monitoring(&self.notifications, notices);
        Ok(())
    }

    fn check_services(&self, notices: &mut Vec<Notice>) -> (r: Result<(), ConfigFault>)
        ensures
            final(notices)@ == old(notices)@ + self.service_findings().notices,
            match r {
                Ok(()) => self.service_findings().fault is None,
                Err(f) => self.service_findings().fault == Some(f),
            },
    {
        check_emby(&self.emby, notices)?;
        check_jellyfin(&self.jellyfin, notices)?;
        check_plex(&self.plex, notices)?;
        check_permissions(&self.fuse_options, notices);
        Ok(())
    }
}

fn check_paths(p: &ConfigProbe, notices: &mut Vec<Notice>) -> (r: Result<(), ConfigFault>)
    ensures
        final(notices)@ == old(notices)@ + path_findings(*p).notices,
        match r {
            Ok(()) => path_findings(*p).fault is None,
            Err(f) => path_findings(*p).fault == Some(f),
        },
{
    if !p.source_exists {
        return Err(ConfigFault::SourceMissing);
    }
    if !p.mountpoint_exists {
        return Err(ConfigFault::MountpointMissing);
    }
    let same = match (&p.source_real, &p.mountpoint_real) {
        (Some(s), Some(m)) => s.same(m),
        (None, None) => true,
        _ => false,
    };
    if same {
        return Err(ConfigFault::SameDirectory);
    }
    match p.mounted {
        None => Err(ConfigFault::MountCheckFailed),
        Some(true) => Err(ConfigFault::AlreadyMounted),
        Some(false) => Ok(()),
    }
}

fn note_overlaps(vs: &Vec<String>, us: &Vec<String>, notices: &mut Vec<Notice>)
    ensures
        final(notices)@ == old(notices)@ + overlaps(text::views(vs@), text::views(us@), vs@.len()),
{
    let ghost v = text::views(vs@);
    let ghost u = text::views(us@);
    let ghost start = notices@;
    let mut i: usize = 0;
    while i < vs.len()
        invariant
            i <= vs@.len(),
            v == text::views(vs@),
            u == text::views(us@),
            notices@ == start + overlaps(v, u, i as nat),
        decreases vs@.len() - i,
    {
        let mut j: usize = 0;
        while j < us.len()
            invariant
                i < vs@.len(),
                j <= us@.len(),
                v == text::views(vs@),
                u == text::views(us@),
                notices@ == start + overlaps(v, u, i as nat) + overlaps_with(
                    v,
                    u,
                    i as nat,
                    j as nat,
                ),
            decreases us@.len() - j,
        {
            let a = vs[i].as_str();
            let b = us[j].as_str();
            if text::same_text(a, b) || text::text_contains(a, b) || text::text_contains(b, a) {
                notices.push(Notice::IndicatorOverlap { verified: i, unverified: j });
            }
            j += 1;
        }
        i += 1;
        proof {
            assert(start + overlaps(v, u, (i - 1) as nat) + overlaps_with(
                v,
                u,
                (i - 1) as nat,
                j as nat,
            ) =~= start + overlaps(v, u, i as nat));
        }
    }
}

fn check_sfv(c: &Option<SfvConfig>, notices: &mut Vec<Notice>) -> (r: Result<(), ConfigFault>)
    ensures
        final(notices)@ == old(notices)@ + sfv_findings(*c).notices,
        match r {
            Ok(()) => sfv_findings(*c).fault is None,
            Err(f) => sfv_findings(*c).fault == Some(f),
        },
{
    if let Some(sfv) = c {
        if sfv.enabled {
            let mode = sfv.default_mode.as_str();
            if !text::same_text(mode, "strict") && !text::same_text(mode, "permissive") {
                return Err(ConfigFault::InvalidDefaultMode);
            }
            let none: bool = sfv.verified_share_indicators.len() == 0
                && sfv.unverified_share_indicators.len() == 0;
            if none {
                notices.push(Notice::NoShareIndicators);
            }
            note_overlaps(
                &sfv.verified_share_indicators,
                &sfv.unverified_share_indicators,
                notices,
            );
        } else if sfv.lazy_mode == Some(true) {
            notices.push(Notice::LazyModeWithoutSfv);
        }
    }
    Ok(())
}

fn check_overlay(c: &Option<OverlayConfig>, p: &ConfigProbe, notices: &mut Vec<Notice>)
    ensures
        final(notices)@ == old(notices)@ + overlay_findings(*c, *p).notices,
        overlay_findings(*c, *p).fault is None,
{
    if let Some(o) = c {
        if o.use_for_filtering == Some(true) {
            if !p.overlay_verified_exists {
                notices.push(Notice::OverlayVerifiedMissing);
            }
            if !p.overlay_unverified_exists {
                notices.push(Notice::OverlayUnverifiedMissing);
            }
        }
    }
}

fn check_unionfs(c: &Option<UnionfsConfig>, p: &ConfigProbe, notices: &mut Vec<Notice>)
    ensures
        final(notices)@ == old(notices)@ + unionfs_findings(*c, *p).notices,
        unionfs_findings(*c, *p).fault is None,
{
    if let Some(u) = c {
        if u.use_for_filtering == Some(true) {
            if !p.unionfs_verified_exists {
                notices.push(Notice::UnionfsVerifiedMissing);
            }
            if !p.unionfs_unverified_exists {
                notices.push(Notice::UnionfsUnverifiedMissing);
            }
            if !p.unionfs_merged_exists {
                notices.push(Notice::UnionfsMergedMissing);
            }
        }
    }
}

fn check_rar2fs(c: &Rar2fsConfig, p: &ConfigProbe, notices: &mut Vec<Notice>) -> (r: Result<
    (),
    ConfigFault,
>)
    ensures
        final(notices)@ == old(notices)@ + rar2fs_findings(*c, *p).notices,
        match r {
            Ok(()) => rar2fs_findings(*c, *p).fault is None,
            Err(f) => rar2fs_findings(*c, *p).fault == Some(f),
        },
{
    if let Some(n) = c.seek_length {
        if n != 0 && n != 1 {
            notices.push(Notice::UnusualSeekLength(n));
        }
    }
    if c.backend_mount.is_some() && !p.backend_exists {
        return Err(ConfigFault::BackendMissing);
    }
    if let Some(n) = c.max_concurrent_reads {
        if n == 0 {
            return Err(ConfigFault::NoConcurrentReads);
        }
    }
    Ok(())
}

fn check_timeout(
    t: &Option<TimeoutSetting>,
    fault: ConfigFault,
    notice: Notice,
    notices: &mut Vec<Notice>,
) -> (r: Result<(), ConfigFault>)
    ensures
        final(notices)@ == old(notices)@ + timeout_findings(*t, fault, notice).notices,
        match r {
            Ok(()) => timeout_findings(*t, fault, notice).fault is None,
            Err(f) => timeout_findings(*t, fault, notice).fault == Some(f),
        },
{
    if let Some(t) = t {
        if t.negative {
            return Err(fault);
        }
        if t.over_a_day {
            notices.push(notice);
        }
    }
    Ok(())
}

fn check_timeouts(c: &Option<FuseOptions>, notices: &mut Vec<Notice>) -> (r: Result<
    (),
    ConfigFault,
>)
    ensures
        final(notices)@ == old(notices)@ + timeouts_findings(*c).notices,
        match r {
            Ok(()) => timeouts_findings(*c).fault is None,
            Err(f) => timeouts_findings(*c).fault == Some(f),
        },
{
    if let Some(f) = c {
        check_timeout(
            &f.attr_timeout,
            ConfigFault::NegativeAttrTimeout,
            Notice::LongAttrTimeout,
            notices,
        )?;
        check_timeout(
            &f.entry_timeout,
            ConfigFault::NegativeEntryTimeout,
            Notice::LongEntryTimeout,
            notices,
        )?;
    }
    Ok(())
}

fn check_archives(c: &Option<FiltersConfig>, notices: &mut Vec<Notice>)
    ensures
        final(notices)@ == old(notices)@ + archive_findings(*c).notices,
        archive_findings(*c).fault is None,
{
    if let Some(f) = c {
        if let Some(rar) = &f.rar_archives {
            if !rar.enabled && rar.hide_archives == Some(true) {
                notices.push(Notice::HideArchivesWithoutRar);
            }
        }
    }
}

fn check_monitoring(c: &Option<NotificationConfig>, notices: &mut Vec<Notice>)
    ensures
        final(notices)@ == old(notices)@ + monitoring_findings(*c).notices,
        monitoring_findings(*c).fault is None,
{
    if let Some(n) = c {
        if n.enabled {
            let interval: u64 = match n.check_interval {
                Some(i) => i,
                None => 60,
            };
            if interval < 30 {
                notices.push(Notice::ShortCheckInterval(interval));
            }
        }
    }
}

fn check_server(
    url: &String,
    token: &String,
    no_url: ConfigFault,
    no_token: ConfigFault,
    bad_url: ConfigFault,
) -> (r: Result<(), ConfigFault>)
    ensures
        server_findings(url@, token@, no_url, no_token, bad_url).notices == Seq::<Notice>::empty(),
        match r {
            Ok(()) => server_findings(url@, token@, no_url, no_token, bad_url).fault is None,
            Err(f) => server_findings(url@, token@, no_url, no_token, bad_url).fault == Some(f),
        },
{
    if text::chars_of(url.as_str()).len() == 0 {
        return Err(no_url);
    }
    if text::chars_of(token.as_str()).len() == 0 {
        return Err(no_token);
    }
    if validate_http_url(url.as_str()).is_err() {
        return Err(bad_url);
    }
    Ok(())
}

fn check_emby(c: &Option<EmbyConfig>, notices: &mut Vec<Notice>) -> (r: Result<(), ConfigFault>)
    ensures
        final(notices)@ == old(notices)@ + emby_findings(*c).notices,
        match r {
            Ok(()) => emby_findings(*c).fault is None,
            Err(f) => emby_findings(*c).fault == Some(f),
        },
{
    if let Some(e) = c {
        if e.enabled {
            check_server(
                &e.url,
                &e.api_token,
                ConfigFault::EmbyUrlEmpty,
                ConfigFault::EmbyTokenEmpty,
                ConfigFault::EmbyUrlInvalid,
            )?;
            if let Some(debounce) = e.debounce_seconds {
                if debounce < 1 {
                    notices.push(Notice::ShortEmbyDebounce(debounce));
                }
            }
            if e.path_mapping.is_none() {
                notices.push(Notice::NoEmbyPathMapping);
            }
        }
    }
    Ok(())
}

fn check_jellyfin(c: &Option<JellyfinConfig>, notices: &mut Vec<Notice>) -> (r: Result<
    (),
    ConfigFault,
>)
    ensures
        final(notices)@ == old(notices)@ + jellyfin_findings(*c).notices,
        match r {
            Ok(()) => jellyfin_findings(*c).fault is None,
            Err(f) => jellyfin_findings(*c).fault == Some(f),
        },
{
    if let Some(j) = c {
        if j.enabled {
            return check_server(
                &j.url,
                &j.api_token,
                ConfigFault::JellyfinUrlEmpty,
                ConfigFault::JellyfinTokenEmpty,
                ConfigFault::JellyfinUrlInvalid,
            );
        }
    }
    Ok(())
}

fn check_plex(c: &Option<PlexConfig>, notices: &mut Vec<Notice>) -> (r: Result<(), ConfigFault>)
    ensures
        final(notices)@ == old(notices)@ + plex_findings(*c).notices,
        match r {
            Ok(()) => plex_findings(*c).fault is None,
            Err(f) => plex_findings(*c).fault == Some(f),
        },
{
    if let Some(p) = c {
        if p.enabled {
            return check_server(
                &p.url,
                &p.token,
                ConfigFault::PlexUrlEmpty,
                ConfigFault::PlexTokenEmpty,
                ConfigFault::PlexUrlInvalid,
            );
        }
    }
    Ok(())
}

fn check_permissions(c: &Option<FuseOptions>, notices: &mut Vec<Notice>)
    ensures
        final(notices)@ == old(notices)@ + permission_findings(*c).notices,
        permission_findings(*c).fault is None,
{
    if let Some(f) = c {
        if let Some(perms) = f.permissions {
            if perms & 0o002 != 0 {
                notices.push(Notice::WorldWritable(perms));
            }
        }
    }
}

} // verus!
