//! The file watcher: which directories wait for validation, which failed and when they are
//! tried again, what the media servers are told, and when old entries go.

use crate::config::OverlayConfig;
use crate::config::ValidationBackoffConfig;
use crate::config::WatcherConfig;
use crate::lru_map;
use crate::lru_map::LruMap;
use crate::lru_map::LruView;
use crate::media_notifier_common;
use crate::media_notifier_common::MediaEvent;
use crate::path;
use crate::path::PathName;
use crate::sfv;
use crate::text;
use vstd::prelude::*;
use vstd::string::*;

verus! {

broadcast use vstd::string::group_string_axioms;

/// Seconds without file activity before a directory is validated.
pub const DEFAULT_SFV_DEBOUNCE_SECONDS: u64 = 30;

/// Seconds after which an announced directory leaves the pending table.
pub const DEFAULT_PENDING_CLEANUP_SECONDS: u64 = 300;

/// Seconds after which new events validate an announced directory again.
pub const DEFAULT_REVALIDATION_THRESHOLD_SECONDS: u64 = 30;

/// Minimum seconds between two announcements of a directory: the burst of events of one
/// subtitle collapses into one.
pub const RE_NOTIFY_MIN_INTERVAL_SECS: u64 = 120;

pub const DEFAULT_VALIDATION_COOLDOWN_SECS: u64 = 300;

pub const DEFAULT_MAX_VALIDATION_FAILURES: u32 = 3;

/// Failures after which a release is escalated.
pub const DEFAULT_SFV_ESCALATION_THRESHOLD: u32 = 25;

/// The same for a release that had already been announced.
pub const DEFAULT_REGRESSION_ESCALATION_THRESHOLD: u32 = 3;

/// Seconds after which a failure record is dropped.
pub const FAILURE_CLEANUP_THRESHOLD_SECS: u64 = 3600;

pub const LRU_PENDING_DIRS_SIZE: usize = 10_000;

pub const LRU_FAILED_VALIDATIONS_SIZE: usize = 5_000;

pub const LRU_TEMP_PATH_LOG_SIZE: usize = 1_000;

pub const CLEANUP_INTERVAL_SECS: u64 = 60;

/// Minimum seconds between two log lines for one temporary path.
pub const TEMP_PATH_LOG_INTERVAL_SECS: u64 = 5;

/// Seconds after which a temporary path is forgotten.
pub const TEMP_PATH_FORGET_SECS: u64 = 60;

/// Minimum seconds between two refreshes of one overlay directory.
pub const OVERLAY_REFRESH_DEDUPE_SECS: u64 = 3;

/// How deep the watched tree is.
pub const MAX_DEPTH: usize = 10;

/// The extensions of companion files: subtitles, metadata and scratch files.
pub open spec fn sidecar_extensions() -> Seq<Seq<char>> {
    seq![
        "srt"@,
        "ass"@,
        "ssa"@,
        "sub"@,
        "idx"@,
        "vtt"@,
        "smi"@,
        "nfo"@,
        "tmp"@,
        "part"@,
    ]
}

/// Tests whether an extension in small letters is that of a companion file.
pub fn is_sidecar_extension(ext: &str) -> (r: bool)
    ensures
        r == sidecar_extensions().contains(ext@),
{
    let mut v: Vec<String> = Vec::new();
    proof {
        assert(text::views(v@) =~= Seq::<Seq<char>>::empty());
    }
    media_notifier_common::push_text(&mut v, "srt");
    media_notifier_common::push_text(&mut v, "ass");
    media_notifier_common::push_text(&mut v, "ssa");
    media_notifier_common::push_text(&mut v, "sub");
    media_notifier_common::push_text(&mut v, "idx");
    media_notifier_common::push_text(&mut v, "vtt");
    media_notifier_common::push_text(&mut v, "smi");
    media_notifier_common::push_text(&mut v, "nfo");
    media_notifier_common::push_text(&mut v, "tmp");
    media_notifier_common::push_text(&mut v, "part");
    proof {
        assert(text::views(v@) =~= sidecar_extensions());
    }
    text::has_text(&v, ext)
}

/// The path has the extension of a companion file, in capital or small letters.
pub open spec fn sidecar(t: Seq<char>) -> bool {
    match path::extension_of(t) {
        Some(ext) => sidecar_extensions().contains(text::lowered(ext)),
        None => false,
    }
}

/// Tests whether a path names a companion file.
pub fn is_sidecar_file(path: &PathName) -> (r: bool)
    ensures
        r == sidecar(path@),
{
    match path.extension() {
        Some(ext) => {
            let low = text::lowered_chars(&ext);
            is_sidecar_extension(low.as_str())
        },
        None => false,
    }
}

/// The highest failure count at which a warning is due, up to `count`.
pub open spec fn milestone(count: u32) -> u32 {
    if count >= 5000 {
        5000
    } else if count >= 1000 {
        1000
    } else if count >= 500 {
        500
    } else if count >= 100 {
        100
    } else if count >= 50 {
        50
    } else if count >= 10 {
        10
    } else if count >= 3 {
        3
    } else {
        0
    }
}

/// The highest failure milestone that `count` has reached.
pub fn sfv_failure_milestone(count: u32) -> (r: u32)
    ensures
        r == milestone(count),
{
    if count >= 5000 {
        5000
    } else if count >= 1000 {
        1000
    } else if count >= 500 {
        500
    } else if count >= 100 {
        100
    } else if count >= 50 {
        50
    } else if count >= 10 {
        10
    } else if count >= 3 {
        3
    } else {
        0
    }
}

/// A duration in its one or two largest units, such as `4d 3h`, `5h 12m`, `45m` or `30s`.
pub open spec fn humanized(secs: u64) -> Seq<char> {
    let days = secs / 86_400;
    let hours = (secs % 86_400) / 3_600;
    let mins = (secs % 3_600) / 60;
    if days > 0 {
        text::decimal(days as nat) + "d "@ + text::decimal(hours as nat) + "h"@
    } else if hours > 0 {
        text::decimal(hours as nat) + "h "@ + text::decimal(mins as nat) + "m"@
    } else if mins > 0 {
        text::decimal(mins as nat) + "m"@
    } else {
        text::decimal(secs as nat) + "s"@
    }
}

/// Writes a duration of so many seconds for people to read.
pub fn humanize_duration(secs: u64) -> (r: String)
    ensures
        r@ == humanized(secs),
{
    let days: u64 = secs / 86_400;
    let hours: u64 = (secs % 86_400) / 3_600;
    let mins: u64 = (secs % 3_600) / 60;
    if days > 0 {
        let mut s = text::decimal_of(days);
        s.append("d ");
        s.append(text::decimal_of(hours).as_str());
        s.append("h");
        s
    } else if hours > 0 {
        let mut s = text::decimal_of(hours);
        s.append("h ");
        s.append(text::decimal_of(mins).as_str());
        s.append("m");
        s
    } else if mins > 0 {
        let mut s = text::decimal_of(mins);
        s.append("m");
        s
    } else {
        let mut s = text::decimal_of(secs);
        s.append("s");
        s
    }
}

/// A path that a download client will soon rename or remove.
pub open spec fn temporary(t: Seq<char>) -> bool {
    ||| text::contains(t, ".::TMPNAME:"@)
    ||| text::contains(t, "_UNPACK_"@)
    ||| match path::file_name_of(t) {
        Some(name) => temporary_name(name),
        None => false,
    }
}

/// A file name of a partial download.
pub open spec fn temporary_name(name: Seq<char>) -> bool {
    ||| text::ends(name, ".!qB"@)
    ||| text::starts(name, "._"@)
    ||| text::ends(name, ".part"@)
    ||| text::ends(name, ".tmp"@)
    ||| text::ends(name, ".dctmp"@)
}

/// Tests whether a path is a temporary one of a download client.
pub fn is_temporary_path(path: &PathName) -> (r: bool)
    ensures
        r == temporary(path@),
{
    if text::text_contains(path.as_str(), ".::TMPNAME:") {
        return true;
    }
    if text::text_contains(path.as_str(), "_UNPACK_") {
        return true;
    }
    match path.file_name() {
        Some(name) => {
            let n = text::text_of(&name);
            let s = n.as_str();
            text::text_ends_with(s, ".!qB") || text::text_starts_with(s, "._")
                || text::text_ends_with(s, ".part") || text::text_ends_with(s, ".tmp")
                || text::text_ends_with(s, ".dctmp")
        },
        None => false,
    }
}

/// The name of the directory is among the excluded ones, in capital or small letters.
pub open spec fn excluded(exclude_dirs: Seq<Seq<char>>, t: Seq<char>) -> bool {
    match path::file_name_of(t) {
        Some(name) => exists|i: int|
            0 <= i < exclude_dirs.len() && text::lowered(#[trigger] exclude_dirs[i])
                == text::lowered(name),
        None => false,
    }
}

/// Tests whether a directory is excluded; the case of letters does not matter.
pub fn is_excluded_dir(exclude_dirs: &Vec<String>, path: &PathName) -> (r: bool)
    ensures
        r == excluded(text::views(exclude_dirs@), path@),
{
    let ghost all = text::views(exclude_dirs@);
    let low = match path.file_name() {
        Some(name) => text::lowered_chars(&name),
        None => {
            return false;
        },
    };
    let mut i: usize = 0;
    while i < exclude_dirs.len()
        invariant
            i <= exclude_dirs@.len(),
            all == text::views(exclude_dirs@),
            path::file_name_of(path@) matches Some(name) && low@ == text::lowered(name),
            forall|k: int| 0 <= k < i ==> text::lowered(#[trigger] all[k]) != low@,
        decreases exclude_dirs@.len() - i,
    {
        let pattern = text::lowered_text(exclude_dirs[i].as_str());
        proof {
            assert(all[i as int] == exclude_dirs@[i as int]@);
            assert(pattern@ == text::lowered(all[i as int]));
        }
        if text::same_text(pattern.as_str(), low.as_str()) {
            return true;
        }
        i += 1;
    }
    false
}

/// The first SFV file among the entries of a directory.
pub open spec fn first_sfv(entries: Seq<Seq<char>>) -> Option<Seq<char>>
    decreases entries.len(),
{
    if entries.len() == 0 {
        None
    } else if sfv::sfv_named(entries[0]) {
        Some(entries[0])
    } else {
        first_sfv(entries.drop_first())
    }
}

/// Finds the SFV file among the entries of a directory.
pub fn find_sfv_file(entries: &Vec<PathName>) -> (r: Option<PathName>)
    ensures
        match r {
            Some(p) => first_sfv(path::path_views(entries@)) == Some(p@),
            None => first_sfv(path::path_views(entries@)) is None,
        },
{
    let ghost all = path::path_views(entries@);
    let mut i: usize = 0;
    proof {
        assert(all.skip(0) =~= all);
    }
    while i < entries.len()
        invariant
            i <= entries@.len(),
            all == path::path_views(entries@),
            first_sfv(all.skip(i as int)) == first_sfv(all),
        decreases entries@.len() - i,
    {
        proof {
            assert(all.skip(i as int)[0] == entries@[i as int]@);
            assert(all.skip(i as int).drop_first() =~= all.skip(i + 1));
        }
        if sfv::is_sfv_file(&entries[i]) {
            return Some(entries[i].clone());
        }
        i += 1;
    }
    None
}

/// The number of watches that the system allows, as its settings file states it.
pub open spec fn system_watch_limit(setting: Option<Seq<char>>) -> int {
    match setting {
        Some(t) => match text::number(text::trim(t), 10, usize::MAX as int) {
            Some(n) => n,
            None => 8192,
        },
        None => 8192,
    }
}

/// How many watches to use, and how many the system allows: four fifths of the limit, so
/// that other programs have some left. `setting` is the content of the settings file.
pub fn get_max_watches(setting: Option<&str>) -> (r: (usize, usize))
    ensures
        r.1 == system_watch_limit(match setting {
            Some(s) => Some(s@),
            None => None,
        }),
        r.0 == (r.1 * 80) / 100,
{
    let limit: usize = match setting {
        Some(s) => {
            let t = text::trimmed(&text::chars_of(s));
            match text::parse_decimal(&t, usize::MAX as u64) {
                Some(n) => n as usize,
                None => 8192,
            }
        },
        None => 8192,
    };
    let whole: usize = limit / 100;
    let rest: usize = limit % 100;
    ((whole * 80) + (rest * 80) / 100, limit)
}

/// What the watcher works with.
pub struct InotifyWatcher {
    pub verified_path: PathName,
    pub unverified_path: PathName,
    /// Where the overlay is mounted; its cache is refreshed when files change in the
    /// verified layer.
    pub overlay_merged_path: Option<PathName>,
    pub rar2fs_backend_path: PathName,
    /// In small letters.
    pub exclude_dirs: Vec<String>,
    pub max_validation_failures: u32,
    pub validation_cooldown_secs: u64,
    pub escalation_threshold: u32,
    pub regression_threshold: u32,
    pub sfv_debounce_secs: u64,
    pub pending_cleanup_secs: u64,
    pub revalidation_threshold_secs: u64,
}

/// The value that is set, or the default.
pub open spec fn or_else<T>(v: Option<T>, d: T) -> T {
    match v {
        Some(x) => x,
        None => d,
    }
}

fn value_or_u64(v: Option<u64>, d: u64) -> (r: u64)
    ensures
        r == or_else(v, d),
{
    match v {
        Some(x) => x,
        None => d,
    }
}

fn value_or_u32(v: Option<u32>, d: u32) -> (r: u32)
    ensures
        r == or_else(v, d),
{
    match v {
        Some(x) => x,
        None => d,
    }
}

/// A backoff setting of which nothing is set.
pub open spec fn no_backoff() -> ValidationBackoffConfig {
    ValidationBackoffConfig {
        max_failures: None,
        cooldown_seconds: None,
        escalate_after: None,
        regression_escalate_after: None,
    }
}

/// A watcher setting of which nothing is set.
pub open spec fn no_timing() -> WatcherConfig {
    WatcherConfig {
        sfv_debounce_seconds: None,
        pending_cleanup_minutes: None,
        revalidation_threshold_seconds: None,
    }
}

impl InotifyWatcher {
    /// Takes the settings, with the defaults for those that are not set. A release is not
    /// escalated before warnings about it begin.
    pub fn new(
        overlay_config: &OverlayConfig,
        rar2fs_backend_path: PathName,
        exclude_dirs: Option<Vec<String>>,
        validation_backoff: Option<ValidationBackoffConfig>,
        watcher_config: Option<WatcherConfig>,
    ) -> (r: Self)
        requires
            or_else(or_else(watcher_config, no_timing()).pending_cleanup_minutes, 0) * 60
                <= u64::MAX,
        ensures
            r.verified_path@ == overlay_config.verified_share_path@,
            r.unverified_path@ == overlay_config.unverified_share_path@,
            r.overlay_merged_path is Some == overlay_config.merged_directory is Some,
            overlay_config.merged_directory matches Some(m) ==> r.overlay_merged_path->0@ == m@,
            r.rar2fs_backend_path@ == rar2fs_backend_path@,
            text::views(r.exclude_dirs@) == (match exclude_dirs {
                Some(v) => text::all_lowered(text::views(v@)),
                None => Seq::empty(),
            }),
            ({
                let b = or_else(validation_backoff, no_backoff());
                let t = or_else(watcher_config, no_timing());
                &&& r.max_validation_failures == or_else(
                    b.max_failures,
                    DEFAULT_MAX_VALIDATION_FAILURES,
                )
                &&& r.validation_cooldown_secs == or_else(
                    b.cooldown_seconds,
                    DEFAULT_VALIDATION_COOLDOWN_SECS,
                )
                &&& r.escalation_threshold == vstd::math::max(
                    or_else(b.escalate_after, DEFAULT_SFV_ESCALATION_THRESHOLD) as int,
                    r.max_validation_failures as int,
                )
                &&& r.regression_threshold == or_else(
                    b.regression_escalate_after,
                    DEFAULT_REGRESSION_ESCALATION_THRESHOLD,
                )
                &&& r.sfv_debounce_secs == or_else(
                    t.sfv_debounce_seconds,
                    DEFAULT_SFV_DEBOUNCE_SECONDS,
                )
                &&& r.pending_cleanup_secs == (match t.pending_cleanup_minutes {
                    Some(m) => (m * 60) as u64,
                    None => DEFAULT_PENDING_CLEANUP_SECONDS,
                })
                &&& r.revalidation_threshold_secs == or_else(
                    t.revalidation_threshold_seconds,
                    DEFAULT_REVALIDATION_THRESHOLD_SECONDS,
                )
            }),
    {
        let b = match validation_backoff {
            Some(b) => b,
            None => ValidationBackoffConfig {
                max_failures: None,
                cooldown_seconds: None,
                escalate_after: None,
                regression_escalate_after: None,
            },
        };
        let t = match watcher_config {
            Some(t) => t,
            None => WatcherConfig {
                sfv_debounce_seconds: None,
                pending_cleanup_minutes: None,
                revalidation_threshold_seconds: None,
            },
        };
        let max_validation_failures: u32 = value_or_u32(
            b.max_failures,
            DEFAULT_MAX_VALIDATION_FAILURES,
        );
        let wanted: u32 = value_or_u32(b.escalate_after, DEFAULT_SFV_ESCALATION_THRESHOLD);
        let lower = match exclude_dirs {
            Some(v) => text::lowered_strings(&v),
            None => {
                let none: Vec<String> = Vec::new();
                proof {
                    assert(text::views(none@) =~= Seq::<Seq<char>>::empty());
                }
                none
            },
        };
        let merged = match &overlay_config.merged_directory {
            Some(m) => Some(m.clone()),
            None => None,
        };
        InotifyWatcher {
            verified_path: overlay_config.verified_share_path.clone(),
            unverified_path: overlay_config.unverified_share_path.clone(),
            overlay_merged_path: merged,
            rar2fs_backend_path,
            exclude_dirs: lower,
            max_validation_failures,
            validation_cooldown_secs: value_or_u64(
                b.cooldown_seconds,
                DEFAULT_VALIDATION_COOLDOWN_SECS,
            ),
            escalation_threshold: if wanted >= max_validation_failures {
                wanted
            } else {
                max_validation_failures
            },
            regression_threshold: value_or_u32(
                b.regression_escalate_after,
                DEFAULT_REGRESSION_ESCALATION_THRESHOLD,
            ),
            sfv_debounce_secs: value_or_u64(t.sfv_debounce_seconds, DEFAULT_SFV_DEBOUNCE_SECONDS),
            pending_cleanup_secs: match t.pending_cleanup_minutes {
                Some(m) => m * 60,
                None => DEFAULT_PENDING_CLEANUP_SECONDS,
            },
            revalidation_threshold_secs: value_or_u64(
                t.revalidation_threshold_seconds,
                DEFAULT_REVALIDATION_THRESHOLD_SECONDS,
            ),
        }
    }
}

/// A directory that waits for validation after file activity.
#[derive(Debug, Clone, Copy, PartialEq, Eq, Structural)]
pub struct PendingDirectory {
    pub last_event: u64,
    pub notified: bool,
    pub notified_at: Option<u64>,
}

/// A directory that failed validation.
#[derive(Debug, Clone, Copy, PartialEq, Eq, Structural)]
pub struct FailedValidation {
    pub last_attempt: u64,
    /// Failures in a row.
    pub failure_count: u32,
    /// The wall clock at the first failure.
    pub first_seen: u64,
    /// The highest milestone that was warned about.
    pub last_milestone_logged: u32,
    pub escalated: bool,
}

/// The media servers, and Sonarr and Radarr together.
#[derive(Debug, Clone, Copy, PartialEq, Eq, Structural)]
pub enum Server {
    Emby,
    Jellyfin,
    Plex,
    Arr,
}

/// What the watcher wants done.
#[derive(Debug)]
pub enum Action {
    /// Forget what the mount knows of a backend path.
    Invalidate(PathName),
    /// Read an overlay directory anew.
    RefreshOverlay(PathName),
    Notify(Server, MediaEvent),
    /// The release is no longer stuck.
    ClearStuck(PathName),
    /// The release is stuck: so many failures, the first one then.
    RecordStuck(PathName, u32, u64),
    /// One loud line: the release has failed so often, since then.
    Escalate(PathName, u32, u64),
    /// A warning at a milestone: the release has failed so often, since then.
    Warn(PathName, u32, u64),
    /// A line about a temporary path that is skipped.
    LogTemporary(PathName),
    /// The watch of the event is gone.
    Unwatch,
}

/// An action, with paths as their texts.
pub enum ActionView {
    Invalidate(Seq<char>),
    RefreshOverlay(Seq<char>),
    /// The server, whether something was deleted, and the path.
    Notify(Server, bool, Seq<char>),
    ClearStuck(Seq<char>),
    RecordStuck(Seq<char>, u32, u64),
    Escalate(Seq<char>, u32, u64),
    Warn(Seq<char>, u32, u64),
    LogTemporary(Seq<char>),
    Unwatch,
}

impl View for Action {
    type V = ActionView;

    open spec fn view(&self) -> ActionView {
        match self {
            Action::Invalidate(p) => ActionView::Invalidate(p@),
            Action::RefreshOverlay(p) => ActionView::RefreshOverlay(p@),
            Action::Notify(s, e) => ActionView::Notify(*s, e is Deleted, e.text()),
            Action::ClearStuck(p) => ActionView::ClearStuck(p@),
            Action::RecordStuck(p, n, t) => ActionView::RecordStuck(p@, *n, *t),
            Action::Escalate(p, n, t) => ActionView::Escalate(p@, *n, *t),
            Action::Warn(p, n, t) => ActionView::Warn(p@, *n, *t),
            Action::LogTemporary(p) => ActionView::LogTemporary(p@),
            Action::Unwatch => ActionView::Unwatch,
        }
    }
}

pub open spec fn action_views(v: Seq<Action>) -> Seq<ActionView> {
    Seq::new(v.len(), |i: int| v[i]@)
}

fn push_action(v: &mut Vec<Action>, a: Action)
    ensures
        action_views(final(v)@) == action_views(old(v)@).push(a@),
{
    let ghost before = v@;
    v.push(a);
    proof {
        assert(action_views(v@) =~= action_views(before).push(a@));
    }
}

fn no_actions() -> (r: Vec<Action>)
    ensures
        action_views(r@) == Seq::<ActionView>::empty(),
{
    let r: Vec<Action> = Vec::new();
    proof {
        assert(action_views(r@) =~= Seq::<ActionView>::empty());
    }
    r
}

/// The word to one server; none about temporary paths.
pub open spec fn told(server: Server, deleted: bool, t: Seq<char>) -> Seq<ActionView> {
    if temporary(t) {
        Seq::empty()
    } else {
        seq![ActionView::Notify(server, deleted, t)]
    }
}

/// The word to the three media servers.
pub open spec fn told_all(deleted: bool, t: Seq<char>) -> Seq<ActionView> {
    told(Server::Emby, deleted, t) + told(Server::Jellyfin, deleted, t) + told(
        Server::Plex,
        deleted,
        t,
    )
}

/// Tells one server of a change.
fn notify_server(actions: &mut Vec<Action>, server: Server, path: &PathName, is_deletion: bool)
    ensures
        action_views(final(actions)@) == action_views(old(actions)@) + told(
            server,
            is_deletion,
            path@,
        ),
{
    if is_temporary_path(path) {
        return;
    }
    let event = if is_deletion {
        MediaEvent::Deleted(path.clone())
    } else {
        MediaEvent::Created(path.clone())
    };
    push_action(actions, Action::Notify(server, event));
    proof {
        assert(action_views(old(actions)@) + told(server, is_deletion, path@) =~= action_views(
            old(actions)@,
        ).push(ActionView::Notify(server, is_deletion, path@)));
    }
}

fn notify_all(actions: &mut Vec<Action>, path: &PathName, is_deletion: bool)
    ensures
        action_views(final(actions)@) == action_views(old(actions)@) + told_all(is_deletion, path@),
{
    notify_server(actions, Server::Emby, path, is_deletion);
    notify_server(actions, Server::Jellyfin, path, is_deletion);
    notify_server(actions, Server::Plex, path, is_deletion);
    proof {
        assert(action_views(actions@) =~= action_views(old(actions)@) + told_all(
            is_deletion,
            path@,
        ));
    }
}

/// The backend path of a path in one of the two layers; any other path stays.
pub open spec fn backend_path(
    source: Seq<char>,
    verified: Seq<char>,
    unverified: Seq<char>,
    backend: Seq<char>,
) -> Seq<char> {
    match path::relative(source, verified) {
        Some(rel) => path::joined(backend, rel),
        None => match path::relative(source, unverified) {
            Some(rel) => path::joined(backend, rel),
            None => source,
        },
    }
}

/// Translates a path in one of the two layers to the backend.
pub fn translate_to_backend_path(
    source_path: &PathName,
    verified_path: &PathName,
    unverified_path: &PathName,
    backend: &PathName,
) -> (r: PathName)
    ensures
        r@ == backend_path(source_path@, verified_path@, unverified_path@, backend@),
{
    match source_path.strip_prefix(verified_path) {
        Some(rel) => backend.join(rel.as_str()),
        None => match source_path.strip_prefix(unverified_path) {
            Some(rel) => backend.join(rel.as_str()),
            None => source_path.clone(),
        },
    }
}

/// A file in the verified layer and the same file in the unverified layer have the same
/// backend path, where neither layer holds the other.
pub proof fn layers_share_the_backend(
    verified: Seq<char>,
    unverified: Seq<char>,
    backend: Seq<char>,
    rel: Seq<char>,
)
    requires
        path::tidy(rel),
        !path::under(path::joined(unverified, rel), verified),
    ensures
        backend_path(path::joined(verified, rel), verified, unverified, backend) == path::joined(
            backend,
            rel,
        ),
        backend_path(path::joined(unverified, rel), verified, unverified, backend)
            == path::joined(backend, rel),
{
    path::join_then_strip(verified, rel);
    path::join_then_strip(unverified, rel);
}

/// The tables of the watcher.
pub struct WatchState {
    pub pending: LruMap<PendingDirectory>,
    pub failed: LruMap<FailedValidation>,
    /// When a temporary path was last logged.
    pub temp_logged: LruMap<u64>,
    /// When an overlay directory was last refreshed.
    pub overlay_refreshed: LruMap<u64>,
    /// When a directory was last announced.
    pub announced: LruMap<u64>,
    pub last_cleanup: u64,
}

/// What the tables of the watcher hold.
#[verifier::ext_equal]
pub struct WatchView {
    pub pending: LruView<PendingDirectory>,
    pub failed: LruView<FailedValidation>,
    pub temp_logged: LruView<u64>,
    pub overlay_refreshed: LruView<u64>,
    pub announced: LruView<u64>,
    pub last_cleanup: u64,
}

impl View for WatchState {
    type V = WatchView;

    open spec fn view(&self) -> WatchView {
        WatchView {
            pending: self.pending@,
            failed: self.failed@,
            temp_logged: self.temp_logged@,
            overlay_refreshed: self.overlay_refreshed@,
            announced: self.announced@,
            last_cleanup: self.last_cleanup,
        }
    }
}

impl WatchView {
    pub open spec fn wf(self) -> bool {
        &&& self.pending.wf()
        &&& self.failed.wf()
        &&& self.temp_logged.wf()
        &&& self.overlay_refreshed.wf()
        &&& self.announced.wf()
    }
}

/// The power of three.
pub open spec fn tripled(n: nat) -> nat
    decreases n,
{
    if n == 0 {
        1
    } else {
        3 * tripled((n - 1) as nat)
    }
}

/// How many seconds a directory with so many failures waits: from the maximum on the whole
/// cooldown, before that 5, 15, 45 and so on, never more than the cooldown.
pub open spec fn backoff(count: u32, max_failures: u32, cooldown: u64) -> int {
    if count >= max_failures {
        cooldown as int
    } else {
        vstd::math::min(
            (5 * tripled(
                if count == 0 {
                    0
                } else {
                    (count - 1) as nat
                },
            )) as int,
            cooldown as int,
        )
    }
}

fn backoff_secs(count: u32, max_failures: u32, cooldown: u64) -> (r: u64)
    ensures
        r == backoff(count, max_failures, cooldown),
{
    if count >= max_failures {
        return cooldown;
    }
    let last: u32 = if count == 0 {
        0
    } else {
        count - 1
    };
    let mut wait: u64 = 5;
    let mut i: u32 = 0;
    proof {
        assert(tripled(0) == 1);
    }
    while i < last
        invariant
            i <= last,
            wait == 5 * tripled(i as nat),
            last == (if count == 0 {
                0
            } else {
                (count - 1) as u32
            }),
            count < max_failures,
        decreases last - i,
    {
        if wait >= cooldown || wait > u64::MAX / 3 {
            proof {
                tripled_grows((i + 1) as nat, last as nat);
                assert(tripled((i + 1) as nat) == 3 * tripled(i as nat));
            }
            return cooldown;
        }
        wait = wait * 3;
        i += 1;
    }
    if wait <= cooldown {
        wait
    } else {
        cooldown
    }
}

proof fn tripled_grows(a: nat, b: nat)
    requires
        a <= b,
    ensures
        1 <= tripled(a) <= tripled(b),
    decreases b,
{
    if a < b {
        tripled_grows(a, (b - 1) as nat);
    } else if b > 0 {
        tripled_grows((a - 1) as nat, (b - 1) as nat);
    }
}

/// A directory that has failed more often never waits less, and none waits longer than the
/// cooldown.
pub proof fn backoff_grows_up_to_the_cooldown(a: u32, b: u32, max_failures: u32, cooldown: u64)
    requires
        a <= b,
    ensures
        backoff(a, max_failures, cooldown) <= backoff(b, max_failures, cooldown) <= cooldown,
{
    let x = if a == 0 {
        0
    } else {
        (a - 1) as nat
    };
    let y = if b == 0 {
        0
    } else {
        (b - 1) as nat
    };
    tripled_grows(x, y);
}

/// The directory has been quiet for long enough and waits for its validation.
pub open spec fn due(p: PendingDirectory, now: u64, debounce_secs: u64) -> bool {
    !p.notified && media_notifier_common::seconds_since(now, p.last_event) >= debounce_secs
}

/// The keys of a table whose values have a property, most recently used first.
pub open spec fn keys_where<V>(
    m: LruView<V>,
    keys: Seq<Seq<char>>,
    wanted: spec_fn(V) -> bool,
) -> Seq<Seq<char>>
    decreases keys.len(),
{
    if keys.len() == 0 {
        Seq::empty()
    } else {
        let before = keys_where(m, keys.drop_last(), wanted);
        if wanted(m.values[keys.last()]) {
            before.push(keys.last())
        } else {
            before
        }
    }
}

/// The table without some keys.
pub open spec fn without<V>(m: LruView<V>, keys: Seq<Seq<char>>) -> LruView<V>
    decreases keys.len(),
{
    if keys.len() == 0 {
        m
    } else {
        without(m, keys.drop_last()).remove(keys.last())
    }
}

impl WatchView {
    /// The overlay directory of a directory in the verified layer is read anew, unless that
    /// was done a moment ago.
    pub open spec fn refresh(self, w: InotifyWatcher, source: Seq<char>, at: u64) -> (
        WatchView,
        Seq<ActionView>,
    ) {
        match (w.overlay_merged_path, path::relative(source, w.verified_path@)) {
            (Some(merged), Some(rel)) => {
                let k = path::key(source);
                let seen = self.overlay_refreshed.touch(k);
                if self.overlay_refreshed.has(k) && media_notifier_common::seconds_since(
                    at,
                    self.overlay_refreshed.values[k],
                ) < OVERLAY_REFRESH_DEDUPE_SECS {
                    (WatchView { overlay_refreshed: seen, ..self }, Seq::empty())
                } else {
                    (
                        WatchView { overlay_refreshed: seen.put(k, at), ..self },
                        seq![ActionView::RefreshOverlay(path::joined(merged@, rel))],
                    )
                }
            },
            _ => (self, Seq::empty()),
        }
    }

    /// A directory still waits after its last failure.
    pub open spec fn waits(self, w: InotifyWatcher, k: Seq<char>, now: u64) -> bool {
        let f = self.failed.values[k];
        self.failed.has(k) && media_notifier_common::seconds_since(now, f.last_attempt) < backoff(
            f.failure_count,
            w.max_validation_failures,
            w.validation_cooldown_secs,
        )
    }

    /// A directory is announced: for the first time, or again after the minimum interval.
    pub open spec fn announces(self, k: Seq<char>, now: u64) -> bool {
        !self.announced.has(k) || media_notifier_common::seconds_since(
            now,
            self.announced.values[k],
        ) >= RE_NOTIFY_MIN_INTERVAL_SECS
    }

    /// The validation of a directory passed: its failures are forgotten, its overlay is
    /// refreshed, and the servers hear of it. Sonarr and Radarr hear of its first
    /// announcement only.
    pub open spec fn passed(self, w: InotifyWatcher, dir: Seq<char>, now: u64, at: u64) -> (
        WatchView,
        Seq<ActionView>,
    ) {
        let k = path::key(dir);
        let forgotten = WatchView { failed: self.failed.remove(k), ..self };
        let (fresh, refreshed) = forgotten.refresh(w, dir, at);
        let seen = fresh.announced.touch(k);
        let notes = if self.announces(k, now) {
            told_all(false, dir) + (if self.announced.has(k) {
                Seq::empty()
            } else {
                told(Server::Arr, false, dir)
            })
        } else {
            Seq::empty()
        };
        (
            WatchView {
                announced: if self.announces(k, now) {
                    seen.put(k, now)
                } else {
                    seen
                },
                pending: if self.pending.has(k) {
                    self.pending.put(
                        k,
                        PendingDirectory {
                            notified: true,
                            notified_at: Some(at),
                            ..self.pending.values[k]
                        },
                    )
                } else {
                    self.pending
                },
                ..fresh
            },
            seq![ActionView::ClearStuck(dir)] + refreshed + notes,
        )
    }

    /// The record of a directory after one more failure.
    pub open spec fn after_failure(self, k: Seq<char>, now: u64, wall: u64) -> FailedValidation {
        if self.failed.has(k) {
            FailedValidation {
                failure_count: (self.failed.values[k].failure_count + 1) as u32,
                last_attempt: now,
                ..self.failed.values[k]
            }
        } else {
            FailedValidation {
                last_attempt: now,
                failure_count: 1,
                first_seen: wall,
                last_milestone_logged: 0,
                escalated: false,
            }
        }
    }

    /// How many failures escalate a directory: fewer where it had been announced, since then
    /// its files were most likely taken away.
    pub open spec fn threshold(self, w: InotifyWatcher, k: Seq<char>) -> u32 {
        if self.announced.has(k) {
            w.regression_threshold
        } else {
            w.escalation_threshold
        }
    }

    /// A directory with so many failures is reported as stuck.
    pub open spec fn reported(self, w: InotifyWatcher, k: Seq<char>, count: u32) -> bool {
        count >= w.max_validation_failures || (self.announced.has(k) && count
            >= w.regression_threshold)
    }

    /// The validation of a directory failed: one more failure, and a word about it where it
    /// is stuck. It is escalated once; before that it is warned about at milestones.
    pub open spec fn failed_once(self, w: InotifyWatcher, dir: Seq<char>, now: u64, wall: u64) -> (
        WatchView,
        Seq<ActionView>,
    ) {
        let k = path::key(dir);
        let f = self.after_failure(k, now, wall);
        let counted = self.failed.put(k, f);
        if !self.reported(w, k, f.failure_count) {
            (WatchView { failed: counted, ..self }, Seq::empty())
        } else if f.failure_count >= self.threshold(w, k) && !f.escalated {
            (
                WatchView {
                    failed: counted.put(
                        k,
                        FailedValidation {
                            escalated: true,
                            last_milestone_logged: f.failure_count,
                            ..f
                        },
                    ),
                    ..self
                },
                seq![
                    ActionView::Escalate(dir, f.failure_count, f.first_seen),
                    ActionView::RecordStuck(dir, f.failure_count, f.first_seen),
                ],
            )
        } else if !f.escalated && milestone(f.failure_count) > f.last_milestone_logged {
            (
                WatchView {
                    failed: counted.put(
                        k,
                        FailedValidation { last_milestone_logged: milestone(f.failure_count), ..f },
                    ),
                    ..self
                },
                seq![
                    ActionView::Warn(dir, f.failure_count, f.first_seen),
                    ActionView::RecordStuck(dir, f.failure_count, f.first_seen),
                ],
            )
        } else {
            (
                WatchView { failed: counted, ..self },
                seq![ActionView::RecordStuck(dir, f.failure_count, f.first_seen)],
            )
        }
    }
}

impl WatchState {
    pub open spec fn wf(&self) -> bool {
        self@.wf()
    }

    /// Empty tables.
    pub fn new(now: u64) -> (r: Self)
        ensures
            r.wf(),
            r@ == (WatchView {
                pending: LruView::empty(LRU_PENDING_DIRS_SIZE as nat),
                failed: LruView::empty(LRU_FAILED_VALIDATIONS_SIZE as nat),
                temp_logged: LruView::empty(LRU_TEMP_PATH_LOG_SIZE as nat),
                overlay_refreshed: LruView::empty(LRU_TEMP_PATH_LOG_SIZE as nat),
                announced: LruView::empty(LRU_PENDING_DIRS_SIZE as nat),
                last_cleanup: now,
            }),
    {
        WatchState {
            pending: LruMap::new(LRU_PENDING_DIRS_SIZE),
            failed: LruMap::new(LRU_FAILED_VALIDATIONS_SIZE),
            temp_logged: LruMap::new(LRU_TEMP_PATH_LOG_SIZE),
            overlay_refreshed: LruMap::new(LRU_TEMP_PATH_LOG_SIZE),
            announced: LruMap::new(LRU_PENDING_DIRS_SIZE),
            last_cleanup: now,
        }
    }

    /// The directories whose validation is due, most recently active first.
    pub fn ready_dirs(&self, w: &InotifyWatcher, now: u64) -> (r: Vec<String>)
        requires
            self.wf(),
        ensures
            text::views(r@) == keys_where(
                self@.pending,
                self@.pending.keys,
                |p: PendingDirectory| due(p, now, w.sfv_debounce_secs),
            ),
    {
        let keys = self.pending.keys();
        let ghost all = self@.pending.keys;
        let ghost wanted = |p: PendingDirectory| due(p, now, w.sfv_debounce_secs);
        let mut r: Vec<String> = Vec::new();
        let mut i: usize = 0;
        proof {
            assert(text::views(r@) =~= Seq::<Seq<char>>::empty());
            assert(all.take(0) =~= Seq::<Seq<char>>::empty());
        }
        while i < keys.len()
            invariant
                i <= keys@.len(),
                self.wf(),
                all == self@.pending.keys,
                text::views(keys@) == all,
                wanted == (|p: PendingDirectory| due(p, now, w.sfv_debounce_secs)),
                text::views(r@) == keys_where(self@.pending, all.take(i as int), wanted),
            decreases keys@.len() - i,
        {
            proof {
                assert(all[i as int] == keys@[i as int]@);
                assert(all.take(i + 1).drop_last() =~= all.take(i as int));
                assert(all.take(i + 1).last() == all[i as int]);
                assert(all.contains(all[i as int]));
            }
            match self.pending.peek(keys[i].as_str()) {
                Some(p) => {
                    if !p.notified && media_notifier_common::elapsed_secs(now, p.last_event)
                        >= w.sfv_debounce_secs {
                        media_notifier_common::push_text(&mut r, keys[i].as_str());
                    }
                },
                None => {},
            }
            i += 1;
        }
        proof {
            assert(all.take(i as int) =~= all);
        }
        r
    }

    /// Tests whether a directory still waits after its last failure.
    pub fn in_backoff(&mut self, w: &InotifyWatcher, dir: &PathName, now: u64) -> (r: bool)
        requires
            old(self).wf(),
        ensures
            final(self).wf(),
            final(self)@ == (WatchView {
                failed: old(self)@.failed.touch(path::key(dir@)),
                ..old(self)@
            }),
            r == old(self)@.waits(*w, path::key(dir@), now),
    {
        let k = dir.key();
        match self.failed.get(k.as_str()) {
            Some(f) => {
                let wait: u64 = backoff_secs(
                    f.failure_count,
                    w.max_validation_failures,
                    w.validation_cooldown_secs,
                );
                media_notifier_common::elapsed_secs(now, f.last_attempt) < wait
            },
            None => false,
        }
    }

    fn refresh_overlay(
        &mut self,
        w: &InotifyWatcher,
        source: &PathName,
        at: u64,
        actions: &mut Vec<Action>,
    )
        requires
            old(self).wf(),
        ensures
            final(self).wf(),
            final(self)@ == old(self)@.refresh(*w, source@, at).0,
            action_views(final(actions)@) == action_views(old(actions)@) + old(self)@.refresh(
                *w,
                source@,
                at,
            ).1,
    {
        let ghost before = self@;
        let merged = match &w.overlay_merged_path {
            Some(m) => m,
            None => {
                return;
            },
        };
        let rel = match source.strip_prefix(&w.verified_path) {
            Some(rel) => rel,
            None => {
                return;
            },
        };
        let k = source.key();
        let recently = match self.overlay_refreshed.get(k.as_str()) {
            Some(last) => media_notifier_common::elapsed_secs(at, *last)
                < OVERLAY_REFRESH_DEDUPE_SECS,
            None => false,
        };
        if recently {
            return;
        }
        self.overlay_refreshed.put(k, at);
        push_action(actions, Action::RefreshOverlay(merged.join(rel.as_str())));
        proof {
            assert(action_views(actions@) =~= action_views(old(actions)@) + before.refresh(
                *w,
                source@,
                at,
            ).1);
        }
    }

    /// Takes the news that the validation of a directory passed. `now` is the time of the
    /// round, `at` the present.
    pub fn validation_passed(&mut self, w: &InotifyWatcher, dir: &PathName, now: u64, at: u64) -> (
    r: Vec<Action>)
        requires
            old(self).wf(),
        ensures
            final(self).wf(),
            final(self)@ == old(self)@.passed(*w, dir@, now, at).0,
            action_views(r@) == old(self)@.passed(*w, dir@, now, at).1,
    {
        let k = dir.key();
        let ghost before = self@;
        let mut actions = no_actions();
        self.failed.pop(k.as_str());
        push_action(&mut actions, Action::ClearStuck(dir.clone()));
        self.refresh_overlay(w, dir, at, &mut actions);
        let ghost so_far = action_views(actions@);
        let (first, notify) = match self.announced.get(k.as_str()) {
            None => (true, true),
            Some(t) => (
                false,
                media_notifier_common::elapsed_secs(now, *t) >= RE_NOTIFY_MIN_INTERVAL_SECS,
            ),
        };
        if notify {
            self.announced.put(k.clone(), now);
            notify_all(&mut actions, dir, false);
            if first {
                notify_server(&mut actions, Server::Arr, dir, false);
            }
        }
        let found = match self.pending.peek(k.as_str()) {
            Some(p) => Some(*p),
            None => None,
        };
        if let Some(p) = found {
            let done = PendingDirectory {
                last_event: p.last_event,
                notified: true,
                notified_at: Some(at),
            };
            self.pending.put(k, done);
        }
        proof {
            let out = before.passed(*w, dir@, now, at);
            assert(action_views(actions@) =~= out.1);
            assert(self@ =~= out.0);
        }
        actions
    }

    /// Takes the news that the validation of a directory failed. `wall` is the wall clock.
    pub fn validation_failed(
        &mut self,
        w: &InotifyWatcher,
        dir: &PathName,
        now: u64,
        wall: u64,
    ) -> (r: Vec<Action>)
        requires
            old(self).wf(),
            old(self)@.failed.has(path::key(dir@)) ==> old(self)@.failed.values[path::key(
                dir@,
            )].failure_count < u32::MAX,
        ensures
            final(self).wf(),
            final(self)@ == old(self)@.failed_once(*w, dir@, now, wall).0,
            action_views(r@) == old(self)@.failed_once(*w, dir@, now, wall).1,
    {
        let k = dir.key();
        let ghost before = self@;
        let mut actions = no_actions();
        let f = match self.failed.peek(k.as_str()) {
            Some(f) => FailedValidation {
                last_attempt: now,
                failure_count: f.failure_count + 1,
                first_seen: f.first_seen,
                last_milestone_logged: f.last_milestone_logged,
                escalated: f.escalated,
            },
            None => FailedValidation {
                last_attempt: now,
                failure_count: 1,
                first_seen: wall,
                last_milestone_logged: 0,
                escalated: false,
            },
        };
        let count: u32 = f.failure_count;
        let known = self.announced.contains(k.as_str());
        self.failed.put(k.clone(), f);
        if count >= w.max_validation_failures || (known && count >= w.regression_threshold) {
            let threshold: u32 = if known {
                w.regression_threshold
            } else {
                w.escalation_threshold
            };
            if count >= threshold && !f.escalated {
                push_action(&mut actions, Action::Escalate(dir.clone(), count, f.first_seen));
                let loud = FailedValidation {
                    last_attempt: f.last_attempt,
                    failure_count: count,
                    first_seen: f.first_seen,
                    last_milestone_logged: count,
                    escalated: true,
                };
                self.failed.put(k, loud);
            } else if !f.escalated {
                let reached: u32 = sfv_failure_milestone(count);
                if reached > f.last_milestone_logged {
                    push_action(&mut actions, Action::Warn(dir.clone(), count, f.first_seen));
                    let warned = FailedValidation {
                        last_attempt: f.last_attempt,
                        failure_count: count,
                        first_seen: f.first_seen,
                        last_milestone_logged: reached,
                        escalated: false,
                    };
                    self.failed.put(k, warned);
                }
            }
            push_action(&mut actions, Action::RecordStuck(dir.clone(), count, f.first_seen));
        }
        proof {
            let out = before.failed_once(*w, dir@, now, wall);
            assert(action_views(actions@) =~= out.1);
            assert(self@ =~= out.0);
        }
        actions
    }

    /// How often a directory has failed in a row.
    pub fn failure_count(&self, dir: &PathName) -> (r: u32)
        ensures
            r == (if self@.failed.has(path::key(dir@)) {
                self@.failed.values[path::key(dir@)].failure_count
            } else {
                0
            }),
    {
        let k = dir.key();
        match self.failed.peek(k.as_str()) {
            Some(f) => f.failure_count,
            None => 0,
        }
    }
}

/// What a file event says.
#[derive(Debug, Clone, Copy, PartialEq, Eq, Structural)]
pub struct EventMask {
    pub is_dir: bool,
    pub create: bool,
    pub delete: bool,
    /// The watched directory itself is gone.
    pub delete_self: bool,
    pub moved_from: bool,
    pub moved_to: bool,
}

impl EventMask {
    /// Something appeared or vanished, as opposed to a change inside a file.
    pub open spec fn structural(self) -> bool {
        self.create || self.delete || self.moved_from || self.moved_to
    }

    pub open spec fn deletion(self) -> bool {
        self.delete || self.moved_from || self.delete_self
    }

    /// A directory appeared.
    pub open spec fn new_dir(self) -> bool {
        self.is_dir && (self.create || self.moved_to)
    }
}

/// How the handling of an event goes on.
#[derive(Debug, Clone, Copy, PartialEq, Eq, Structural)]
pub enum Next {
    /// Nothing more.
    Done,
    /// Watch the new directory, then finish.
    Watch,
    /// Finish.
    Finish,
}

/// What an event comes to.
#[derive(Debug)]
pub struct EventOutcome {
    /// The path of the event.
    pub path: PathName,
    pub actions: Vec<Action>,
    pub next: Next,
}

/// The path of an event: that of its watch, and the name below it where there is one.
pub open spec fn event_path(base: Seq<char>, name: Option<Seq<char>>) -> Seq<char> {
    match name {
        Some(n) => path::joined(base, n),
        None => base,
    }
}

/// The directory that an event is about.
pub open spec fn event_dir(full: Seq<char>, is_dir: bool) -> Seq<char> {
    if is_dir {
        full
    } else {
        match path::parent_of(full) {
            Some(p) => p,
            None => full,
        }
    }
}

/// A directory that has just had file activity.
pub open spec fn fresh_pending(at: u64) -> PendingDirectory {
    PendingDirectory { last_event: at, notified: false, notified_at: None }
}

impl WatchView {
    /// Something appeared in a directory of the verified layer: its failures are forgotten
    /// and its quiet time starts anew, unless it was announced a moment ago.
    pub open spec fn appeared(self, w: InotifyWatcher, k: Seq<char>, now: u64, at: u64) -> WatchView {
        let p = self.pending.values[k];
        WatchView {
            failed: self.failed.remove(k),
            pending: if !self.pending.has(k) {
                self.pending.put(k, fresh_pending(at))
            } else if !p.notified {
                self.pending.put(k, PendingDirectory { last_event: at, ..p })
            } else if p.notified_at matches Some(t) && media_notifier_common::seconds_since(now, t)
                >= w.revalidation_threshold_secs {
                self.pending.put(k, fresh_pending(at))
            } else {
                self.pending.touch(k)
            },
            ..self
        }
    }

    /// A directory leaves the tables.
    pub open spec fn forgotten(self, k: Seq<char>) -> WatchView {
        WatchView { pending: self.pending.remove(k), failed: self.failed.remove(k), ..self }
    }

    /// A temporary path is skipped, with a log line now and then.
    pub open spec fn skipped(self, full: Seq<char>, at: u64) -> (WatchView, Seq<ActionView>) {
        let k = path::key(full);
        let seen = self.temp_logged.touch(k);
        if !self.temp_logged.has(k) || media_notifier_common::seconds_since(
            at,
            self.temp_logged.values[k],
        ) >= TEMP_PATH_LOG_INTERVAL_SECS {
            (
                WatchView { temp_logged: seen.put(k, at), ..self },
                seq![ActionView::LogTemporary(full)],
            )
        } else {
            (WatchView { temp_logged: seen, ..self }, Seq::empty())
        }
    }

    /// What an event changes, and what the servers hear: in the verified layer new files
    /// wait for validation and deletions are told at once, but for companion files; in the
    /// unverified layer everything is told at once.
    pub open spec fn changed(
        self,
        w: InotifyWatcher,
        full: Seq<char>,
        m: EventMask,
        now: u64,
        at: u64,
    ) -> (WatchView, Seq<ActionView>) {
        let k = path::key(event_dir(full, m.is_dir));
        if !m.structural() {
            (self, Seq::empty())
        } else if !path::under(full, w.verified_path@) {
            (self, told_all(m.deletion(), full))
        } else if !m.deletion() {
            (self.appeared(w, k, now, at), Seq::empty())
        } else if sidecar(full) && !m.is_dir {
            (self, Seq::empty())
        } else {
            (
                self.forgotten(k),
                if m.is_dir {
                    Seq::empty()
                } else {
                    told_all(true, full)
                },
            )
        }
    }

    /// What an event comes to, up to the watching of a new directory.
    pub open spec fn arrived(
        self,
        w: InotifyWatcher,
        full: Seq<char>,
        m: EventMask,
        now: u64,
        at: u64,
    ) -> (WatchView, Seq<ActionView>, Next) {
        if temporary(full) {
            let (state, actions) = self.skipped(full, at);
            (state, actions, Next::Done)
        } else {
            let invalidated = seq![
                ActionView::Invalidate(
                    backend_path(
                        full,
                        w.verified_path@,
                        w.unverified_path@,
                        w.rar2fs_backend_path@,
                    ),
                ),
            ];
            let (fresh, refreshed) = match path::parent_of(full) {
                Some(p) => if path::under(full, w.verified_path@) {
                    self.refresh(w, p, at)
                } else {
                    (self, Seq::empty())
                },
                None => (self, Seq::empty()),
            };
            let (state, notes) = fresh.changed(w, full, m, now, at);
            let next = if !m.new_dir() {
                Next::Finish
            } else if excluded(text::views(w.exclude_dirs@), full) {
                Next::Done
            } else {
                Next::Watch
            };
            (state, invalidated + refreshed + notes, next)
        }
    }

    /// A new directory is being watched: where files came before the watch, it waits for
    /// validation too.
    pub open spec fn watched(
        self,
        w: InotifyWatcher,
        full: Seq<char>,
        has_sfv: bool,
        at: u64,
    ) -> WatchView {
        let k = path::key(full);
        if path::under(full, w.verified_path@) && has_sfv && !self.pending.has(k) {
            WatchView { pending: self.pending.put(k, fresh_pending(at)), ..self }
        } else {
            self
        }
    }

    /// The rest of an event: a directory that is gone leaves the tables, and the servers
    /// hear of it.
    pub open spec fn finished(self, full: Seq<char>, m: EventMask) -> (WatchView, Seq<ActionView>) {
        if m.delete_self {
            (self.forgotten(path::key(full)), seq![ActionView::Unwatch] + told_all(true, full))
        } else if m.delete && m.is_dir {
            (self.forgotten(path::key(full)), told_all(true, full))
        } else {
            (self, Seq::empty())
        }
    }

    /// Events were lost: the tables start anew with the first `n` watched directories, as
    /// far as they lie in the verified layer and hold an SFV file.
    pub open spec fn recovered(
        self,
        w: InotifyWatcher,
        watched: Seq<(Seq<char>, bool)>,
        n: nat,
        at: u64,
    ) -> WatchView
        decreases n,
    {
        if n == 0 {
            WatchView { pending: self.pending.cleared(), failed: self.failed.cleared(), ..self }
        } else {
            let before = self.recovered(w, watched, (n - 1) as nat, at);
            let (p, has_sfv) = watched[n - 1];
            if path::under(p, w.verified_path@) && has_sfv {
                WatchView { pending: before.pending.put(path::key(p), fresh_pending(at)), ..before }
            } else {
                before
            }
        }
    }
}

/// The texts of some watched directories, each with whether it holds an SFV file.
pub open spec fn watched_views(v: Seq<(PathName, bool)>) -> Seq<(Seq<char>, bool)> {
    Seq::new(v.len(), |i: int| (v[i].0@, v[i].1))
}

impl WatchState {
    fn put_fresh(&mut self, k: String, at: u64)
        requires
            old(self).wf(),
        ensures
            final(self).wf(),
            final(self)@ == (WatchView {
                pending: old(self)@.pending.put(k@, fresh_pending(at)),
                ..old(self)@
            }),
    {
        self.pending.put(
            k,
            PendingDirectory { last_event: at, notified: false, notified_at: None },
        );
    }

    fn file_appeared(&mut self, w: &InotifyWatcher, k: String, now: u64, at: u64)
        requires
            old(self).wf(),
        ensures
            final(self).wf(),
            final(self)@ == old(self)@.appeared(*w, k@, now, at),
    {
        let ghost before = self@;
        self.failed.pop(k.as_str());
        let found = match self.pending.get(k.as_str()) {
            Some(p) => Some(*p),
            None => None,
        };
        match found {
            Some(p) => {
                if !p.notified {
                    self.pending.put(
                        k,
                        PendingDirectory {
                            last_event: at,
                            notified: p.notified,
                            notified_at: p.notified_at,
                        },
                    );
                    proof {
                        touch_then_put(before.pending, k@, PendingDirectory { last_event: at, ..p });
                    }
                } else if let Some(t) = p.notified_at {
                    if media_notifier_common::elapsed_secs(now, t) >= w.revalidation_threshold_secs {
                        self.put_fresh(k, at);
                        proof {
                            touch_then_put(before.pending, k@, fresh_pending(at));
                        }
                    }
                }
            },
            None => {
                self.put_fresh(k, at);
            },
        }
        proof {
            assert(self@ =~= before.appeared(*w, k@, now, at));
        }
    }

    fn forget(&mut self, k: &str)
        requires
            old(self).wf(),
        ensures
            final(self).wf(),
            final(self)@ == old(self)@.forgotten(k@),
    {
        self.pending.pop(k);
        self.failed.pop(k);
        proof {
            assert(self@ =~= old(self)@.forgotten(k@));
        }
    }

    fn skip_temporary(&mut self, full: &PathName, at: u64, actions: &mut Vec<Action>)
        requires
            old(self).wf(),
        ensures
            final(self).wf(),
            final(self)@ == old(self)@.skipped(full@, at).0,
            action_views(final(actions)@) == action_views(old(actions)@) + old(self)@.skipped(
                full@,
                at,
            ).1,
    {
        let ghost before = self@;
        let k = full.key();
        let log = match self.temp_logged.get(k.as_str()) {
            Some(last) => media_notifier_common::elapsed_secs(at, *last)
                >= TEMP_PATH_LOG_INTERVAL_SECS,
            None => true,
        };
        if log {
            push_action(actions, Action::LogTemporary(full.clone()));
            self.temp_logged.put(k, at);
        }
        proof {
            assert(action_views(actions@) =~= action_views(old(actions)@) + before.skipped(
                full@,
                at,
            ).1);
            assert(self@ =~= before.skipped(full@, at).0);
        }
    }

    fn apply_change(
        &mut self,
        w: &InotifyWatcher,
        full: &PathName,
        m: EventMask,
        now: u64,
        at: u64,
        actions: &mut Vec<Action>,
    )
        requires
            old(self).wf(),
        ensures
            final(self).wf(),
            final(self)@ == old(self)@.changed(*w, full@, m, now, at).0,
            action_views(final(actions)@) == action_views(old(actions)@) + old(self)@.changed(
                *w,
                full@,
                m,
                now,
                at,
            ).1,
    {
        let structural = m.create || m.delete || m.moved_from || m.moved_to;
        let deletion = m.delete || m.moved_from || m.delete_self;
        if !structural {
            return;
        }
        if !full.starts_with(&w.verified_path) {
            notify_all(actions, full, deletion);
            return;
        }
        let dir = if m.is_dir {
            full.clone()
        } else {
            match full.parent() {
                Some(p) => p,
                None => full.clone(),
            }
        };
        let k = dir.key();
        if !deletion {
            self.file_appeared(w, k, now, at);
        } else if is_sidecar_file(full) && !m.is_dir {
        } else {
            if !m.is_dir {
                notify_all(actions, full, true);
            }
            self.forget(k.as_str());
        }
    }

    /// Takes an event of a watched directory: `base` is its path, `name` the entry in it.
    pub fn event_arrived(
        &mut self,
        w: &InotifyWatcher,
        base: &PathName,
        name: Option<&str>,
        m: EventMask,
        now: u64,
        at: u64,
    ) -> (r: EventOutcome)
        requires
            old(self).wf(),
        ensures
            final(self).wf(),
            r.path@ == event_path(
                base@,
                match name {
                    Some(n) => Some(n@),
                    None => None,
                },
            ),
            final(self)@ == old(self)@.arrived(*w, r.path@, m, now, at).0,
            action_views(r.actions@) == old(self)@.arrived(*w, r.path@, m, now, at).1,
            r.next == old(self)@.arrived(*w, r.path@, m, now, at).2,
    {
        let ghost before = self@;
        let mut actions = no_actions();
        let full = match name {
            Some(n) => base.join(n),
            None => base.clone(),
        };
        if is_temporary_path(&full) {
            self.skip_temporary(&full, at, &mut actions);
            proof {
                assert(action_views(actions@) =~= before.skipped(full@, at).1);
            }
            return EventOutcome { path: full, actions, next: Next::Done };
        }
        let backend = translate_to_backend_path(
            &full,
            &w.verified_path,
            &w.unverified_path,
            &w.rar2fs_backend_path,
        );
        push_action(&mut actions, Action::Invalidate(backend));
        let ghost invalidated = action_views(actions@);
        if full.starts_with(&w.verified_path) {
            match full.parent() {
                Some(p) => {
                    self.refresh_overlay(w, &p, at, &mut actions);
                },
                None => {},
            }
        }
        let ghost fresh = self@;
        let ghost so_far = action_views(actions@);
        self.apply_change(w, &full, m, now, at, &mut actions);
        let next = if m.is_dir && (m.create || m.moved_to) {
            if is_excluded_dir(&w.exclude_dirs, &full) {
                Next::Done
            } else {
                Next::Watch
            }
        } else {
            Next::Finish
        };
        proof {
            let out = before.arrived(*w, full@, m, now, at);
            assert(invalidated =~= seq![
                ActionView::Invalidate(
                    backend_path(
                        full@,
                        w.verified_path@,
                        w.unverified_path@,
                        w.rar2fs_backend_path@,
                    ),
                ),
            ]);
            let (g, refreshed) = match path::parent_of(full@) {
                Some(p) => if path::under(full@, w.verified_path@) {
                    before.refresh(*w, p, at)
                } else {
                    (before, Seq::empty())
                },
                None => (before, Seq::empty()),
            };
            assert(g =~= fresh);
            assert(so_far =~= invalidated + refreshed);
            assert(action_views(actions@) =~= out.1);
        }
        EventOutcome { path: full, actions, next }
    }

    /// Takes the news that a new directory is being watched.
    pub fn directory_watched(
        &mut self,
        w: &InotifyWatcher,
        full: &PathName,
        has_sfv: bool,
        at: u64,
    )
        requires
            old(self).wf(),
        ensures
            final(self).wf(),
            final(self)@ == old(self)@.watched(*w, full@, has_sfv, at),
    {
        let k = full.key();
        if full.starts_with(&w.verified_path) && has_sfv && !self.pending.contains(k.as_str()) {
            self.put_fresh(k, at);
        }
    }

    /// Finishes an event.
    pub fn event_finished(&mut self, full: &PathName, m: EventMask) -> (r: Vec<Action>)
        requires
            old(self).wf(),
        ensures
            final(self).wf(),
            final(self)@ == old(self)@.finished(full@, m).0,
            action_views(r@) == old(self)@.finished(full@, m).1,
    {
        let mut actions = no_actions();
        if m.delete_self {
            push_action(&mut actions, Action::Unwatch);
            let k = full.key();
            self.forget(k.as_str());
            notify_all(&mut actions, full, true);
        } else if m.delete && m.is_dir {
            let k = full.key();
            self.forget(k.as_str());
            notify_all(&mut actions, full, true);
        }
        proof {
            assert(action_views(actions@) =~= old(self)@.finished(full@, m).1);
        }
        actions
    }

    /// Starts anew after events were lost. `watched` tells of every watched directory
    /// whether it holds an SFV file.
    pub fn recover_overflow(
        &mut self,
        w: &InotifyWatcher,
        watched: &Vec<(PathName, bool)>,
        at: u64,
    )
        requires
            old(self).wf(),
        ensures
            final(self).wf(),
            final(self)@ == old(self)@.recovered(*w, watched_views(watched@), watched@.len(), at),
    {
        let ghost before = self@;
        let ghost all = watched_views(watched@);
        self.pending.clear();
        self.failed.clear();
        let mut i: usize = 0;
        while i < watched.len()
            invariant
                i <= watched@.len(),
                self.wf(),
                all == watched_views(watched@),
                self@ == before.recovered(*w, all, i as nat, at),
            decreases watched@.len() - i,
        {
            let (p, has_sfv) = &watched[i];
            proof {
                assert(all[i as int] == (watched@[i as int].0@, watched@[i as int].1));
            }
            if p.starts_with(&w.verified_path) && *has_sfv {
                let k = p.key();
                self.put_fresh(k, at);
            }
            i += 1;
        }
    }
}

/// A key that has just been used keeps its place when its value is set.
proof fn touch_then_put<V>(m: LruView<V>, k: Seq<char>, v: V)
    requires
        m.wf(),
        m.has(k),
    ensures
        m.touch(k).put(k, v) == m.put(k, v),
{
    let t = m.touch(k);
    assert(m.keys.contains(k));
    assert(t.keys[0] == k);
    assert(t.keys.contains(k));
    lru_map::bounded_map_stays_bounded(m, k, v);
    let i = t.keys.index_of(k);
    assert(i == 0) by {
        assert(t.keys[i] == k);
        assert(t.keys.no_duplicates());
    }
    assert(t.keys.remove(0) =~= m.keys.remove(m.keys.index_of(k)));
    assert(t.put(k, v) =~= m.put(k, v));
}

/// A failure record that is too old to keep.
pub open spec fn failure_expired(f: FailedValidation, now: u64) -> bool {
    media_notifier_common::seconds_since(now, f.last_attempt) >= FAILURE_CLEANUP_THRESHOLD_SECS
}

/// A directory that was announced long enough ago.
pub open spec fn pending_expired(p: PendingDirectory, now: u64, cleanup_secs: u64) -> bool {
    p.notified && match p.notified_at {
        Some(t) => media_notifier_common::seconds_since(now, t) >= cleanup_secs,
        None => false,
    }
}

/// A temporary path that was logged long enough ago.
pub open spec fn log_expired(last: u64, at: u64) -> bool {
    media_notifier_common::seconds_since(at, last) >= TEMP_PATH_FORGET_SECS
}

impl WatchView {
    /// Once a minute, what is too old leaves the tables.
    pub open spec fn cleaned(self, w: InotifyWatcher, now: u64, at: u64) -> (
        WatchView,
        Seq<ActionView>,
    ) {
        if media_notifier_common::seconds_since(at, self.last_cleanup) < CLEANUP_INTERVAL_SECS {
            (self, Seq::empty())
        } else {
            let failures = keys_where(
                self.failed,
                self.failed.keys,
                |f: FailedValidation| failure_expired(f, now),
            );
            let done = keys_where(
                self.pending,
                self.pending.keys,
                |p: PendingDirectory| pending_expired(p, now, w.pending_cleanup_secs),
            );
            let logged = keys_where(
                self.temp_logged,
                self.temp_logged.keys,
                |last: u64| log_expired(last, at),
            );
            (
                WatchView {
                    failed: without(self.failed, failures),
                    pending: without(self.pending, done),
                    temp_logged: without(self.temp_logged, logged),
                    last_cleanup: at,
                    ..self
                },
                Seq::new(failures.len(), |i: int| ActionView::ClearStuck(failures[i])),
            )
        }
    }
}

fn remove_all<V>(m: &mut LruMap<V>, keys: &Vec<String>)
    requires
        old(m).wf(),
    ensures
        final(m).wf(),
        final(m)@ == without(old(m)@, text::views(keys@)),
{
    let ghost before = m@;
    let ghost all = text::views(keys@);
    let mut i: usize = 0;
    proof {
        assert(all.take(0) =~= Seq::<Seq<char>>::empty());
    }
    while i < keys.len()
        invariant
            i <= keys@.len(),
            m.wf(),
            all == text::views(keys@),
            m@ == without(before, all.take(i as int)),
        decreases keys@.len() - i,
    {
        proof {
            assert(all.take(i + 1).drop_last() =~= all.take(i as int));
            assert(all.take(i + 1).last() == keys@[i as int]@);
        }
        m.pop(keys[i].as_str());
        i += 1;
    }
    proof {
        assert(all.take(i as int) =~= all);
    }
}

impl WatchState {
    fn old_failures(&self, now: u64) -> (r: Vec<String>)
        requires
            self.wf(),
        ensures
            text::views(r@) == keys_where(
                self@.failed,
                self@.failed.keys,
                |f: FailedValidation| failure_expired(f, now),
            ),
    {
        let keys = self.failed.keys();
        let ghost all = self@.failed.keys;
        let ghost wanted = |f: FailedValidation| failure_expired(f, now);
        let mut r: Vec<String> = Vec::new();
        let mut i: usize = 0;
        proof {
            assert(text::views(r@) =~= Seq::<Seq<char>>::empty());
            assert(all.take(0) =~= Seq::<Seq<char>>::empty());
        }
        while i < keys.len()
            invariant
                i <= keys@.len(),
                self.wf(),
                all == self@.failed.keys,
                text::views(keys@) == all,
                wanted == (|f: FailedValidation| failure_expired(f, now)),
                text::views(r@) == keys_where(self@.failed, all.take(i as int), wanted),
            decreases keys@.len() - i,
        {
            proof {
                assert(all[i as int] == keys@[i as int]@);
                assert(all.take(i + 1).drop_last() =~= all.take(i as int));
                assert(all.take(i + 1).last() == all[i as int]);
                assert(all.contains(all[i as int]));
            }
            match self.failed.peek(keys[i].as_str()) {
                Some(f) => {
                    if media_notifier_common::elapsed_secs(now, f.last_attempt)
                        >= FAILURE_CLEANUP_THRESHOLD_SECS {
                        media_notifier_common::push_text(&mut r, keys[i].as_str());
                    }
                },
                None => {},
            }
            i += 1;
        }
        proof {
            assert(all.take(i as int) =~= all);
        }
        r
    }

    fn old_pending(&self, w: &InotifyWatcher, now: u64) -> (r: Vec<String>)
        requires
            self.wf(),
        ensures
            text::views(r@) == keys_where(
                self@.pending,
                self@.pending.keys,
                |p: PendingDirectory| pending_expired(p, now, w.pending_cleanup_secs),
            ),
    {
        let keys = self.pending.keys();
        let ghost all = self@.pending.keys;
        let ghost wanted = |p: PendingDirectory| pending_expired(p, now, w.pending_cleanup_secs);
        let mut r: Vec<String> = Vec::new();
        let mut i: usize = 0;
        proof {
            assert(text::views(r@) =~= Seq::<Seq<char>>::empty());
            assert(all.take(0) =~= Seq::<Seq<char>>::empty());
        }
        while i < keys.len()
            invariant
                i <= keys@.len(),
                self.wf(),
                all == self@.pending.keys,
                text::views(keys@) == all,
                wanted == (|p: PendingDirectory| pending_expired(p, now, w.pending_cleanup_secs)),
                text::views(r@) == keys_where(self@.pending, all.take(i as int), wanted),
            decreases keys@.len() - i,
        {
            proof {
                assert(all[i as int] == keys@[i as int]@);
                assert(all.take(i + 1).drop_last() =~= all.take(i as int));
                assert(all.take(i + 1).last() == all[i as int]);
                assert(all.contains(all[i as int]));
            }
            match self.pending.peek(keys[i].as_str()) {
                Some(p) => {
                    if p.notified {
                        if let Some(t) = p.notified_at {
                            if media_notifier_common::elapsed_secs(now, t)
                                >= w.pending_cleanup_secs {
                                media_notifier_common::push_text(&mut r, keys[i].as_str());
                            }
                        }
                    }
                },
                None => {},
            }
            i += 1;
        }
        proof {
            assert(all.take(i as int) =~= all);
        }
        r
    }

    fn old_logged(&self, at: u64) -> (r: Vec<String>)
        requires
            self.wf(),
        ensures
            text::views(r@) == keys_where(
                self@.temp_logged,
                self@.temp_logged.keys,
                |last: u64| log_expired(last, at),
            ),
    {
        let keys = self.temp_logged.keys();
        let ghost all = self@.temp_logged.keys;
        let ghost wanted = |last: u64| log_expired(last, at);
        let mut r: Vec<String> = Vec::new();
        let mut i: usize = 0;
        proof {
            assert(text::views(r@) =~= Seq::<Seq<char>>::empty());
            assert(all.take(0) =~= Seq::<Seq<char>>::empty());
        }
        while i < keys.len()
            invariant
                i <= keys@.len(),
                self.wf(),
                all == self@.temp_logged.keys,
                text::views(keys@) == all,
                wanted == (|last: u64| log_expired(last, at)),
                text::views(r@) == keys_where(self@.temp_logged, all.take(i as int), wanted),
            decreases keys@.len() - i,
        {
            proof {
                assert(all[i as int] == keys@[i as int]@);
                assert(all.take(i + 1).drop_last() =~= all.take(i as int));
                assert(all.take(i + 1).last() == all[i as int]);
                assert(all.contains(all[i as int]));
            }
            match self.temp_logged.peek(keys[i].as_str()) {
                Some(last) => {
                    if media_notifier_common::elapsed_secs(at, *last) >= TEMP_PATH_FORGET_SECS {
                        media_notifier_common::push_text(&mut r, keys[i].as_str());
                    }
                },
                None => {},
            }
            i += 1;
        }
        proof {
            assert(all.take(i as int) =~= all);
        }
        r
    }

    /// Takes what is too old out of the tables, once a minute.
    pub fn cleanup(&mut self, w: &InotifyWatcher, now: u64, at: u64) -> (r: Vec<Action>)
        requires
            old(self).wf(),
        ensures
            final(self).wf(),
            final(self)@ == old(self)@.cleaned(*w, now, at).0,
            action_views(r@) == old(self)@.cleaned(*w, now, at).1,
    {
        let mut actions = no_actions();
        if media_notifier_common::elapsed_secs(at, self.last_cleanup) < CLEANUP_INTERVAL_SECS {
            return actions;
        }
        let ghost before = self@;
        self.last_cleanup = at;
        let failures = self.old_failures(now);
        let done = self.old_pending(w, now);
        let logged = self.old_logged(at);
        remove_all(&mut self.failed, &failures);
        remove_all(&mut self.pending, &done);
        remove_all(&mut self.temp_logged, &logged);
        let mut i: usize = 0;
        while i < failures.len()
            invariant
                i <= failures@.len(),
                action_views(actions@) == Seq::new(
                    i as nat,
                    |j: int| ActionView::ClearStuck(text::views(failures@)[j]),
                ),
            decreases failures@.len() - i,
        {
            let ghost so_far = action_views(actions@);
            push_action(&mut actions, Action::ClearStuck(PathName::new(failures[i].as_str())));
            proof {
                assert(action_views(actions@) =~= Seq::new(
                    (i + 1) as nat,
                    |j: int| ActionView::ClearStuck(text::views(failures@)[j]),
                ));
            }
            i += 1;
        }
        proof {
            assert(action_views(actions@) =~= before.cleaned(*w, now, at).1);
            assert(self@ =~= before.cleaned(*w, now, at).0);
        }
        actions
    }
}

proof fn keys_where_holds<V>(m: LruView<V>, keys: Seq<Seq<char>>, wanted: spec_fn(V) -> bool)
    ensures
        forall|k: Seq<char>| #[trigger]
            keys_where(m, keys, wanted).contains(k) <==> keys.contains(k) && wanted(m.values[k]),
    decreases keys.len(),
{
    if keys.len() > 0 {
        let rest = keys.drop_last();
        keys_where_holds(m, rest, wanted);
        let before = keys_where(m, rest, wanted);
        let all = keys_where(m, keys, wanted);
        assert forall|k: Seq<char>| #[trigger] all.contains(k) <==> keys.contains(k) && wanted(
            m.values[k],
        ) by {
            if all.contains(k) {
                let i = choose|i: int| 0 <= i < all.len() && all[i] == k;
                if i < before.len() {
                    assert(before[i] == k);
                    assert(before.contains(k));
                    assert(rest.contains(k));
                    let j = choose|j: int| 0 <= j < rest.len() && rest[j] == k;
                    assert(keys[j] == k);
                } else {
                    assert(keys[keys.len() - 1] == k);
                }
            }
            if keys.contains(k) && wanted(m.values[k]) {
                let j = choose|j: int| 0 <= j < keys.len() && keys[j] == k;
                if j < rest.len() {
                    assert(rest[j] == k);
                    assert(rest.contains(k));
                    assert(before.contains(k));
                    let i = choose|i: int| 0 <= i < before.len() && before[i] == k;
                    assert(all[i] == k);
                } else {
                    assert(all[all.len() - 1] == k);
                }
            }
        }
    }
}

proof fn without_drops_those<V>(m: LruView<V>, keys: Seq<Seq<char>>)
    requires
        m.wf(),
    ensures
        without(m, keys).wf(),
        forall|k: Seq<char>| #[trigger]
            without(m, keys).has(k) <==> m.has(k) && !keys.contains(k),
        forall|k: Seq<char>| #[trigger]
            without(m, keys).has(k) ==> without(m, keys).values[k] == m.values[k],
    decreases keys.len(),
{
    if keys.len() > 0 {
        let rest = keys.drop_last();
        without_drops_those(m, rest);
        let before = without(m, rest);
        let any: V = arbitrary();
        lru_map::bounded_map_stays_bounded(before, keys.last(), any);
        let after = without(m, keys);
        assert forall|k: Seq<char>| #[trigger] after.has(k) <==> m.has(k) && !keys.contains(k) by {
            assert(before.has(k) <==> m.has(k) && !rest.contains(k));
            assert(keys[keys.len() - 1] == keys.last());
            if keys.contains(k) && k != keys.last() {
                let j = choose|j: int| 0 <= j < keys.len() && keys[j] == k;
                assert(rest[j] == k);
            }
            if rest.contains(k) {
                let j = choose|j: int| 0 <= j < rest.len() && rest[j] == k;
                assert(keys[j] == k);
            }
        }
        assert forall|k: Seq<char>| #[trigger] after.has(k) implies after.values[k]
            == m.values[k] by {
            assert(before.has(k));
        }
    }
}

/// A cleanup keeps exactly the failure records and the waiting directories that are not too
/// old, as they are.
pub proof fn cleanup_drops_only_the_old(s: WatchView, w: InotifyWatcher, now: u64, at: u64, k: Seq<char>)
    requires
        s.wf(),
        media_notifier_common::seconds_since(at, s.last_cleanup) >= CLEANUP_INTERVAL_SECS,
    ensures
        s.cleaned(w, now, at).0.failed.has(k) <==> s.failed.has(k) && !failure_expired(
            s.failed.values[k],
            now,
        ),
        s.cleaned(w, now, at).0.failed.has(k) ==> s.cleaned(w, now, at).0.failed.values[k]
            == s.failed.values[k],
        s.cleaned(w, now, at).0.pending.has(k) <==> s.pending.has(k) && !pending_expired(
            s.pending.values[k],
            now,
            w.pending_cleanup_secs,
        ),
        s.cleaned(w, now, at).0.pending.has(k) ==> s.cleaned(w, now, at).0.pending.values[k]
            == s.pending.values[k],
        s.cleaned(w, now, at).0.announced == s.announced,
{
    let old_failure = |f: FailedValidation| failure_expired(f, now);
    let old_pending = |p: PendingDirectory| pending_expired(p, now, w.pending_cleanup_secs);
    keys_where_holds(s.failed, s.failed.keys, old_failure);
    keys_where_holds(s.pending, s.pending.keys, old_pending);
    without_drops_those(s.failed, keys_where(s.failed, s.failed.keys, old_failure));
    without_drops_those(s.pending, keys_where(s.pending, s.pending.keys, old_pending));
    assert(s.failed.has(k) <==> s.failed.keys.contains(k));
    assert(s.pending.has(k) <==> s.pending.keys.contains(k));
}

/// Sonarr and Radarr hear of a release when it is announced for the first time, and not again
/// while that announcement is remembered; the media servers hear of every announcement.
pub proof fn arr_hears_of_the_first_announcement_only(
    s: WatchView,
    w: InotifyWatcher,
    dir: Seq<char>,
    now: u64,
    at: u64,
)
    requires
        !temporary(dir),
    ensures
        s.passed(w, dir, now, at).1.contains(ActionView::Notify(Server::Arr, false, dir))
            <==> !s.announced.has(path::key(dir)),
        s.passed(w, dir, now, at).1.contains(ActionView::Notify(Server::Emby, false, dir))
            <==> s.announces(path::key(dir), now),
        s.passed(w, dir, now, at).1.contains(ActionView::Notify(Server::Jellyfin, false, dir))
            <==> s.announces(path::key(dir), now),
        s.passed(w, dir, now, at).1.contains(ActionView::Notify(Server::Plex, false, dir))
            <==> s.announces(path::key(dir), now),
{
    let k = path::key(dir);
    let forgotten = WatchView { failed: s.failed.remove(k), ..s };
    let refreshed = forgotten.refresh(w, dir, at).1;
    let out = s.passed(w, dir, now, at).1;
    let base: int = 1 + refreshed.len() as int;
    assert(refreshed.len() <= 1);
    assert(out[0] == ActionView::ClearStuck(dir));
    if refreshed.len() == 1 {
        assert(out[1] == refreshed[0]);
        assert(refreshed[0] is RefreshOverlay);
    }
    if s.announces(k, now) {
        assert(out[base] == ActionView::Notify(Server::Emby, false, dir));
        assert(out[base + 1] == ActionView::Notify(Server::Jellyfin, false, dir));
        assert(out[base + 2] == ActionView::Notify(Server::Plex, false, dir));
        if !s.announced.has(k) {
            assert(out[base + 3] == ActionView::Notify(Server::Arr, false, dir));
        }
    }
}

/// An announcement is remembered: when the directory passes again within the minimum
/// interval, no one hears of it.
pub proof fn announcements_are_rate_limited(
    s: WatchView,
    w: InotifyWatcher,
    dir: Seq<char>,
    now: u64,
    at: u64,
    later: u64,
    later_at: u64,
)
    requires
        s.wf(),
        s.announces(path::key(dir), now),
        now <= later,
        later - now < RE_NOTIFY_MIN_INTERVAL_SECS * 1_000_000_000,
    ensures
        s.passed(w, dir, now, at).0.announced.has(path::key(dir)),
        forall|i: int|
            0 <= i < s.passed(w, dir, now, at).0.passed(w, dir, later, later_at).1.len()
                ==> !((#[trigger] s.passed(w, dir, now, at).0.passed(
                w,
                dir,
                later,
                later_at,
            ).1[i]) is Notify),
{
    let k = path::key(dir);
    lru_map::bounded_map_stays_bounded(s.announced, k, now);
    lru_map::bounded_map_stays_bounded(s.announced.touch(k), k, now);
    let after = s.passed(w, dir, now, at).0;
    let forgotten = WatchView { failed: after.failed.remove(k), ..after };
    let refreshed = forgotten.refresh(w, dir, later_at).1;
    assert(!after.announces(k, later));
    assert(after.passed(w, dir, later, later_at).1 =~= seq![ActionView::ClearStuck(dir)]
        + refreshed);
    assert(refreshed.len() <= 1);
    assert(refreshed.len() == 1 ==> refreshed[0] is RefreshOverlay);
}

/// A passing validation and new file activity both forget the failures of a directory: the
/// next failure is its first.
pub proof fn success_and_activity_reset_the_failures(
    s: WatchView,
    w: InotifyWatcher,
    dir: Seq<char>,
    now: u64,
    at: u64,
    later: u64,
    wall: u64,
)
    requires
        s.wf(),
    ensures
        s.passed(w, dir, now, at).0.after_failure(path::key(dir), later, wall).failure_count == 1,
        s.appeared(w, path::key(dir), now, at).after_failure(
            path::key(dir),
            later,
            wall,
        ).failure_count == 1,
{
    let any: FailedValidation = arbitrary();
    lru_map::bounded_map_stays_bounded(s.failed, path::key(dir), any);
}

/// A release is escalated at most once: after that, its failures are only recorded.
pub proof fn escalation_happens_once(
    s: WatchView,
    w: InotifyWatcher,
    dir: Seq<char>,
    now: u64,
    wall: u64,
    later: u64,
    later_wall: u64,
)
    requires
        s.wf(),
        s.failed_once(w, dir, now, wall).1.contains(
            ActionView::Escalate(
                dir,
                s.after_failure(path::key(dir), now, wall).failure_count,
                s.after_failure(path::key(dir), now, wall).first_seen,
            ),
        ),
    ensures
        s.failed_once(w, dir, now, wall).0.failed.has(path::key(dir)),
        s.failed_once(w, dir, now, wall).0.failed.values[path::key(dir)].escalated,
        forall|i: int|
            0 <= i < s.failed_once(w, dir, now, wall).0.failed_once(
                w,
                dir,
                later,
                later_wall,
            ).1.len() ==> (#[trigger] s.failed_once(w, dir, now, wall).0.failed_once(
                w,
                dir,
                later,
                later_wall,
            ).1[i]) is RecordStuck,
{
    let k = path::key(dir);
    let f = s.after_failure(k, now, wall);
    let counted = s.failed.put(k, f);
    lru_map::bounded_map_stays_bounded(s.failed, k, f);
    let loud = FailedValidation { escalated: true, last_milestone_logged: f.failure_count, ..f };
    lru_map::bounded_map_stays_bounded(counted, k, loud);
}

/// A release that had been announced is escalated at the lower threshold, even where
/// warnings would begin later.
pub proof fn regressions_escalate_early(
    s: WatchView,
    w: InotifyWatcher,
    dir: Seq<char>,
    now: u64,
    wall: u64,
)
    requires
        s.announced.has(path::key(dir)),
        s.after_failure(path::key(dir), now, wall).failure_count >= w.regression_threshold,
        !s.after_failure(path::key(dir), now, wall).escalated,
    ensures
        s.failed_once(w, dir, now, wall).1[0] == ActionView::Escalate(
            dir,
            s.after_failure(path::key(dir), now, wall).failure_count,
            s.after_failure(path::key(dir), now, wall).first_seen,
        ),
{
}

/// The deletion of a companion file leaves the tables of validation alone, and no server
/// hears of it.
pub proof fn sidecar_deletions_are_ignored(
    s: WatchView,
    w: InotifyWatcher,
    full: Seq<char>,
    m: EventMask,
    now: u64,
    at: u64,
)
    requires
        sidecar(full),
        !m.is_dir,
        m.structural(),
        m.deletion(),
        path::under(full, w.verified_path@),
    ensures
        s.changed(w, full, m, now, at) == (s, Seq::<ActionView>::empty()),
{
}

/// No server ever hears of a temporary path.
pub proof fn temporary_paths_stay_silent(
    s: WatchView,
    w: InotifyWatcher,
    full: Seq<char>,
    m: EventMask,
    now: u64,
    at: u64,
    server: Server,
    deleted: bool,
)
    requires
        temporary(full),
    ensures
        !s.arrived(w, full, m, now, at).1.contains(ActionView::Notify(server, deleted, full)),
        s.arrived(w, full, m, now, at).0.pending == s.pending,
        !s.finished(full, m).1.contains(ActionView::Notify(server, deleted, full)),
        !s.passed(w, full, now, at).1.contains(ActionView::Notify(server, deleted, full)),
{
    assert(told_all(true, full) =~= Seq::empty());
    assert(told_all(false, full) =~= Seq::empty());
    let k = path::key(full);
    let forgotten = WatchView { failed: s.failed.remove(k), ..s };
    let refreshed = forgotten.refresh(w, full, at).1;
    assert(s.passed(w, full, now, at).1 =~= seq![ActionView::ClearStuck(full)] + refreshed);
}

/// A directory is not validated before it has been quiet for the whole debounce time.
pub proof fn activity_delays_validation(
    s: WatchView,
    w: InotifyWatcher,
    k: Seq<char>,
    now: u64,
    at: u64,
    later: u64,
)
    requires
        s.wf(),
        !s.pending.has(k) || !s.pending.values[k].notified,
        at <= later,
        later - at < w.sfv_debounce_secs * 1_000_000_000,
    ensures
        s.appeared(w, k, now, at).pending.has(k),
        !due(s.appeared(w, k, now, at).pending.values[k], later, w.sfv_debounce_secs),
{
    lru_map::bounded_map_stays_bounded(s.pending, k, fresh_pending(at));
    if s.pending.has(k) {
        let p = s.pending.values[k];
        lru_map::bounded_map_stays_bounded(s.pending, k, PendingDirectory { last_event: at, ..p });
    }
}

/// A second refresh of the same overlay directory within the window does nothing.
pub proof fn overlay_refreshes_coalesce(
    s: WatchView,
    w: InotifyWatcher,
    source: Seq<char>,
    at: u64,
    later: u64,
)
    requires
        s.wf(),
        at <= later,
        s.refresh(w, source, at).1.len() == 1,
        later - at < OVERLAY_REFRESH_DEDUPE_SECS * 1_000_000_000,
    ensures
        s.refresh(w, source, at).0.refresh(w, source, later).1.len() == 0,
{
    let k = path::key(source);
    lru_map::bounded_map_stays_bounded(s.overlay_refreshed, k, at);
    lru_map::bounded_map_stays_bounded(s.overlay_refreshed.touch(k), k, at);
}

/// A walk over a directory tree that adds watches: the directories still to visit, and how
/// many watches there are.
pub struct WatchWalk {
    /// The next directory to visit stands last.
    todo: Vec<(PathName, usize)>,
    count: usize,
    max_watches: usize,
}

/// The directories still to visit and how deep they lie.
pub open spec fn todo_views(v: Seq<(PathName, usize)>) -> Seq<(Seq<char>, usize)> {
    Seq::new(v.len(), |i: int| (v[i].0@, v[i].1))
}

/// The directories left to visit, from the first one on that may be watched.
pub open spec fn next_todo(todo: Seq<(Seq<char>, usize)>, count: int, max_watches: int) -> Seq<
    (Seq<char>, usize),
>
    decreases todo.len(),
{
    if todo.len() == 0 || (todo.last().1 < MAX_DEPTH && count < max_watches) {
        todo
    } else {
        next_todo(todo.drop_last(), count, max_watches)
    }
}

/// The subdirectories to visit, the first one last.
pub open spec fn children_todo(
    children: Seq<Seq<char>>,
    exclude_dirs: Seq<Seq<char>>,
    depth: usize,
) -> Seq<(Seq<char>, usize)>
    decreases children.len(),
{
    if children.len() == 0 {
        Seq::empty()
    } else {
        let rest = children_todo(children.drop_first(), exclude_dirs, depth);
        if excluded(exclude_dirs, children[0]) {
            rest
        } else {
            rest.push((children[0], depth))
        }
    }
}

impl WatchWalk {
    pub closed spec fn todo(&self) -> Seq<(Seq<char>, usize)> {
        todo_views(self.todo@)
    }

    pub closed spec fn count(&self) -> int {
        self.count as int
    }

    pub closed spec fn limit(&self) -> int {
        self.max_watches as int
    }

    /// No directory lies deeper than the limit.
    pub open spec fn wf(&self) -> bool {
        forall|i: int| 0 <= i < self.todo().len() ==> (#[trigger] self.todo()[i]).1 <= MAX_DEPTH
    }

    /// Starts at a directory, with so many watches there already.
    pub fn new(root: &PathName, count: usize, max_watches: usize) -> (r: Self)
        ensures
            r.wf(),
            r.todo() == seq![(root@, 0usize)],
            r.count() == count,
            r.limit() == max_watches,
    {
        let mut todo: Vec<(PathName, usize)> = Vec::new();
        todo.push((root.clone(), 0));
        let r = WatchWalk { todo, count, max_watches };
        proof {
            assert(r.todo() =~= seq![(root@, 0usize)]);
        }
        r
    }

    /// How many watches there are.
    pub fn watch_count(&self) -> (r: usize)
        ensures
            r == self.count(),
    {
        self.count
    }

    /// The next directory that may be watched and its depth; directories that lie too deep,
    /// or come when there are enough watches, are passed over.
    pub fn next(&mut self) -> (r: Option<(PathName, usize)>)
        requires
            old(self).wf(),
        ensures
            final(self).wf(),
            final(self).count() == old(self).count(),
            final(self).limit() == old(self).limit(),
            ({
                let left = next_todo(old(self).todo(), old(self).count(), old(self).limit());
                match r {
                    Some((p, depth)) => left.len() > 0 && left.last() == (p@, depth)
                        && final(self).todo() == left.drop_last() && depth < MAX_DEPTH
                        && old(self).count() < old(self).limit(),
                    None => left.len() == 0 && final(self).todo() == left,
                }
            }),
    {
        let ghost start = self.todo();
        loop
            invariant
                self.wf(),
                self.count() == old(self).count(),
                self.limit() == old(self).limit(),
                start == old(self).todo(),
                next_todo(self.todo(), self.count(), self.limit()) == next_todo(
                    start,
                    self.count(),
                    self.limit(),
                ),
            decreases self.todo().len(),
        {
            let ghost before = self.todo();
            match self.todo.pop() {
                Some((p, depth)) => {
                    proof {
                        assert(self.todo() =~= before.drop_last());
                        assert(before.last() == (p@, depth));
                        assert forall|i: int| 0 <= i < self.todo().len() implies (
                        #[trigger] self.todo()[i]).1 <= MAX_DEPTH by {
                            assert(self.todo()[i] == before[i]);
                        }
                    }
                    if depth < MAX_DEPTH && self.count < self.max_watches {
                        return Some((p, depth));
                    }
                },
                None => {
                    return None;
                },
            }
        }
    }

    /// Takes the news that a directory at the given depth is being watched; `children` are
    /// its subdirectories.
    pub fn added(&mut self, children: &Vec<PathName>, depth: usize, exclude_dirs: &Vec<String>)
        requires
            old(self).wf(),
            depth < MAX_DEPTH,
            old(self).count() < old(self).limit(),
        ensures
            final(self).wf(),
            final(self).count() == old(self).count() + 1,
            final(self).limit() == old(self).limit(),
            final(self).todo() == old(self).todo() + children_todo(
                path::path_views(children@),
                text::views(exclude_dirs@),
                (depth + 1) as usize,
            ),
    {
        let ghost start = self.todo();
        let ghost all = path::path_views(children@);
        let ghost ex = text::views(exclude_dirs@);
        self.count = self.count + 1;
        let mut i: usize = children.len();
        proof {
            assert(all.skip(i as int) =~= Seq::<Seq<char>>::empty());
            assert(self.todo() =~= start + children_todo(all.skip(i as int), ex, (depth + 1) as usize));
        }
        while i > 0
            invariant
                i <= children@.len(),
                depth < MAX_DEPTH,
                all == path::path_views(children@),
                ex == text::views(exclude_dirs@),
                self.wf(),
                self.count() == old(self).count() + 1,
                self.limit() == old(self).limit(),
                self.todo() == start + children_todo(
                    all.skip(i as int),
                    ex,
                    (depth + 1) as usize,
                ),
            decreases i,
        {
            i -= 1;
            let ghost before = self.todo();
            proof {
                assert(all.skip(i as int)[0] == children@[i as int]@);
                assert(all.skip(i as int).drop_first() =~= all.skip(i + 1));
            }
            if !is_excluded_dir(exclude_dirs, &children[i]) {
                let child = children[i].clone();
                self.todo.push((child, depth + 1));
                proof {
                    assert(self.todo() =~= before.push((all[i as int], (depth + 1) as usize)));
                    assert(before.push((all[i as int], (depth + 1) as usize)) =~= start
                        + children_todo(all.skip(i as int), ex, (depth + 1) as usize));
                    assert forall|j: int| 0 <= j < self.todo().len() implies (
                    #[trigger] self.todo()[j]).1 <= MAX_DEPTH by {
                        if j < before.len() {
                            assert(self.todo()[j] == before[j]);
                        }
                    }
                }
            }
        }
        proof {
            assert(all.skip(0) =~= all);
        }
    }
}

} // verus!
