//! Log files that are kept under a size, and the settings handed on to shell scripts.

use crate::config::Config;
use crate::path;
use crate::path::PathName;
use crate::path_set;
use crate::text;
use vstd::prelude::*;
use vstd::string::*;

verus! {

broadcast use vstd::string::group_string_axioms;

pub const DEFAULT_LOG_FILE_PATH: &'static str = "/var/log/rargate.log";

/// Seconds between two looks at the sizes of the log files.
pub const LOG_CHECK_INTERVAL_SECS: u64 = 60;

pub const BYTES_PER_MB: u64 = 1048576;

/// Where the monitor script reads its settings.
pub const MONITOR_CONF: &'static str = "/var/run/rargate-monitor.conf";

/// A file that is kept under a size.
#[derive(Debug)]
pub struct CappedFile {
    pub path: PathName,
    pub max_bytes: u64,
}

/// The paths of capped files.
pub open spec fn capped_paths(files: Seq<(Seq<char>, u64)>) -> Seq<Seq<char>> {
    Seq::new(files.len(), |i: int| files[i].0)
}

/// Capped files, with their paths as texts.
pub open spec fn capped_views(files: Seq<CappedFile>) -> Seq<(Seq<char>, u64)> {
    Seq::new(files.len(), |i: int| (files[i].path@, files[i].max_bytes))
}

/// The capped files once a file has been registered. A cap of 0 means none, and a file that
/// is there keeps its cap.
pub open spec fn registered(
    files: Seq<(Seq<char>, u64)>,
    path: Seq<char>,
    max_size_mb: u64,
) -> Seq<(Seq<char>, u64)> {
    if max_size_mb == 0 || path_set::holds(capped_paths(files), path) {
        files
    } else {
        files.push((path, (max_size_mb * BYTES_PER_MB) as u64))
    }
}

/// Registers a file to be kept under a size. A size of 0 disables the cap: the file is not
/// registered.
pub fn register_capped_file(files: &mut Vec<CappedFile>, path: PathName, max_size_mb: u64)
    requires
        max_size_mb * BYTES_PER_MB <= u64::MAX,
    ensures
        capped_views(final(files)@) == registered(capped_views(old(files)@), path@, max_size_mb),
{
    if max_size_mb == 0 {
        return;
    }
    let ghost paths = capped_paths(capped_views(files@));
    let mut i: usize = 0;
    while i < files.len()
        invariant
            i <= files@.len(),
            paths == capped_paths(capped_views(files@)),
            paths.len() == files@.len(),
            forall|j: int|
                0 <= j < i ==> path::key(#[trigger] paths[j]) != path::key(path@),
        decreases files@.len() - i,
    {
        proof {
            assert(paths[i as int] == files@[i as int].path@);
            path::key_identifies_path(paths[i as int], path@);
        }
        if files[i].path.same(&path) {
            return;
        }
        i += 1;
    }
    let ghost before = files@;
    files.push(CappedFile { path, max_bytes: max_size_mb * BYTES_PER_MB });
    proof {
        assert(capped_views(files@) =~= capped_views(before).push(
            (path@, (max_size_mb * BYTES_PER_MB) as u64),
        ));
    }
}

/// No file is capped twice, whatever is registered.
pub proof fn each_file_is_capped_once(
    files: Seq<(Seq<char>, u64)>,
    path: Seq<char>,
    max_size_mb: u64,
)
    requires
        path_set::distinct(capped_paths(files)),
    ensures
        path_set::distinct(capped_paths(registered(files, path, max_size_mb))),
{
    let after = registered(files, path, max_size_mb);
    if after != files {
        assert(capped_paths(after) =~= capped_paths(files).push(path));
        let p = capped_paths(files);
        assert forall|i: int, j: int| 0 <= i < j < p.push(path).len() implies path::key(
            #[trigger] p.push(path)[i],
        ) != path::key(#[trigger] p.push(path)[j]) by {
            if j == p.len() {
                assert(p[i] == p.push(path)[i]);
            } else {
                assert(p[i] == p.push(path)[i] && p[j] == p.push(path)[j]);
            }
        }
    }
}

/// The bytes to keep of a file that has outgrown its size.
pub open spec fn target_size(max_size: u64) -> int {
    max_size * 80 / 100
}

/// How many of the last lines fit into so many bytes, each ended by a line feed.
pub open spec fn fitting_lines(lines: Seq<Seq<char>>, room: int) -> nat
    decreases lines.len(),
{
    if lines.len() == 0 || text::byte_len(lines.last()) + 1 > room {
        0
    } else {
        1 + fitting_lines(lines.drop_last(), room - text::byte_len(lines.last()) - 1)
    }
}

/// How many of the last lines are kept: as many as fit the target.
pub open spec fn lines_to_keep(content: Seq<char>, max_size: u64) -> int {
    fitting_lines(text::lines(content), target_size(max_size)) as int
}

/// Each line, ended by a line feed.
pub open spec fn with_line_feeds(lines: Seq<Seq<char>>) -> Seq<char>
    decreases lines.len(),
{
    if lines.len() == 0 {
        Seq::empty()
    } else {
        with_line_feeds(lines.drop_last()) + lines.last() + "\n"@
    }
}

/// What is kept of a log: the last lines.
pub open spec fn rotated(content: Seq<char>, max_size: u64) -> Seq<char> {
    let ls = text::lines(content);
    with_line_feeds(ls.skip(ls.len() - lines_to_keep(content, max_size)))
}

/// Tests whether a log has outgrown its size.
pub fn needs_truncation(size: u64, max_size: u64) -> (r: bool)
    ensures
        r == (size > max_size),
{
    size > max_size
}

/// A line feed takes one byte.
proof fn line_takes(line: Seq<char>)
    ensures
        text::byte_len(line + "\n"@) == text::byte_len(line) + 1,
{
    text::byte_len_adds(line, "\n"@);
    reveal_strlit("\n");
    assert("\n"@ =~= seq!['\n']);
    assert(vstd::utf8::is_ascii_chars(seq!['\n']));
    vstd::utf8::is_ascii_chars_encode_utf8(seq!['\n']);
}

/// The lines that fit take no more room than there is; with one more line they would.
proof fn fitting_lines_fill_the_room(lines: Seq<Seq<char>>, room: int)
    requires
        0 <= room,
    ensures
        fitting_lines(lines, room) <= lines.len(),
        text::byte_len(with_line_feeds(lines.skip(lines.len() - fitting_lines(lines, room))))
            <= room,
        fitting_lines(lines, room) < lines.len() ==> text::byte_len(
            with_line_feeds(lines.skip(lines.len() - fitting_lines(lines, room) - 1)),
        ) > room,
    decreases lines.len(),
{
    let k = fitting_lines(lines, room) as int;
    let n = lines.len() as int;
    if n == 0 {
        assert(lines.skip(0) =~= Seq::<Seq<char>>::empty());
    } else {
        let last = lines.last();
        let rest = lines.drop_last();
        if text::byte_len(last) + 1 > room {
            assert(lines.skip(n) =~= Seq::<Seq<char>>::empty());
            last_line_takes(lines, n - 1);
        } else {
            let left = room - text::byte_len(last) - 1;
            fitting_lines_fill_the_room(rest, left);
            last_line_takes(lines, n - k);
            if k < n {
                last_line_takes(lines, n - k - 1);
            }
        }
    }
}

/// The last of the lines from a position on takes its own bytes and a line feed.
proof fn last_line_takes(lines: Seq<Seq<char>>, from: int)
    requires
        0 <= from < lines.len(),
    ensures
        text::byte_len(with_line_feeds(lines.skip(from))) == text::byte_len(
            with_line_feeds(lines.drop_last().skip(from)),
        ) + text::byte_len(lines.last()) + 1,
{
    let s = lines.skip(from);
    let before = with_line_feeds(lines.drop_last().skip(from));
    assert(s.drop_last() =~= lines.drop_last().skip(from));
    assert(s.last() == lines.last());
    assert(with_line_feeds(s) =~= before + (lines.last() + "\n"@));
    text::byte_len_adds(before, lines.last() + "\n"@);
    line_takes(lines.last());
}

/// The position of the first of the last lines that fit into so many bytes.
fn first_fitting(lines: &Vec<Vec<char>>, target: u64) -> (r: usize)
    ensures
        r == lines@.len() - fitting_lines(text::rows(lines@), target as int),
{
    let ghost all = text::rows(lines@);
    let mut room: u64 = target;
    let mut start: usize = lines.len();
    proof {
        assert(all.take(start as int) =~= all);
    }
    while start > 0
        invariant
            start <= lines@.len(),
            all == text::rows(lines@),
            fitting_lines(all, target as int) == lines@.len() - start + fitting_lines(
                all.take(start as int),
                room as int,
            ),
        decreases start,
    {
        proof {
            assert(all.take(start as int).last() == lines@[start - 1]@);
            assert(all.take(start as int).drop_last() =~= all.take(start - 1));
        }
        let line = text::text_of(&lines[start - 1]);
        let bytes: u64 = text::byte_len_of(line.as_str()) as u64;
        if bytes >= room {
            return start;
        }
        room = room - bytes - 1;
        start -= 1;
    }
    start
}

/// What to write over a log that has outgrown its size: the last lines that fit into eighty
/// percent of the size. `None` where there is no line.
pub fn truncated_content(content: &str, max_size: u64) -> (r: Option<String>)
    requires
        max_size * 80 <= u64::MAX,
    ensures
        match r {
            Some(s) => content@.len() > 0 && s@ == rotated(content@, max_size) && text::byte_len(
                s@,
            ) <= target_size(max_size),
            None => content@.len() == 0,
        },
{
    let t = text::chars_of(content);
    let ls = text::lines_of(&t);
    let ghost all = text::lines(content@);
    proof {
        assert(text::rows(ls@).len() == ls@.len());
        text::lines_are_bounded(content@);
        fitting_lines_fill_the_room(all, target_size(max_size));
    }
    if ls.len() == 0 {
        return None;
    }
    let n: usize = ls.len();
    let target: u64 = max_size * 80 / 100;
    let start: usize = first_fitting(&ls, target);
    let ghost kept = all.skip(start as int);
    let mut r = String::new();
    let mut i: usize = start;
    proof {
        assert(kept.take(0) =~= Seq::<Seq<char>>::empty());
    }
    while i < n
        invariant
            start <= i <= n,
            n == ls@.len(),
            text::rows(ls@) == all,
            all.len() == ls@.len(),
            kept == all.skip(start as int),
            r@ == with_line_feeds(kept.take(i - start)),
        decreases n - i,
    {
        let line = text::text_of(&ls[i]);
        r.append(line.as_str());
        r.append("\n");
        proof {
            assert(kept[i - start] == ls@[i as int]@);
            assert(kept.take(i - start + 1).drop_last() =~= kept.take(i - start));
        }
        i += 1;
    }
    proof {
        assert(kept.take(n - start) =~= kept);
    }
    Some(r)
}

/// Of a log that is cut the last lines stay, as they are and in their order: those that fit
/// the target, and no line could be added to them.
pub proof fn the_newest_lines_stay(content: Seq<char>, max_size: u64)
    ensures
        0 <= lines_to_keep(content, max_size) <= text::lines(content).len(),
        rotated(content, max_size) == with_line_feeds(
            text::lines(content).skip(
                text::lines(content).len() - lines_to_keep(content, max_size),
            ),
        ),
        text::byte_len(rotated(content, max_size)) <= target_size(max_size) <= max_size,
        lines_to_keep(content, max_size) < text::lines(content).len() ==> text::byte_len(
            with_line_feeds(
                text::lines(content).skip(
                    text::lines(content).len() - lines_to_keep(content, max_size) - 1,
                ),
            ),
        ) > target_size(max_size),
{
    fitting_lines_fill_the_room(text::lines(content), target_size(max_size));
}

/// Where logs go: the file, the directory and the name in it.
#[derive(Debug)]
pub struct LogTarget {
    pub path: PathName,
    pub directory: PathName,
    pub file_name: String,
}

/// Finds where logs go, for a configured log file or none.
pub fn log_target(log_file: Option<PathName>) -> (r: LogTarget)
    ensures
        r.path@ == (match log_file {
            Some(p) => p@,
            None => DEFAULT_LOG_FILE_PATH@,
        }),
        r.directory@ == (match path::parent_of(r.path@) {
            Some(d) => d,
            None => "/var/log"@,
        }),
        r.file_name@ == (match path::file_name_of(r.path@) {
            Some(n) => n,
            None => "rargate.log"@,
        }),
{
    let path = match log_file {
        Some(p) => p,
        None => PathName::new(DEFAULT_LOG_FILE_PATH),
    };
    let directory = match path.parent() {
        Some(d) => d,
        None => PathName::new("/var/log"),
    };
    let file_name = match path.file_name() {
        Some(n) => text::text_of(&n),
        None => "rargate.log".to_owned(),
    };
    LogTarget { path, directory, file_name }
}

/// The filter of log lines, unless the environment sets one.
pub fn log_filter(debug: bool) -> (r: String)
    ensures
        r@ == (if debug {
            "rargate=debug"@
        } else {
            "rargate=info"@
        }),
{
    if debug {
        "rargate=debug".to_owned()
    } else {
        "rargate=info".to_owned()
    }
}

/// A setting, or its default.
pub open spec fn or_u32(n: Option<u32>, default: u32) -> u32 {
    match n {
        Some(n) => n,
        None => default,
    }
}

fn u32_or(n: Option<u32>, default: u32) -> (r: u32)
    ensures
        r == or_u32(n, default),
{
    match n {
        Some(n) => n,
        None => default,
    }
}

/// The settings of the monitor script, line by line.
pub open spec fn monitor_conf(c: Config) -> Seq<char> {
    let enabled = match c.crash_recovery {
        Some(r) => r.enabled != Some(false),
        None => true,
    };
    let (restart, attempts, reset) = match c.crash_recovery {
        Some(r) => (
            or_u32(r.restart_after_failures, 3),
            or_u32(r.max_restart_attempts, 5),
            or_u32(r.reset_after_minutes, 30),
        ),
        None => (3u32, 5u32, 30u32),
    };
    let notifications = match c.notifications {
        Some(n) => or_u32(n.max_consecutive_errors, 3),
        None => 3u32,
    };
    "# Generated by rargate at startup — DO NOT EDIT.\n# Source of truth is /etc/rargate/config.yaml.\nENABLE_AUTO_RESTART="@
        + (if enabled {
        "1"@
    } else {
        "0"@
    }) + "\nRESTART_AFTER_FAILURES="@ + text::decimal(restart as nat) + "\nMAX_RESTART_ATTEMPTS="@
        + text::decimal(attempts as nat) + "\nRESET_AFTER_MINUTES="@ + text::decimal(reset as nat)
        + "\nMAX_NOTIFICATIONS="@ + text::decimal(notifications as nat) + "\n"@
}

/// Writes the settings of the monitor script, so that it keeps the settings of the
/// configuration.
pub fn monitor_conf_text(config: &Config) -> (r: String)
    ensures
        r@ == monitor_conf(*config),
{
    let enabled = match &config.crash_recovery {
        Some(c) => match c.enabled {
            Some(b) => b,
            None => true,
        },
        None => true,
    };
    let (restart, attempts, reset): (u32, u32, u32) = match &config.crash_recovery {
        Some(c) => (
            u32_or(c.restart_after_failures, 3),
            u32_or(c.max_restart_attempts, 5),
            u32_or(c.reset_after_minutes, 30),
        ),
        None => (3, 5, 30),
    };
    let notifications: u32 = match &config.notifications {
        Some(n) => u32_or(n.max_consecutive_errors, 3),
        None => 3,
    };
    let mut s =
        "# Generated by rargate at startup — DO NOT EDIT.\n# Source of truth is /etc/rargate/config.yaml.\nENABLE_AUTO_RESTART=".to_owned();
    s.append(
        if enabled {
            "1"
        } else {
            "0"
        },
    );
    s.append("\nRESTART_AFTER_FAILURES=");
    s.append(text::decimal_of(restart as u64).as_str());
    s.append("\nMAX_RESTART_ATTEMPTS=");
    s.append(text::decimal_of(attempts as u64).as_str());
    s.append("\nRESET_AFTER_MINUTES=");
    s.append(text::decimal_of(reset as u64).as_str());
    s.append("\nMAX_NOTIFICATIONS=");
    s.append(text::decimal_of(notifications as u64).as_str());
    s.append("\n");
    s
}

/// The text of a path that may be missing.
pub open spec fn path_or(p: Option<PathName>, default: Seq<char>) -> Seq<char> {
    match p {
        Some(p) => p@,
        None => default,
    }
}

fn append_path(s: &mut String, p: Option<&PathName>)
    ensures
        final(s)@ == old(s)@ + (match p {
            Some(p) => p@,
            None => Seq::empty(),
        }),
{
    match p {
        Some(p) => s.append(p.as_str()),
        None => {
            proof {
                assert(s@ + Seq::<char>::empty() =~= s@);
            }
        },
    }
}

/// The log file of a configuration.
pub open spec fn log_file_of(c: Config) -> Option<PathName> {
    match c.logging {
        Some(l) => l.log_file,
        None => None,
    }
}

/// The log file for failed validations.
pub open spec fn sfv_log_file_of(c: Config) -> Option<PathName> {
    match c.sfv_validation {
        Some(l) => l.log_file,
        None => None,
    }
}

/// The lower, the upper and the merged directory of the overlay.
pub open spec fn overlay_of(c: Config) -> (Option<PathName>, Option<PathName>, Option<PathName>) {
    match c.overlay_reference {
        Some(o) => (
            Some(o.unverified_share_path),
            Some(o.verified_share_path),
            o.merged_directory,
        ),
        None => (None, None, None),
    }
}

/// Where core dumps go, and how many are kept.
pub open spec fn core_dumps_of(c: Config) -> (Seq<char>, u32) {
    match c.core_dumps {
        Some(d) => (path_or(d.directory, "/mnt/cache/rargate/cores"@), or_u32(d.keep, 5)),
        None => ("/mnt/cache/rargate/cores"@, 5),
    }
}

/// The paths handed on to scripts, line by line.
pub open spec fn paths_conf(c: Config) -> Seq<char> {
    let none = Seq::<char>::empty();
    let (lower, upper, merged) = overlay_of(c);
    let (directory, keep) = core_dumps_of(c);
    "# Generated by rargate at startup — DO NOT EDIT.\n# Source of truth is /etc/rargate/config.yaml.\n# Sourced by userscripts-startup.sh, userscripts-shutdown.sh, rargate-monitor.sh.\nRARGATE_MOUNT="@
        + c.mountpoint@ + "\nSOURCE="@ + c.source@ + "\nBACKEND_MOUNT="@ + path_or(
        c.rar2fs.backend_mount,
        none,
    ) + "\nRARGATE_LOG_FILE="@ + path_or(log_file_of(c), none) + "\nSFV_LOG_FILE="@ + path_or(
        sfv_log_file_of(c),
        none,
    ) + "\nOVERLAY_LOWER="@ + path_or(lower, none) + "\nOVERLAY_UPPER="@ + path_or(upper, none)
        + "\nOVERLAY_MERGED="@ + path_or(merged, none) + "\nCORE_DUMP_DIR="@ + directory
        + "\nCORE_DUMP_KEEP="@ + text::decimal(keep as nat) + "\n"@
}

/// Writes the paths that scripts read, so that they need not read the configuration.
pub fn paths_conf_text(config: &Config) -> (r: String)
    ensures
        r@ == paths_conf(*config),
{
    let mut s =
        "# Generated by rargate at startup — DO NOT EDIT.\n# Source of truth is /etc/rargate/config.yaml.\n# Sourced by userscripts-startup.sh, userscripts-shutdown.sh, rargate-monitor.sh.\nRARGATE_MOUNT=".to_owned();
    s.append(config.mountpoint.as_str());
    s.append("\nSOURCE=");
    s.append(config.source.as_str());
    s.append("\nBACKEND_MOUNT=");
    append_path(&mut s, config.rar2fs.backend_mount.as_ref());
    s.append("\nRARGATE_LOG_FILE=");
    append_path(
        &mut s,
        match &config.logging {
            Some(l) => l.log_file.as_ref(),
            None => None,
        },
    );
    s.append("\nSFV_LOG_FILE=");
    append_path(
        &mut s,
        match &config.sfv_validation {
            Some(l) => l.log_file.as_ref(),
            None => None,
        },
    );
    let (lower, upper, merged) = match &config.overlay_reference {
        Some(o) => (
            Some(&o.unverified_share_path),
            Some(&o.verified_share_path),
            o.merged_directory.as_ref(),
        ),
        None => (None, None, None),
    };
    s.append("\nOVERLAY_LOWER=");
    append_path(&mut s, lower);
    s.append("\nOVERLAY_UPPER=");
    append_path(&mut s, upper);
    s.append("\nOVERLAY_MERGED=");
    append_path(&mut s, merged);
    s.append("\nCORE_DUMP_DIR=");
    match &config.core_dumps {
        Some(d) => match &d.directory {
            Some(p) => s.append(p.as_str()),
            None => s.append("/mnt/cache/rargate/cores"),
        },
        None => s.append("/mnt/cache/rargate/cores"),
    }
    let keep: u32 = match &config.core_dumps {
        Some(d) => u32_or(d.keep, 5),
        None => 5,
    };
    s.append("\nCORE_DUMP_KEEP=");
    s.append(text::decimal_of(keep as u64).as_str());
    s.append("\n");
    s
}

/// The name of an instance: that of its configuration file, without the extension.
pub open spec fn instance_of(config_path: Seq<char>) -> Seq<char> {
    match path::file_name_of(config_path) {
        Some(name) => {
            let dot = text::last_index(name, '.');
            if dot <= 0 {
                name
            } else {
                name.take(dot)
            }
        },
        None => "config"@,
    }
}

/// The file that holds the paths of an instance.
pub open spec fn paths_conf_of(instance: Seq<char>) -> Seq<char> {
    if instance == "config"@ {
        "/var/run/rargate-paths.conf"@
    } else {
        "/var/run/rargate-paths-"@ + instance + ".conf"@
    }
}

/// Finds the file that holds the paths of the instance with a configuration file. The instance
/// of `config.yaml` has the plain name, every other one a file named after it.
pub fn paths_conf_file(config_path: &PathName) -> (r: PathName)
    ensures
        r@ == paths_conf_of(instance_of(config_path@)),
{
    let instance = match config_path.file_name() {
        Some(name) => match text::find_last_char(&name, '.') {
            Some(dot) => if dot == 0 {
                text::text_of(&name)
            } else {
                let stem = text::copy_range(&name, 0, dot);
                proof {
                    assert(stem@ =~= name@.take(dot as int));
                }
                text::text_of(&stem)
            },
            None => text::text_of(&name),
        },
        None => "config".to_owned(),
    };
    if text::same_text(instance.as_str(), "config") {
        PathName::new("/var/run/rargate-paths.conf")
    } else {
        let file = text::concat3("/var/run/rargate-paths-", instance.as_str(), ".conf");
        PathName::new(file.as_str())
    }
}

/// Two instances never share the file with their paths.
pub proof fn instances_have_their_own_paths(a: Seq<char>, b: Seq<char>)
    requires
        a != b,
    ensures
        paths_conf_of(a) != paths_conf_of(b),
{
    let head = "/var/run/rargate-paths-"@;
    let tail = ".conf"@;
    let plain = "/var/run/rargate-paths.conf"@;
    reveal_strlit("/var/run/rargate-paths-");
    reveal_strlit(".conf");
    reveal_strlit("/var/run/rargate-paths.conf");
    assert((head + a + tail)[22] == '-');
    assert((head + b + tail)[22] == '-');
    assert(plain[22] == '.');
    if head + a + tail == head + b + tail {
        assert((head + a + tail).len() == (head + b + tail).len());
        assert forall|i: int| 0 <= i < a.len() implies a[i] == b[i] by {
            assert((head + a + tail)[23 + i] == a[i]);
            assert((head + b + tail)[23 + i] == b[i]);
        }
        assert(a =~= b);
    }
}

} // verus!
