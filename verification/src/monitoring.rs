//! The health of the mounts, notifications about it, and the resources that rar2fs uses.

use crate::config::NotificationConfig;
use crate::path::PathName;
use crate::text;
use vstd::prelude::*;
use vstd::string::*;

verus! {

broadcast use vstd::string::group_string_axioms;

/// The helper that shows notifications on Unraid. Absent on other systems.
pub const UNRAID_NOTIFY_BIN: &'static str = "/usr/local/emhttp/webGui/scripts/notify";

/// Where the resources of rar2fs are logged, unless configured otherwise.
pub const RAR2FS_RESOURCES_LOG: &'static str = "/mnt/cache/rargate/rar2fs-resources.log";

/// A mount that is watched.
#[derive(Debug, Clone, Copy, PartialEq, Eq, Structural)]
pub enum Mount {
    Backend,
    RarGate,
}

/// What a look at the mounts leads to.
#[derive(Debug)]
pub enum MonitorAction {
    /// Log an error.
    Alert(String),
    /// Show a notification: subject and description.
    Notify(String, String),
    /// Log that no more notifications follow until recovery; so many were shown.
    Suppressed(Mount, u32),
    /// Log that the mount is back after so many failures.
    Recovered(Mount, u32),
}

/// An action, with its texts as sequences.
pub enum MonitorActionView {
    Alert(Seq<char>),
    Notify(Seq<char>, Seq<char>),
    Suppressed(Mount, u32),
    Recovered(Mount, u32),
}

impl View for MonitorAction {
    type V = MonitorActionView;

    open spec fn view(&self) -> MonitorActionView {
        match self {
            MonitorAction::Alert(m) => MonitorActionView::Alert(m@),
            MonitorAction::Notify(s, d) => MonitorActionView::Notify(s@, d@),
            MonitorAction::Suppressed(m, n) => MonitorActionView::Suppressed(*m, *n),
            MonitorAction::Recovered(m, n) => MonitorActionView::Recovered(*m, *n),
        }
    }
}

pub open spec fn monitor_views(v: Seq<MonitorAction>) -> Seq<MonitorActionView> {
    Seq::new(v.len(), |i: int| v[i]@)
}

fn push_action(v: &mut Vec<MonitorAction>, a: MonitorAction)
    ensures
        monitor_views(final(v)@) == monitor_views(old(v)@).push(a@),
{
    let ghost before = v@;
    v.push(a);
    proof {
        assert(monitor_views(v@) =~= monitor_views(before).push(a@));
    }
}

/// The first line of an alert.
pub open spec fn alert_title(m: Mount) -> Seq<char> {
    match m {
        Mount::Backend => "🚨 ALERT: rar2fs backend mount lost!"@,
        Mount::RarGate => "🚨 ALERT: RARGate FUSE mount lost!"@,
    }
}

/// What to do about a lost mount.
pub open spec fn advice(m: Mount) -> Seq<char> {
    match m {
        Mount::Backend => "\nAction: Check rar2fs process and restart if needed"@,
        Mount::RarGate => "\nAction: Check RARGate process and restart if needed"@,
    }
}

pub open spec fn lost_subject(m: Mount) -> Seq<char> {
    match m {
        Mount::Backend => "rar2fs Backend Mount Lost"@,
        Mount::RarGate => "RARGate FUSE Mount Lost"@,
    }
}

pub open spec fn recovered_subject(m: Mount) -> Seq<char> {
    match m {
        Mount::Backend => "rar2fs Backend Recovered"@,
        Mount::RarGate => "RARGate Mount Recovered"@,
    }
}

/// The alert for the given failure in a row.
pub open spec fn alert_text(m: Mount, path: Seq<char>, time: Seq<char>, failure: nat) -> Seq<char> {
    alert_title(m) + "\nPath: "@ + path + "\nTime: "@ + time + "\nConsecutive failures: "@
        + text::decimal(failure) + advice(m)
}

/// The notification for the given failure in a row.
pub open spec fn lost_text(m: Mount, path: Seq<char>, failure: nat) -> Seq<char> {
    "Path: "@ + path + "\nFailure #"@ + text::decimal(failure) + advice(m)
}

/// The notification once a mount is back.
pub open spec fn recovered_text(path: Seq<char>, failures: nat) -> Seq<char> {
    "Path: "@ + path + "\nRecovered after "@ + text::decimal(failures) + " consecutive failures"@
}

/// What follows when a mount is found lost after `before` failures in a row: an alert, and a
/// notification as long as at most `limit` failures have been counted.
pub open spec fn loss(m: Mount, path: Seq<char>, before: nat, limit: u32, time: Seq<char>) -> Seq<
    MonitorActionView,
> {
    let failure = before + 1;
    let alert = seq![MonitorActionView::Alert(alert_text(m, path, time, failure))];
    if failure <= limit {
        alert.push(MonitorActionView::Notify(lost_subject(m), lost_text(m, path, failure)))
    } else if failure == limit + 1 {
        alert.push(MonitorActionView::Suppressed(m, limit))
    } else {
        alert
    }
}

/// What follows when a mount is found in place after `before` failures in a row.
pub open spec fn recovery(m: Mount, path: Seq<char>, before: u32) -> Seq<MonitorActionView> {
    if before > 0 {
        seq![
            MonitorActionView::Recovered(m, before),
            MonitorActionView::Notify(recovered_subject(m), recovered_text(path, before as nat)),
        ]
    } else {
        Seq::empty()
    }
}

/// What a look at one mount leads to.
pub open spec fn looked_at(
    m: Mount,
    path: Seq<char>,
    before: u32,
    limit: u32,
    mounted: bool,
    time: Seq<char>,
) -> Seq<MonitorActionView> {
    if mounted {
        recovery(m, path, before)
    } else {
        loss(m, path, before as nat, limit, time)
    }
}

fn alert_message(m: Mount, path: &PathName, time: &str, failure: u32) -> (r: String)
    ensures
        r@ == alert_text(m, path@, time@, failure as nat),
{
    let mut s = match m {
        Mount::Backend => "🚨 ALERT: rar2fs backend mount lost!".to_owned(),
        Mount::RarGate => "🚨 ALERT: RARGate FUSE mount lost!".to_owned(),
    };
    s.append("\nPath: ");
    s.append(path.as_str());
    s.append("\nTime: ");
    s.append(time);
    s.append("\nConsecutive failures: ");
    s.append(text::decimal_of(failure as u64).as_str());
    match m {
        Mount::Backend => s.append("\nAction: Check rar2fs process and restart if needed"),
        Mount::RarGate => s.append("\nAction: Check RARGate process and restart if needed"),
    }
    s
}

fn lost_message(m: Mount, path: &PathName, failure: u32) -> (r: String)
    ensures
        r@ == lost_text(m, path@, failure as nat),
{
    let mut s = "Path: ".to_owned();
    s.append(path.as_str());
    s.append("\nFailure #");
    s.append(text::decimal_of(failure as u64).as_str());
    match m {
        Mount::Backend => s.append("\nAction: Check rar2fs process and restart if needed"),
        Mount::RarGate => s.append("\nAction: Check RARGate process and restart if needed"),
    }
    s
}

/// Looks at one mount, and adds what follows to the actions.
fn look_at(
    m: Mount,
    path: &PathName,
    before: u32,
    limit: u32,
    mounted: bool,
    time: &str,
    actions: &mut Vec<MonitorAction>,
) -> (r: u32)
    requires
        mounted || before < u32::MAX,
    ensures
        r == (if mounted {
            0
        } else {
            before + 1
        }),
        monitor_views(final(actions)@) == monitor_views(old(actions)@) + looked_at(
            m,
            path@,
            before,
            limit,
            mounted,
            time@,
        ),
{
    let ghost start = monitor_views(actions@);
    let ghost wanted = looked_at(m, path@, before, limit, mounted, time@);
    if mounted {
        if before > 0 {
            push_action(actions, MonitorAction::Recovered(m, before));
            let subject = match m {
                Mount::Backend => "rar2fs Backend Recovered".to_owned(),
                Mount::RarGate => "RARGate Mount Recovered".to_owned(),
            };
            let mut s = "Path: ".to_owned();
            s.append(path.as_str());
            s.append("\nRecovered after ");
            s.append(text::decimal_of(before as u64).as_str());
            s.append(" consecutive failures");
            push_action(actions, MonitorAction::Notify(subject, s));
        }
        proof {
            assert(monitor_views(actions@) =~= start + wanted);
        }
        return 0;
    }
    let failure: u32 = before + 1;
    push_action(actions, MonitorAction::Alert(alert_message(m, path, time, failure)));
    if failure <= limit {
        let subject = match m {
            Mount::Backend => "rar2fs Backend Mount Lost".to_owned(),
            Mount::RarGate => "RARGate FUSE Mount Lost".to_owned(),
        };
        push_action(actions, MonitorAction::Notify(subject, lost_message(m, path, failure)));
    } else if failure == limit + 1 {
        push_action(actions, MonitorAction::Suppressed(m, limit));
    }
    proof {
        assert(monitor_views(actions@) =~= start + wanted);
    }
    failure
}

/// The watch over both mounts.
pub struct MountMonitor {
    backend_path: PathName,
    rargate_path: PathName,
    config: NotificationConfig,
    backend_failure_count: u32,
    rargate_failure_count: u32,
}

impl MountMonitor {
    /// Where a mount has to be.
    pub closed spec fn path(&self, m: Mount) -> Seq<char> {
        match m {
            Mount::Backend => self.backend_path@,
            Mount::RarGate => self.rargate_path@,
        }
    }

    /// How often in a row a mount was found lost.
    pub closed spec fn failures(&self, m: Mount) -> u32 {
        match m {
            Mount::Backend => self.backend_failure_count,
            Mount::RarGate => self.rargate_failure_count,
        }
    }

    pub closed spec fn settings(&self) -> NotificationConfig {
        self.config
    }

    /// How many failures in a row are shown as notifications.
    pub open spec fn limit(&self) -> u32 {
        match self.settings().max_consecutive_errors {
            Some(n) => n,
            None => 3,
        }
    }

    pub fn new(backend_path: PathName, rargate_path: PathName, config: NotificationConfig) -> (r:
        Self)
        ensures
            r.path(Mount::Backend) == backend_path@,
            r.path(Mount::RarGate) == rargate_path@,
            r.settings() == config,
            forall|m: Mount| #[trigger] r.failures(m) == 0,
    {
        MountMonitor {
            backend_path,
            rargate_path,
            config,
            backend_failure_count: 0,
            rargate_failure_count: 0,
        }
    }

    /// Seconds between two looks.
    pub fn check_interval(&self) -> (r: u64)
        ensures
            r == (match self.settings().check_interval {
                Some(n) => n,
                None => 300,
            }),
    {
        match self.config.check_interval {
            Some(n) => n,
            None => 300,
        }
    }

    /// How many failures in a row are shown as notifications.
    pub fn max_errors(&self) -> (r: u32)
        ensures
            r == self.limit(),
    {
        match self.config.max_consecutive_errors {
            Some(n) => n,
            None => 3,
        }
    }

    /// The failures of such a look can still be counted.
    pub open spec fn countable(&self, backend_mounted: bool, rargate_mounted: bool) -> bool {
        &&& backend_mounted || self.failures(Mount::Backend) < u32::MAX
        &&& rargate_mounted || self.failures(Mount::RarGate) < u32::MAX
    }

    /// Tests whether the failures of such a look can still be counted.
    pub fn can_count(&self, backend_mounted: bool, rargate_mounted: bool) -> (r: bool)
        ensures
            r == self.countable(backend_mounted, rargate_mounted),
    {
        (backend_mounted || self.backend_failure_count < u32::MAX) && (rargate_mounted
            || self.rargate_failure_count < u32::MAX)
    }

    /// Takes note of a look at both mounts; `time` is the time of the look as alerts give it.
    pub fn checked(&mut self, backend_mounted: bool, rargate_mounted: bool, time: &str) -> (r: Vec<
        MonitorAction,
    >)
        requires
            old(self).countable(backend_mounted, rargate_mounted),
        ensures
            final(self).settings() == old(self).settings(),
            forall|m: Mount| #[trigger] final(self).path(m) == old(self).path(m),
            final(self).failures(Mount::Backend) == (if backend_mounted {
                0
            } else {
                old(self).failures(Mount::Backend) + 1
            }),
            final(self).failures(Mount::RarGate) == (if rargate_mounted {
                0
            } else {
                old(self).failures(Mount::RarGate) + 1
            }),
            monitor_views(r@) == looked_at(
                Mount::Backend,
                old(self).path(Mount::Backend),
                old(self).failures(Mount::Backend),
                old(self).limit(),
                backend_mounted,
                time@,
            ) + looked_at(
                Mount::RarGate,
                old(self).path(Mount::RarGate),
                old(self).failures(Mount::RarGate),
                old(self).limit(),
                rargate_mounted,
                time@,
            ),
    {
        let limit: u32 = self.max_errors();
        let mut r: Vec<MonitorAction> = Vec::new();
        proof {
            assert(monitor_views(r@) =~= Seq::<MonitorActionView>::empty());
        }
        let ghost first = looked_at(
            Mount::Backend,
            self.backend_path@,
            self.backend_failure_count,
            limit,
            backend_mounted,
            time@,
        );
        self.backend_failure_count =
        look_at(
            Mount::Backend,
            &self.backend_path,
            self.backend_failure_count,
            limit,
            backend_mounted,
            time,
            &mut r,
        );
        proof {
            assert(Seq::<MonitorActionView>::empty() + first =~= first);
        }
        self.rargate_failure_count =
        look_at(
            Mount::RarGate,
            &self.rargate_path,
            self.rargate_failure_count,
            limit,
            rargate_mounted,
            time,
            &mut r,
        );
        r
    }
}

pub open spec fn notifies(actions: Seq<MonitorActionView>) -> bool {
    exists|i: int| 0 <= i < actions.len() && #[trigger] actions[i] is Notify
}

/// Of an outage, the first failures up to the limit are notified, and no later one; that
/// notifications stop is said at the first failure past the limit alone.
pub proof fn notifications_stop_at_the_limit(
    m: Mount,
    path: Seq<char>,
    before: nat,
    limit: u32,
    time: Seq<char>,
)
    ensures
        notifies(loss(m, path, before, limit, time)) <==> before < limit,
        loss(m, path, before, limit, time).contains(MonitorActionView::Suppressed(m, limit))
            <==> before == limit,
{
    let l = loss(m, path, before, limit, time);
    if before < limit {
        assert(l[1] is Notify);
    }
    if before == limit {
        assert(l[1] == MonitorActionView::Suppressed(m, limit));
    }
}

/// A mount that stays in place is not spoken of: a recovery is told once.
pub proof fn recovery_is_told_once(m: Mount, path: Seq<char>, before: u32)
    ensures
        notifies(recovery(m, path, before)) <==> before > 0,
        recovery(m, path, 0) == Seq::<MonitorActionView>::empty(),
{
    if before > 0 {
        assert(recovery(m, path, before)[1] is Notify);
    }
}

/// The helper that shows notifications: whether it is there, and whether it has failed.
#[derive(Debug, Clone, Copy, PartialEq, Eq, Structural)]
pub struct NotifyHelper {
    pub available: bool,
    pub degraded: bool,
}

impl NotifyHelper {
    pub fn new(available: bool) -> (r: Self)
        ensures
            r == (NotifyHelper { available, degraded: false }),
    {
        NotifyHelper { available, degraded: false }
    }

    /// Tests whether the helper is to be run.
    pub fn usable(&self) -> (r: bool)
        ensures
            r == (self.available && !self.degraded),
    {
        self.available && !self.degraded
    }

    /// Takes note of how a run ended: after one failure the helper is left alone.
    pub fn finished(&mut self, success: bool)
        ensures
            *final(self) == (NotifyHelper {
                available: old(self).available,
                degraded: old(self).degraded || !success,
            }),
    {
        if !success {
            self.degraded = true;
        }
    }
}

/// The arguments of the helper.
pub fn notify_arguments(subject: &str, description: &str) -> (r: Vec<String>)
    ensures
        text::views(r@) == seq![
            "-e"@,
            "RARGate"@,
            "-s"@,
            subject@,
            "-d"@,
            description@,
            "-i"@,
            "alert"@,
        ],
{
    let mut r: Vec<String> = Vec::new();
    proof {
        assert(text::views(r@) =~= Seq::<Seq<char>>::empty());
    }
    crate::media_notifier_common::push_text(&mut r, "-e");
    crate::media_notifier_common::push_text(&mut r, "RARGate");
    crate::media_notifier_common::push_text(&mut r, "-s");
    crate::media_notifier_common::push_text(&mut r, subject);
    crate::media_notifier_common::push_text(&mut r, "-d");
    crate::media_notifier_common::push_text(&mut r, description);
    crate::media_notifier_common::push_text(&mut r, "-i");
    crate::media_notifier_common::push_text(&mut r, "alert");
    r
}

/// The last of some lines that starts with a prefix.
pub open spec fn last_with(lines: Seq<Seq<char>>, prefix: Seq<char>) -> Option<Seq<char>>
    decreases lines.len(),
{
    if lines.len() == 0 {
        None
    } else if text::starts(lines.last(), prefix) {
        Some(lines.last())
    } else {
        last_with(lines.drop_last(), prefix)
    }
}

/// The second word of a line.
pub open spec fn second_word(line: Seq<char>) -> Option<Seq<char>> {
    let w = text::words(line);
    if w.len() >= 2 {
        Some(w[1])
    } else {
        None
    }
}

/// The number that the second word of a line states; 0 where it states none up to `max`.
pub open spec fn second_number(line: Seq<char>, max: int) -> int {
    match second_word(line) {
        Some(w) => match text::number(w, 10, max) {
            Some(n) => n,
            None => 0,
        },
        None => 0,
    }
}

/// What the last line with a prefix states as a number; 0 where there is none.
pub open spec fn stated(content: Seq<char>, prefix: Seq<char>, max: int) -> int {
    match last_with(text::lines(content), prefix) {
        Some(l) => second_number(l, max),
        None => 0,
    }
}

/// What the last line with a prefix states as a word; a question mark where there is none.
pub open spec fn stated_word(content: Seq<char>, prefix: Seq<char>) -> Seq<char> {
    match last_with(text::lines(content), prefix) {
        Some(l) => match second_word(l) {
            Some(w) => w,
            None => "?"@,
        },
        None => "?"@,
    }
}

fn second_word_of(line: &[char]) -> (r: Option<Vec<char>>)
    ensures
        match r {
            Some(w) => second_word(line@) == Some(w@),
            None => second_word(line@) is None,
        },
{
    let words = text::words_of(line);
    proof {
        assert(text::rows(words@).len() == words@.len());
    }
    if words.len() < 2 {
        return None;
    }
    proof {
        assert(text::rows(words@)[1] == words@[1]@);
    }
    Some(text::copy_range(&words[1], 0, words[1].len()))
}

fn second_number_of(line: &[char], max: u64) -> (r: u64)
    ensures
        r == second_number(line@, max as int),
{
    match second_word_of(line) {
        Some(w) => match text::parse_decimal(&w, max) {
            Some(n) => n,
            None => 0,
        },
        None => 0,
    }
}

/// Reads the number out of a line such as `VmRSS:     12345 kB`; 0 where there is none.
pub fn parse_kb_value(line: &str) -> (r: u64)
    ensures
        r == second_number(line@, u64::MAX as int),
{
    let t = text::chars_of(line);
    second_number_of(&t, u64::MAX)
}

/// Finds the last line with a prefix.
fn find_last_with(lines: &Vec<Vec<char>>, prefix: &str) -> (r: Option<usize>)
    ensures
        match r {
            Some(i) => i < lines@.len() && last_with(text::rows(lines@), prefix@) == Some(
                lines@[i as int]@,
            ),
            None => last_with(text::rows(lines@), prefix@) is None,
        },
{
    let p = text::chars_of(prefix);
    let ghost all = text::rows(lines@);
    let mut i: usize = lines.len();
    proof {
        assert(all.take(i as int) =~= all);
    }
    while i > 0
        invariant
            i <= lines@.len(),
            all == text::rows(lines@),
            all.len() == lines@.len(),
            p@ == prefix@,
            last_with(all, prefix@) == last_with(all.take(i as int), prefix@),
        decreases i,
    {
        i -= 1;
        proof {
            assert(all.take(i + 1).last() == lines@[i as int]@);
            assert(all.take(i + 1).drop_last() =~= all.take(i as int));
        }
        if text::starts_with(&lines[i], &p) {
            return Some(i);
        }
    }
    None
}

fn stated_in(lines: &Vec<Vec<char>>, prefix: &str, max: u64) -> (r: u64)
    ensures
        forall|content: Seq<char>|
            text::rows(lines@) == text::lines(content) ==> r == #[trigger] stated(
                content,
                prefix@,
                max as int,
            ),
        r <= max,
{
    match find_last_with(lines, prefix) {
        Some(i) => second_number_of(&lines[i], max),
        None => 0,
    }
}

/// The resources that a rar2fs process uses.
#[derive(Debug)]
pub struct Rar2fsStats {
    pub timestamp: String,
    pub pid: u32,
    pub fd_count: usize,
    pub vm_rss_kb: u64,
    pub vm_size_kb: u64,
    pub threads: u32,
    pub read_bytes: u64,
    pub write_bytes: u64,
    pub state: String,
}

/// Reads the resources of a process out of the texts of its status and its I/O counters.
pub fn collect_rar2fs_stats(
    pid: u32,
    timestamp: String,
    fd_count: usize,
    status: &str,
    io: &str,
) -> (r: Rar2fsStats)
    ensures
        r.timestamp@ == timestamp@,
        r.pid == pid,
        r.fd_count == fd_count,
        r.vm_rss_kb == stated(status@, "VmRSS:"@, u64::MAX as int),
        r.vm_size_kb == stated(status@, "VmSize:"@, u64::MAX as int),
        r.threads == stated(status@, "Threads:"@, u32::MAX as int),
        r.state@ == stated_word(status@, "State:"@),
        r.read_bytes == stated(io@, "read_bytes:"@, u64::MAX as int),
        r.write_bytes == stated(io@, "write_bytes:"@, u64::MAX as int),
{
    let status_chars = text::chars_of(status);
    let status_lines = text::lines_of(&status_chars);
    let io_chars = text::chars_of(io);
    let io_lines = text::lines_of(&io_chars);
    let state = match find_last_with(&status_lines, "State:") {
        Some(i) => match second_word_of(&status_lines[i]) {
            Some(w) => text::text_of(&w),
            None => "?".to_owned(),
        },
        None => "?".to_owned(),
    };
    let threads: u64 = stated_in(&status_lines, "Threads:", u32::MAX as u64);
    Rar2fsStats {
        timestamp,
        pid,
        fd_count,
        vm_rss_kb: stated_in(&status_lines, "VmRSS:", u64::MAX),
        vm_size_kb: stated_in(&status_lines, "VmSize:", u64::MAX),
        threads: threads as u32,
        read_bytes: stated_in(&io_lines, "read_bytes:", u64::MAX),
        write_bytes: stated_in(&io_lines, "write_bytes:", u64::MAX),
        state,
    }
}

/// The line of the resource log.
pub open spec fn stats_text(s: Rar2fsStats) -> Seq<char> {
    "["@ + s.timestamp@ + "] PID="@ + text::decimal(s.pid as nat) + " State="@ + s.state@
        + " FDs="@ + text::decimal(s.fd_count as nat) + " VmRSS="@ + text::decimal(
        s.vm_rss_kb as nat,
    ) + "KB VmSize="@ + text::decimal(s.vm_size_kb as nat) + "KB Threads="@ + text::decimal(
        s.threads as nat,
    ) + " ReadBytes="@ + text::decimal(s.read_bytes as nat) + " WriteBytes="@ + text::decimal(
        s.write_bytes as nat,
    ) + "\n"@
}

/// Writes the line of the resource log.
pub fn stats_line(stats: &Rar2fsStats) -> (r: String)
    ensures
        r@ == stats_text(*stats),
{
    let mut s = "[".to_owned();
    s.append(stats.timestamp.as_str());
    s.append("] PID=");
    s.append(text::decimal_of(stats.pid as u64).as_str());
    s.append(" State=");
    s.append(stats.state.as_str());
    s.append(" FDs=");
    s.append(text::decimal_of(stats.fd_count as u64).as_str());
    s.append(" VmRSS=");
    s.append(text::decimal_of(stats.vm_rss_kb).as_str());
    s.append("KB VmSize=");
    s.append(text::decimal_of(stats.vm_size_kb).as_str());
    s.append("KB Threads=");
    s.append(text::decimal_of(stats.threads as u64).as_str());
    s.append(" ReadBytes=");
    s.append(text::decimal_of(stats.read_bytes).as_str());
    s.append(" WriteBytes=");
    s.append(text::decimal_of(stats.write_bytes).as_str());
    s.append("\n");
    s
}

/// The process number on the first line of what `pgrep` printed.
pub open spec fn pgrep_pid(output: Seq<char>) -> Option<int> {
    let ls = text::lines(text::trim(output));
    if ls.len() == 0 {
        None
    } else {
        text::number(ls[0], 10, u32::MAX as int)
    }
}

/// Reads the number of the rar2fs process out of what `pgrep` printed; `None` stands for a
/// failed run.
pub fn find_rar2fs_pid_dynamic(output: Option<&str>) -> (r: Option<u32>)
    ensures
        match r {
            Some(n) => output is Some && pgrep_pid(output->0@) == Some(n as int),
            None => output is None || pgrep_pid(output->0@) is None,
        },
{
    match output {
        None => None,
        Some(o) => {
            let t = text::chars_of(o);
            let body = text::trimmed(&t);
            let ls = text::lines_of(&body);
            proof {
                assert(text::rows(ls@).len() == ls@.len());
            }
            if ls.len() == 0 {
                return None;
            }
            proof {
                assert(text::rows(ls@)[0] == ls@[0]@);
            }
            match text::parse_decimal(&ls[0], u32::MAX as u64) {
                Some(n) => Some(n as u32),
                None => None,
            }
        },
    }
}

} // verus!
