//! The rar2fs process: how many walks over it may run at once, how it is started, and how a
//! running one is found.

use crate::config::Rar2fsConfig;
use crate::metrics::Counter;
use crate::metrics::MetricsCollector;
use crate::path::PathName;
use crate::text;
use vstd::prelude::*;
use vstd::string::*;

verus! {

broadcast use vstd::string::group_string_axioms;

/// Where rar2fs writes its errors, unless configured otherwise.
pub const RAR2FS_LOG_PATH: &'static str = "/mnt/cache/rargate/rar2fs.log";

/// How often the mount is looked for after the start, a tenth of a second apart.
pub const MOUNT_ATTEMPTS: u32 = 50;

/// Permits for walks over backend directories. A burst of walks can hang rar2fs, so only so
/// many may run at once.
pub struct RarFsLimiter {
    available: usize,
    held: usize,
    metered: bool,
}

/// The right to walk over a backend directory.
pub struct RarFsPermit {
    granted: (),
}

impl RarFsLimiter {
    /// The permits that nobody holds.
    pub closed spec fn free(&self) -> nat {
        self.available as nat
    }

    /// The permits that someone holds.
    pub closed spec fn taken(&self) -> nat {
        self.held as nat
    }

    /// All permits.
    pub open spec fn capacity(&self) -> nat {
        self.free() + self.taken()
    }

    /// Grants are counted.
    pub closed spec fn counts(&self) -> bool {
        self.metered
    }

    pub open spec fn wf(&self) -> bool {
        0 < self.capacity() <= usize::MAX
    }

    /// As many permits as asked for, but at least one.
    pub fn new(permits: usize) -> (r: Self)
        ensures
            r.wf(),
            r.taken() == 0,
            r.free() == (if permits == 0 {
                1
            } else {
                permits as int
            }),
            !r.counts(),
    {
        RarFsLimiter {
            available: if permits == 0 {
                1
            } else {
                permits
            },
            held: 0,
            metered: false,
        }
    }

    /// From now on grants are counted.
    pub fn set_metrics(&mut self)
        requires
            old(self).wf(),
        ensures
            final(self).wf(),
            final(self).counts(),
            final(self).free() == old(self).free(),
            final(self).taken() == old(self).taken(),
    {
        self.metered = true;
    }

    /// Grants a permit, where one is free; otherwise the caller waits for a release and asks
    /// again.
    pub fn acquire(&mut self) -> (r: Option<RarFsPermit>)
        requires
            old(self).wf(),
        ensures
            final(self).wf(),
            final(self).counts() == old(self).counts(),
            final(self).capacity() == old(self).capacity(),
            r is Some <==> old(self).free() > 0,
            final(self).free() == (if r is Some {
                old(self).free() - 1
            } else {
                old(self).free() as int
            }),
    {
        if self.available == 0 {
            return None;
        }
        self.available = self.available - 1;
        self.held = self.held + 1;
        Some(RarFsPermit { granted: () })
    }

    /// Takes a permit back.
    pub fn release(&mut self, permit: RarFsPermit)
        requires
            old(self).wf(),
            old(self).taken() > 0,
        ensures
            final(self).wf(),
            final(self).counts() == old(self).counts(),
            final(self).capacity() == old(self).capacity(),
            final(self).free() == old(self).free() + 1,
    {
        self.available = self.available + 1;
        self.held = self.held - 1;
    }

    /// Counts a grant, and the milliseconds waited for it where it was not granted at once.
    pub fn count_grant(&self, metrics: &mut MetricsCollector, waited_ms: Option<u64>)
        ensures
            final(metrics).stuck() == old(metrics).stuck(),
            final(metrics).start() == old(metrics).start(),
            final(metrics).inotify_watches == old(metrics).inotify_watches,
            forall|c: Counter| #[trigger]
                final(metrics).count(c) == old(metrics).count(c).wrapping_add(
                    if !self.counts() {
                        0
                    } else if c == Counter::LimiterTotal {
                        1
                    } else if waited_ms is Some && c == Counter::LimiterWaitMs {
                        waited_ms->0
                    } else if waited_ms is Some && c == Counter::LimiterBlocked {
                        1
                    } else {
                        0
                    },
                ),
    {
        if self.metered {
            metrics.bump(Counter::LimiterTotal, 1);
            if let Some(ms) = waited_ms {
                metrics.bump(Counter::LimiterBlocked, 1);
                metrics.bump(Counter::LimiterWaitMs, ms);
            }
        }
    }
}

/// Never more permits are held than the limiter has, and there is none to grant exactly when
/// all of them are held.
pub proof fn permits_are_capped(limiter: RarFsLimiter)
    ensures
        limiter.taken() <= limiter.capacity(),
        limiter.free() == 0 <==> limiter.taken() == limiter.capacity(),
{
}

/// One of the lines tells of a mount at the path.
pub open spec fn mounted_in(mounts: Seq<char>, p: Seq<char>) -> bool {
    let ls = text::lines(mounts);
    exists|i: int| 0 <= i < ls.len() && mounts_at(#[trigger] ls[i], p)
}

/// The second word of the line is the path.
pub open spec fn mounts_at(line: Seq<char>, p: Seq<char>) -> bool {
    text::words(line).len() >= 2 && text::words(line)[1] == p
}

/// Tests whether something is mounted at a path. `mounts` is the mount table, `None` where it
/// cannot be read.
pub fn is_mounted(mounts: Option<&str>, path: &PathName) -> (r: bool)
    ensures
        r == (mounts matches Some(m) && mounted_in(m@, path@)),
{
    let content = match mounts {
        Some(m) => text::chars_of(m),
        None => {
            return false;
        },
    };
    let p = text::chars_of(path.as_str());
    let ls = text::lines_of(&content);
    let ghost all = text::lines(content@);
    proof {
        assert(text::rows(ls@).len() == ls@.len());
    }
    let mut i: usize = 0;
    while i < ls.len()
        invariant
            i <= ls@.len(),
            mounts is Some,
            mounts->0@ == content@,
            p@ == path@,
            all == text::lines(content@),
            text::rows(ls@) == all,
            text::rows(ls@).len() == ls@.len(),
            forall|j: int| 0 <= j < i ==> !mounts_at(#[trigger] all[j], path@),
        decreases ls@.len() - i,
    {
        proof {
            assert(all[i as int] == ls@[i as int]@);
        }
        let words = text::words_of(&ls[i]);
        proof {
            assert(text::rows(words@).len() == words@.len());
        }
        if words.len() >= 2 {
            proof {
                assert(text::rows(words@)[1] == words@[1]@);
            }
            if text::same_chars(&words[1], &p) {
                return true;
            }
        }
        i += 1;
    }
    false
}

/// What is known of a process.
#[derive(Debug)]
pub struct ProcessEntry {
    /// The name of its directory in the process table.
    pub name: String,
    /// `None` where it cannot be read.
    pub status: Option<String>,
    /// The arguments, each ended by a zero; `None` where they cannot be read.
    pub cmdline: Option<String>,
}

/// One of the lines says that the process is a zombie.
pub open spec fn zombie(status: Seq<char>) -> bool {
    let ls = text::lines(status);
    exists|i: int| 0 <= i < ls.len() && zombie_line(#[trigger] ls[i])
}

pub open spec fn zombie_line(line: Seq<char>) -> bool {
    text::starts(line, "State:"@) && line.contains('Z')
}

fn is_zombie(status: &str) -> (r: bool)
    ensures
        r == zombie(status@),
{
    let content = text::chars_of(status);
    let mark = text::chars_of("State:");
    let ls = text::lines_of(&content);
    let ghost all = text::lines(content@);
    proof {
        assert(text::rows(ls@).len() == ls@.len());
    }
    let mut i: usize = 0;
    while i < ls.len()
        invariant
            i <= ls@.len(),
            content@ == status@,
            mark@ == "State:"@,
            all == text::lines(content@),
            text::rows(ls@) == all,
            text::rows(ls@).len() == ls@.len(),
            forall|j: int| 0 <= j < i ==> !zombie_line(#[trigger] all[j]),
        decreases ls@.len() - i,
    {
        proof {
            assert(all[i as int] == ls@[i as int]@);
            text::until_bounds(ls@[i as int]@, 'Z');
            assert(ls@[i as int]@.skip(0) =~= ls@[i as int]@);
        }
        let at: usize = text::find_char(&ls[i], 0, 'Z');
        proof {
            if at < ls@[i as int]@.len() {
                assert(ls@[i as int]@[at as int] == 'Z');
            }
        }
        if text::starts_with(&ls[i], &mark) && at < ls[i].len() {
            return true;
        }
        i += 1;
    }
    false
}

/// The number of the process, where it is a living rar2fs that serves the mount.
pub open spec fn rar2fs_pid(e: ProcessEntry, backend: Seq<char>) -> Option<int> {
    let alive = !(e.status matches Some(s) && zombie(s@));
    match e.cmdline {
        Some(c) => {
            let line = text::replace(c@, '\0', ' ');
            if text::all_digits(e.name@) && alive && (text::starts(line, "/usr/local/bin/rar2fs"@)
                || text::starts(line, "rar2fs "@)) && text::contains(line, backend) {
                text::number(e.name@, 10, u32::MAX as int)
            } else {
                None
            }
        },
        None => None,
    }
}

fn pid_of(e: &ProcessEntry, backend: &[char]) -> (r: Option<u32>)
    ensures
        match r {
            Some(n) => rar2fs_pid(*e, backend@) == Some(n as int),
            None => rar2fs_pid(*e, backend@) is None,
        },
{
    let name = text::chars_of(e.name.as_str());
    if !text::is_all_digits(&name) {
        return None;
    }
    if let Some(s) = &e.status {
        if is_zombie(s.as_str()) {
            return None;
        }
    }
    match &e.cmdline {
        Some(c) => {
            let raw = text::chars_of(c.as_str());
            let line = text::replaced(&raw, '\0', ' ');
            let full = text::chars_of("/usr/local/bin/rar2fs");
            let short = text::chars_of("rar2fs ");
            if (text::starts_with(&line, &full) || text::starts_with(&line, &short))
                && text::contains_chars(&line, backend) {
                match text::parse_decimal(&name, u32::MAX as u64) {
                    Some(n) => Some(n as u32),
                    None => None,
                }
            } else {
                None
            }
        },
        None => None,
    }
}

/// The first of some processes that is a living rar2fs for the mount.
pub open spec fn first_rar2fs(entries: Seq<ProcessEntry>, backend: Seq<char>) -> Option<int>
    decreases entries.len(),
{
    if entries.len() == 0 {
        None
    } else {
        match rar2fs_pid(entries[0], backend) {
            Some(n) => Some(n),
            None => first_rar2fs(entries.drop_first(), backend),
        }
    }
}

/// Finds the rar2fs process that serves a mount.
pub fn find_rar2fs_pid(entries: &Vec<ProcessEntry>, backend_path: &PathName) -> (r: Option<u32>)
    ensures
        match r {
            Some(n) => first_rar2fs(entries@, backend_path@) == Some(n as int),
            None => first_rar2fs(entries@, backend_path@) is None,
        },
{
    let backend = text::chars_of(backend_path.as_str());
    let mut i: usize = 0;
    proof {
        assert(entries@.skip(0) =~= entries@);
    }
    while i < entries.len()
        invariant
            i <= entries@.len(),
            backend@ == backend_path@,
            first_rar2fs(entries@.skip(i as int), backend_path@) == first_rar2fs(
                entries@,
                backend_path@,
            ),
        decreases entries@.len() - i,
    {
        proof {
            assert(entries@.skip(i as int)[0] == entries@[i as int]);
            assert(entries@.skip(i as int).drop_first() =~= entries@.skip(i + 1));
        }
        match pid_of(&entries[i], &backend) {
            Some(n) => {
                return Some(n);
            },
            None => {},
        }
        i += 1;
    }
    None
}

/// Where the backend is mounted: as configured, or in a directory named after the process.
pub fn backend_mount(config: &Rar2fsConfig, pid: u32) -> (r: PathName)
    ensures
        r@ == (match config.backend_mount {
            Some(p) => p@,
            None => "/tmp/rargate-rar2fs-backend-"@ + text::decimal(pid as nat),
        }),
{
    match &config.backend_mount {
        Some(p) => p.clone(),
        None => {
            let mut s = "/tmp/rargate-rar2fs-backend-".to_owned();
            s.append(text::decimal_of(pid as u64).as_str());
            PathName::new(s.as_str())
        },
    }
}

/// The program to start.
pub fn rar2fs_binary(config: &Rar2fsConfig) -> (r: String)
    ensures
        r@ == (match config.binary_path {
            Some(p) => p@,
            None => "/usr/local/bin/rar2fs"@,
        }),
{
    match &config.binary_path {
        Some(p) => p.clone(),
        None => "/usr/local/bin/rar2fs".to_owned(),
    }
}

/// The arguments of the program: the configured options, then the source and the mount.
pub fn rar2fs_arguments(config: &Rar2fsConfig, source: &PathName, backend: &PathName) -> (r: Vec<
    String,
>)
    ensures
        text::views(r@) == (match config.extra_options {
            Some(o) => text::words(o@),
            None => Seq::empty(),
        }).push(source@).push(backend@),
{
    let mut r: Vec<String> = Vec::new();
    proof {
        assert(text::views(r@) =~= Seq::<Seq<char>>::empty());
    }
    if let Some(o) = &config.extra_options {
        let t = text::chars_of(o.as_str());
        let words = text::words_of(&t);
        let ghost all = text::words(o@);
        let mut i: usize = 0;
        proof {
            assert(text::rows(words@).len() == words@.len());
            assert(all.take(0) =~= Seq::<Seq<char>>::empty());
        }
        while i < words.len()
            invariant
                i <= words@.len(),
                text::rows(words@) == all,
                text::rows(words@).len() == words@.len(),
                text::views(r@) == all.take(i as int),
            decreases words@.len() - i,
        {
            let w = text::text_of(&words[i]);
            proof {
                assert(all[i as int] == words@[i as int]@);
                assert(all.take(i + 1) =~= all.take(i as int).push(w@));
            }
            crate::media_notifier_common::push_text(&mut r, w.as_str());
            i += 1;
        }
        proof {
            assert(all.take(i as int) =~= all);
        }
    }
    crate::media_notifier_common::push_text(&mut r, source.as_str());
    crate::media_notifier_common::push_text(&mut r, backend.as_str());
    r
}

/// How the wait for a mount goes on.
#[derive(Debug, Clone, Copy, PartialEq, Eq, Structural)]
pub enum MountWait {
    Ready,
    /// Sleep for a tenth of a second, then look again.
    Sleep,
    TimedOut,
}

/// Whether to wait on for the mount, after so many sleeps.
pub fn wait_for_mount(mounted: bool, sleeps: u32) -> (r: MountWait)
    ensures
        r == (if mounted {
            MountWait::Ready
        } else if sleeps < MOUNT_ATTEMPTS {
            MountWait::Sleep
        } else {
            MountWait::TimedOut
        }),
{
    if mounted {
        MountWait::Ready
    } else if sleeps < MOUNT_ATTEMPTS {
        MountWait::Sleep
    } else {
        MountWait::TimedOut
    }
}

/// The rar2fs process that the mount rests on.
pub struct Rar2fsBackend {
    backend_path: PathName,
    rar2fs_pid: Option<u32>,
}

impl Rar2fsBackend {
    pub closed spec fn mount(&self) -> Seq<char> {
        self.backend_path@
    }

    pub closed spec fn worker(&self) -> Option<u32> {
        self.rar2fs_pid
    }

    /// A backend that was mounted before; its process may be unknown.
    pub fn found(backend_path: PathName, existing_pid: Option<u32>) -> (r: Self)
        ensures
            r.mount() == backend_path@,
            r.worker() == existing_pid,
    {
        Rar2fsBackend { backend_path, rar2fs_pid: existing_pid }
    }

    /// A backend that was just started. rar2fs goes to the background, so the process that
    /// works is the one that is found; where none is found, the one that was started.
    pub fn started(backend_path: PathName, started_pid: u32, found_pid: Option<u32>) -> (r: Self)
        ensures
            r.mount() == backend_path@,
            r.worker() == (match found_pid {
                Some(n) => Some(n),
                None => Some(started_pid),
            }),
    {
        let pid: u32 = match found_pid {
            Some(n) => n,
            None => started_pid,
        };
        Rar2fsBackend { backend_path, rar2fs_pid: Some(pid) }
    }

    /// Where the backend is mounted.
    pub fn path(&self) -> (r: &PathName)
        ensures
            r@ == self.mount(),
    {
        &self.backend_path
    }

    /// The process, where it is known.
    pub fn pid(&self) -> (r: Option<u32>)
        ensures
            r == self.worker(),
    {
        self.rar2fs_pid
    }
}

} // verus!
