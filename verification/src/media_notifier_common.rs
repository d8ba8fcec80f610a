//! What the notifiers of all media servers share: events, path translation, caching,
//! retries and the collection of events into batches.

use crate::config::PathMappingConfig;
use crate::metrics::Counter;
use crate::metrics::MetricsCollector;
use crate::path;
use crate::path::PathName;
use crate::path_set;
use crate::path_set::PathSet;
use crate::text;
use vstd::prelude::*;
use vstd::string::*;

verus! {

broadcast use vstd::string::group_string_axioms;

/// The media extensions where the configuration names none.
pub open spec fn default_extensions() -> Seq<Seq<char>> {
    seq![
        "mkv"@,
        "mp4"@,
        "avi"@,
        "m4v"@,
        "mov"@,
        "wmv"@,
        "flv"@,
        "mpg"@,
        "mpeg"@,
        "mp3"@,
        "flac"@,
        "m4a"@,
        "wav"@,
        "aac"@,
        "ogg"@,
        "wma"@,
        "iso"@,
        "img"@,
        "bin"@,
        "cue"@,
    ]
}

/// Appends one string to a vector of strings.
pub(crate) fn push_text(v: &mut Vec<String>, s: &str)
    ensures
        text::views(final(v)@) == text::views(old(v)@).push(s@),
{
    let ghost before = v@;
    v.push(s.to_owned());
    proof {
        assert(text::views(v@) =~= text::views(before).push(s@));
    }
}

/// The media extensions where the configuration names none.
pub fn default_media_extensions() -> (r: Vec<String>)
    ensures
        text::views(r@) == default_extensions(),
{
    let mut v: Vec<String> = Vec::new();
    proof {
        assert(text::views(v@) =~= Seq::<Seq<char>>::empty());
    }
    push_text(&mut v, "mkv");
    push_text(&mut v, "mp4");
    push_text(&mut v, "avi");
    push_text(&mut v, "m4v");
    push_text(&mut v, "mov");
    push_text(&mut v, "wmv");
    push_text(&mut v, "flv");
    push_text(&mut v, "mpg");
    push_text(&mut v, "mpeg");
    push_text(&mut v, "mp3");
    push_text(&mut v, "flac");
    push_text(&mut v, "m4a");
    push_text(&mut v, "wav");
    push_text(&mut v, "aac");
    push_text(&mut v, "ogg");
    push_text(&mut v, "wma");
    push_text(&mut v, "iso");
    push_text(&mut v, "img");
    push_text(&mut v, "bin");
    push_text(&mut v, "cue");
    proof {
        assert(text::views(v@) =~= default_extensions());
    }
    v
}

/// Attempts after the first one, where the configuration names no number.
pub const DEFAULT_MAX_RETRIES: u32 = 3;

/// The first delay between attempts in milliseconds; it doubles each time.
pub const DEFAULT_RETRY_DELAY_MS: u64 = 1000;

/// How many events may wait between the watcher and a notifier.
pub const MEDIA_EVENT_CHANNEL_CAPACITY: usize = 1000;

/// One second, in the nanoseconds in which instants are counted.
pub const NANOS_PER_SEC: u64 = 1_000_000_000;

/// The whole seconds from `t` to `now`; zero where `t` lies ahead.
pub open spec fn seconds_since(now: u64, t: u64) -> int {
    if now >= t {
        (now - t) / 1_000_000_000
    } else {
        0
    }
}

pub fn elapsed_secs(now: u64, t: u64) -> (r: u64)
    ensures
        r == seconds_since(now, t),
{
    if now >= t {
        (now - t) / NANOS_PER_SEC
    } else {
        0
    }
}

/// A list that was fetched, and when.
pub struct CacheState<T> {
    items: Vec<T>,
    fetched_at: u64,
}

/// A list that stays valid for a while.
pub struct ItemCache<T> {
    state: Option<CacheState<T>>,
    ttl_secs: u64,
}

impl<T> ItemCache<T> {
    /// The list that is held and the instant at which it was fetched.
    pub closed spec fn held(&self) -> Option<(Seq<T>, u64)> {
        match self.state {
            Some(s) => Some((s.items@, s.fetched_at)),
            None => None,
        }
    }

    /// For how many seconds a list stays valid.
    pub closed spec fn ttl(&self) -> u64 {
        self.ttl_secs
    }

    /// The list that can be used at an instant.
    pub open spec fn usable(&self, now: u64) -> Option<Seq<T>> {
        match self.held() {
            Some((items, at)) => if seconds_since(now, at) < self.ttl() {
                Some(items)
            } else {
                None
            },
            None => None,
        }
    }

    pub fn new(cache_minutes: u64) -> (r: Self)
        requires
            cache_minutes * 60 <= u64::MAX,
        ensures
            r.held() is None,
            r.ttl() == cache_minutes * 60,
    {
        ItemCache { state: None, ttl_secs: cache_minutes * 60 }
    }

    /// The list that is held, while it is valid.
    pub fn get(&self, now: u64) -> (r: Option<&Vec<T>>)
        ensures
            match r {
                Some(v) => self.usable(now) == Some(v@),
                None => self.usable(now) is None,
            },
    {
        match &self.state {
            Some(s) => if elapsed_secs(now, s.fetched_at) < self.ttl_secs {
                Some(&s.items)
            } else {
                None
            },
            None => None,
        }
    }

    /// Holds a list that was just fetched.
    pub fn store(&mut self, items: Vec<T>, now: u64)
        ensures
            final(self).held() == Some((items@, now)),
            final(self).ttl() == old(self).ttl(),
    {
        self.state = Some(CacheState { items, fetched_at: now });
    }

    /// Drops the list, so that the next use fetches it anew.
    pub fn invalidate(&mut self)
        ensures
            final(self).held() is None,
            final(self).ttl() == old(self).ttl(),
    {
        self.state = None;
    }
}

/// A list is used again until its time is over, counted from when it was stored, and never
/// after it was invalidated.
pub proof fn stored_list_is_used_until_it_expires<T>(c: ItemCache<T>, items: Seq<T>, at: u64, now: u64)
    requires
        c.held() == Some((items, at)),
        at <= now,
    ensures
        c.usable(now) == (if now - at < c.ttl() * 1_000_000_000 {
            Some(items)
        } else {
            None
        }),
{
}

/// How a request to a server ended.
#[derive(Debug, Clone, Copy, PartialEq, Eq, Structural)]
pub enum Reply {
    Success,
    /// A 5xx status.
    ServerError,
    /// Any other status; asking again would not help.
    OtherStatus,
    /// No response at all.
    TransportError,
}

/// What to do after a reply.
#[derive(Debug, Clone, Copy, PartialEq, Eq, Structural)]
pub enum RetryStep {
    /// Hand the response on.
    Return,
    /// Wait so many milliseconds, then send the request again.
    Wait(u64),
    /// Every attempt has failed; so many were made.
    GiveUp(u32),
}

/// The power of two.
pub open spec fn doubled(n: nat) -> nat
    decreases n,
{
    if n == 0 {
        1
    } else {
        2 * doubled((n - 1) as nat)
    }
}

/// A request that is sent again after a server error or where no response came, with a
/// delay that doubles each time.
#[derive(Debug, Clone, Copy)]
pub struct Retry {
    /// Attempts that have failed.
    failed: u32,
    max_retries: u32,
    /// The delay before the next attempt; `None` where it is no number of 64 bits.
    next_delay_ms: Option<u64>,
    initial_delay_ms: u64,
}

impl Retry {
    pub closed spec fn failures(&self) -> u32 {
        self.failed
    }

    pub closed spec fn retries(&self) -> u32 {
        self.max_retries
    }

    pub closed spec fn first_delay(&self) -> u64 {
        self.initial_delay_ms
    }

    /// The delay before the next attempt.
    pub open spec fn delay(&self) -> int {
        self.first_delay() * doubled(self.failures() as nat)
    }

    /// A request that has not failed more often than it may.
    pub closed spec fn wf(&self) -> bool {
        &&& self.failed <= self.max_retries
        &&& match self.next_delay_ms {
            Some(ms) => ms == self.delay(),
            None => self.delay() > u64::MAX,
        }
    }

    /// The numbers that another failure calls for can be counted.
    pub open spec fn countable(&self) -> bool {
        if self.failures() < self.retries() {
            self.delay() <= u64::MAX
        } else {
            self.retries() < u32::MAX
        }
    }

    pub fn new(max_retries: u32, initial_delay_ms: u64) -> (r: Self)
        ensures
            r.wf(),
            r.failures() == 0,
            r.retries() == max_retries,
            r.first_delay() == initial_delay_ms,
    {
        proof {
            assert(doubled(0) == 1);
            assert(initial_delay_ms * doubled(0u32 as nat) == initial_delay_ms);
        }
        Retry {
            failed: 0,
            max_retries,
            next_delay_ms: Some(initial_delay_ms),
            initial_delay_ms,
        }
    }

    /// Tests whether the numbers that another failure calls for can be counted.
    pub fn can_count(&self) -> (r: bool)
        requires
            self.wf(),
        ensures
            r == self.countable(),
    {
        if self.failed < self.max_retries {
            self.next_delay_ms.is_some()
        } else {
            self.max_retries < u32::MAX
        }
    }

    /// What a reply calls for, after so many failed attempts.
    pub open spec fn answer(&self, reply: Reply) -> RetryStep {
        match reply {
            Reply::Success | Reply::OtherStatus => RetryStep::Return,
            Reply::ServerError | Reply::TransportError => if self.failures() < self.retries() {
                RetryStep::Wait(self.delay() as u64)
            } else {
                RetryStep::GiveUp((self.retries() + 1) as u32)
            },
        }
    }

    /// Takes the reply to an attempt and says what comes next.
    pub fn on_reply(&mut self, reply: Reply) -> (step: RetryStep)
        requires
            old(self).wf(),
            reply is ServerError || reply is TransportError ==> old(self).countable(),
        ensures
            final(self).wf(),
            final(self).retries() == old(self).retries(),
            final(self).first_delay() == old(self).first_delay(),
            step == old(self).answer(reply),
            final(self).failures() == (if step is Wait {
                old(self).failures() + 1
            } else {
                old(self).failures() as int
            }),
    {
        match reply {
            Reply::Success | Reply::OtherStatus => RetryStep::Return,
            Reply::ServerError | Reply::TransportError => {
                if self.failed < self.max_retries {
                    let delay: u64 = match self.next_delay_ms {
                        Some(ms) => ms,
                        None => 0,
                    };
                    proof {
                        let first = self.initial_delay_ms;
                        let d = doubled(self.failed as nat);
                        assert(doubled((self.failed + 1) as nat) == 2 * d);
                        assert(first * (2 * d) == 2 * (first * d)) by (nonlinear_arith);
                    }
                    self.failed = self.failed + 1;
                    self.next_delay_ms = delay.checked_mul(2);
                    RetryStep::Wait(delay)
                } else {
                    RetryStep::GiveUp(self.max_retries + 1)
                }
            },
        }
    }
}

/// Of two failures in a row, the second one is followed by a wait twice as long as the first.
pub proof fn each_wait_doubles(a: Retry, b: Retry, reply: Reply)
    requires
        a.failures() < a.retries(),
        b.failures() < b.retries(),
        b.first_delay() == a.first_delay(),
        b.failures() == a.failures() + 1,
        b.countable(),
        reply is ServerError || reply is TransportError,
    ensures
        a.answer(reply) matches RetryStep::Wait(first) && (b.answer(reply) matches RetryStep::Wait(
            second,
        ) && second == 2 * first),
{
    let first = a.first_delay();
    let d = doubled(a.failures() as nat);
    assert(doubled(b.failures() as nat) == 2 * d);
    assert(first * (2 * d) == 2 * (first * d)) by (nonlinear_arith);
    assert(first * d >= 0) by (nonlinear_arith)
        requires
            first >= 0,
            d >= 0,
    ;
}

/// A status that asking again would not mend, and a success, end a request at once; a
/// request is given up exactly when all its retries have failed.
pub proof fn a_request_is_given_up_after_its_retries(r: Retry, reply: Reply)
    ensures
        r.answer(reply) is Return <==> reply is Success || reply is OtherStatus,
        r.answer(reply) is GiveUp <==> (reply is ServerError || reply is TransportError)
            && r.failures() >= r.retries(),
{
}

/// What is reported when every attempt has failed.
pub open spec fn give_up_text(attempts: u32, what: Seq<char>, last_error: Seq<char>) -> Seq<char> {
    "All "@ + text::decimal(attempts as nat) + " retry attempts failed for "@ + what + ": "@
        + last_error
}

pub fn give_up_message(attempts: u32, description: &str, last_error: &str) -> (r: String)
    ensures
        r@ == give_up_text(attempts, description@, last_error@),
{
    let mut s = "All ".to_owned();
    s.append(text::decimal_of(attempts as u64).as_str());
    s.append(" retry attempts failed for ");
    s.append(description);
    s.append(": ");
    s.append(last_error);
    s
}

/// What the file system says of a path.
#[derive(Debug, Clone, Copy, PartialEq, Eq, Structural)]
pub struct PathProbe {
    pub exists: bool,
    /// It has a parent, and that exists.
    pub parent_exists: bool,
    pub is_dir: bool,
}

/// The paths among the first `n` that exist, or whose parent does.
pub open spec fn existing(paths: Seq<Seq<char>>, probes: Seq<PathProbe>, n: nat) -> Seq<Seq<char>>
    decreases n,
{
    if n == 0 {
        Seq::empty()
    } else {
        let before = existing(paths, probes, (n - 1) as nat);
        if probes[n - 1].exists || probes[n - 1].parent_exists {
            before.push(paths[n - 1])
        } else {
            before
        }
    }
}

/// The paths that exist, or whose parent does. `probes` tells of each path in turn.
pub fn filter_existing_paths(paths: &Vec<PathName>, probes: &Vec<PathProbe>) -> (r: Vec<PathName>)
    requires
        probes@.len() == paths@.len(),
    ensures
        path::path_views(r@) == existing(path::path_views(paths@), probes@, paths@.len()),
{
    let mut r: Vec<PathName> = Vec::new();
    let ghost all = path::path_views(paths@);
    let mut i: usize = 0;
    proof {
        assert(path::path_views(r@) =~= Seq::<Seq<char>>::empty());
    }
    while i < paths.len()
        invariant
            i <= paths@.len(),
            probes@.len() == paths@.len(),
            all == path::path_views(paths@),
            path::path_views(r@) == existing(all, probes@, i as nat),
        decreases paths@.len() - i,
    {
        let ghost before = r@;
        if probes[i].exists || probes[i].parent_exists {
            let p = paths[i].clone();
            r.push(p);
            proof {
                assert(path::path_views(r@) =~= path::path_views(before).push(all[i as int]));
            }
        }
        i += 1;
    }
    r
}

/// The parents of the paths that have one.
pub open spec fn parents(paths: Seq<Seq<char>>) -> Seq<Seq<char>>
    decreases paths.len(),
{
    if paths.len() == 0 {
        Seq::empty()
    } else {
        match path::parent_of(paths.last()) {
            Some(p) => parents(paths.drop_last()).push(p),
            None => parents(paths.drop_last()),
        }
    }
}

/// The parent directories of some paths, each once.
pub fn get_parent_dirs(paths: &Vec<PathName>) -> (r: PathSet)
    ensures
        r.wf(),
        r@ == path_set::unique(parents(path::path_views(paths@))),
{
    let mut r = PathSet::new();
    let ghost all = path::path_views(paths@);
    let mut i: usize = 0;
    proof {
        assert(all.take(0) =~= Seq::<Seq<char>>::empty());
    }
    while i < paths.len()
        invariant
            i <= paths@.len(),
            all == path::path_views(paths@),
            r.wf(),
            r@ == path_set::unique(parents(all.take(i as int))),
        decreases paths@.len() - i,
    {
        proof {
            let next = all.take(i + 1);
            assert(next.drop_last() =~= all.take(i as int));
            assert(next.last() == all[i as int]);
        }
        match paths[i].parent() {
            Some(p) => {
                proof {
                    let grown = parents(all.take(i as int)).push(p@);
                    assert(grown.drop_last() =~= parents(all.take(i as int)));
                    assert(parents(all.take(i + 1)) == grown);
                }
                r.insert(p);
            },
            None => {},
        }
        i += 1;
    }
    proof {
        assert(all.take(i as int) =~= all);
    }
    r
}

/// The directory to refresh for a path: the path itself where it is a directory, otherwise
/// its parent, where it has one.
pub open spec fn target_of(t: Seq<char>, is_dir: bool) -> Seq<char> {
    if is_dir {
        t
    } else {
        match path::parent_of(t) {
            Some(p) => p,
            None => t,
        }
    }
}

pub open spec fn targets(paths: Seq<Seq<char>>, probes: Seq<PathProbe>) -> Seq<Seq<char>> {
    Seq::new(paths.len(), |i: int| target_of(paths[i], probes[i].is_dir))
}

/// The directories to refresh for some paths, each once. `probes` tells of each path in turn.
pub fn get_target_dirs(paths: &Vec<PathName>, probes: &Vec<PathProbe>) -> (r: PathSet)
    requires
        probes@.len() == paths@.len(),
    ensures
        r.wf(),
        r@ == path_set::unique(targets(path::path_views(paths@), probes@)),
{
    let mut r = PathSet::new();
    let ghost all = targets(path::path_views(paths@), probes@);
    let mut i: usize = 0;
    proof {
        assert(all.take(0) =~= Seq::<Seq<char>>::empty());
    }
    while i < paths.len()
        invariant
            i <= paths@.len(),
            probes@.len() == paths@.len(),
            all == targets(path::path_views(paths@), probes@),
            r.wf(),
            r@ == path_set::unique(all.take(i as int)),
        decreases paths@.len() - i,
    {
        let target = if probes[i].is_dir {
            paths[i].clone()
        } else {
            match paths[i].parent() {
                Some(p) => p,
                None => paths[i].clone(),
            }
        };
        proof {
            let next = all.take(i + 1);
            assert(next.drop_last() =~= all.take(i as int));
            assert(next.last() == target@);
        }
        r.insert(target);
        i += 1;
    }
    proof {
        assert(all.take(i as int) =~= all);
    }
    r
}

/// The first of some prefixes that `t` lies under.
pub open spec fn first_prefix(t: Seq<char>, prefixes: Seq<Seq<char>>) -> Option<Seq<char>>
    decreases prefixes.len(),
{
    if prefixes.len() == 0 {
        None
    } else if path::under(t, prefixes[0]) {
        Some(prefixes[0])
    } else {
        first_prefix(t, prefixes.drop_first())
    }
}

/// The path that a container sees for a host path: the first host path that it lies under is
/// replaced by the container path; a path under none of them stays as it is.
pub open spec fn translated(t: Seq<char>, mapping: Option<PathMappingConfig>) -> Seq<char> {
    match mapping {
        Some(m) => {
            let many = match m.host_paths {
                Some(v) => first_prefix(t, path::path_views(v@)),
                None => None,
            };
            let prefix = if many is Some {
                many
            } else {
                match m.host_path {
                    Some(h) => if path::under(t, h@) {
                        Some(h@)
                    } else {
                        None
                    },
                    None => None,
                }
            };
            match prefix {
                Some(p) => match path::relative(t, p) {
                    Some(rel) => path::joined(m.emby_path@, rel),
                    None => t,
                },
                None => t,
            }
        },
        None => t,
    }
}

/// Translates a host path to the path that a container sees, in the same way for every server.
pub fn translate_path(
    host_path: &PathName,
    mapping: &Option<PathMappingConfig>,
    _server_name: &str,
) -> (r: PathName)
    ensures
        r@ == translated(host_path@, *mapping),
{
    if let Some(m) = mapping {
        if let Some(v) = &m.host_paths {
            let ghost all = path::path_views(v@);
            let mut i: usize = 0;
            proof {
                assert(all.skip(0) =~= all);
            }
            while i < v.len()
                invariant
                    i <= v@.len(),
                    *mapping == Some(*m),
                    m.host_paths == Some(*v),
                    all == path::path_views(v@),
                    first_prefix(host_path@, all.skip(i as int)) == first_prefix(host_path@, all),
                decreases v@.len() - i,
            {
                proof {
                    assert(all.skip(i as int)[0] == v@[i as int]@);
                    assert(all.skip(i as int).drop_first() =~= all.skip(i + 1));
                }
                match host_path.strip_prefix(&v[i]) {
                    Some(rel) => {
                        return m.emby_path.join(rel.as_str());
                    },
                    None => {},
                }
                i += 1;
            }
        }
        if let Some(h) = &m.host_path {
            match host_path.strip_prefix(h) {
                Some(rel) => {
                    return m.emby_path.join(rel.as_str());
                },
                None => {},
            }
        }
    }
    host_path.clone()
}

/// A path under the only host path keeps its place below the container path.
pub proof fn translation_keeps_the_place(m: PathMappingConfig, rel: Seq<char>)
    requires
        m.host_paths is None,
        m.host_path is Some,
        path::tidy(rel),
    ensures
        translated(path::joined(m.host_path->0@, rel), Some(m)) == path::joined(m.emby_path@, rel),
{
    path::join_then_strip(m.host_path->0@, rel);
}

/// A path below one of several host paths keeps its place below the container path, where no
/// host path named before it is a prefix too.
pub proof fn layers_share_the_container_path(m: PathMappingConfig, i: int, rel: Seq<char>)
    requires
        m.host_paths is Some,
        0 <= i < m.host_paths->0@.len(),
        path::tidy(rel),
        forall|j: int|
            0 <= j < i ==> !path::under(
                path::joined(path::path_views(m.host_paths->0@)[i], rel),
                #[trigger] path::path_views(m.host_paths->0@)[j],
            ),
    ensures
        translated(path::joined(path::path_views(m.host_paths->0@)[i], rel), Some(m))
            == path::joined(m.emby_path@, rel),
{
    let all = path::path_views(m.host_paths->0@);
    path::join_then_strip(all[i], rel);
    first_prefix_is_at(path::joined(all[i], rel), all, i);
}

proof fn first_prefix_is_at(t: Seq<char>, all: Seq<Seq<char>>, i: int)
    requires
        0 <= i < all.len(),
        path::under(t, all[i]),
        forall|j: int| 0 <= j < i ==> !path::under(t, #[trigger] all[j]),
    ensures
        first_prefix(t, all) == Some(all[i]),
    decreases i,
{
    if i > 0 {
        assert(!path::under(t, all[0]));
        let rest = all.drop_first();
        assert forall|j: int| 0 <= j < i - 1 implies !path::under(t, #[trigger] rest[j]) by {
            assert(rest[j] == all[j + 1]);
        }
        first_prefix_is_at(t, rest, i - 1);
    }
}

/// A change in the media library.
#[derive(Debug, Clone)]
pub enum MediaEvent {
    Created(PathName),
    Deleted(PathName),
}

impl MediaEvent {
    /// The text of the path that changed.
    pub open spec fn text(&self) -> Seq<char> {
        match self {
            MediaEvent::Created(p) => p@,
            MediaEvent::Deleted(p) => p@,
        }
    }

    pub fn path(&self) -> (r: &PathName)
        ensures
            r@ == self.text(),
    {
        match self {
            MediaEvent::Created(p) => p,
            MediaEvent::Deleted(p) => p,
        }
    }

    pub fn is_deletion(&self) -> (r: bool)
        ensures
            r == (self is Deleted),
    {
        match self {
            MediaEvent::Created(_) => false,
            MediaEvent::Deleted(_) => true,
        }
    }
}

/// Events that came in since the last batch, and when the next batch is due.
pub struct Debounce {
    created: PathSet,
    deleted: PathSet,
    deadline: Option<u64>,
    window: u64,
}

/// What a `Debounce` holds.
#[verifier::ext_equal]
pub struct DebounceView {
    pub created: Seq<Seq<char>>,
    pub deleted: Seq<Seq<char>>,
    pub deadline: Option<u64>,
    pub window: u64,
}

impl DebounceView {
    /// An event puts its path in and moves the deadline to the end of a whole window.
    pub open spec fn received(self, e: MediaEvent, now: u64) -> Self {
        DebounceView {
            created: if e is Created {
                path_set::with_path(self.created, e.text())
            } else {
                self.created
            },
            deleted: if e is Deleted {
                path_set::with_path(self.deleted, e.text())
            } else {
                self.deleted
            },
            deadline: Some((now + self.window) as u64),
            window: self.window,
        }
    }

    /// Nothing is held any more.
    pub open spec fn drained(self) -> Self {
        DebounceView {
            created: Seq::empty(),
            deleted: Seq::empty(),
            deadline: None,
            window: self.window,
        }
    }

    pub open spec fn is_empty(self) -> bool {
        self.created.len() == 0 && self.deleted.len() == 0
    }
}

/// A batch of paths for one server.
pub struct Batch {
    pub created: PathSet,
    pub deleted: PathSet,
}

impl View for Debounce {
    type V = DebounceView;

    closed spec fn view(&self) -> DebounceView {
        DebounceView {
            created: self.created@,
            deleted: self.deleted@,
            deadline: self.deadline,
            window: self.window,
        }
    }
}

impl Debounce {
    pub closed spec fn wf(&self) -> bool {
        self.created.wf() && self.deleted.wf()
    }

    /// Waits for `window` nanoseconds of quiet.
    pub fn new(window: u64) -> (r: Self)
        ensures
            r.wf(),
            r@ == (DebounceView {
                created: Seq::empty(),
                deleted: Seq::empty(),
                deadline: None,
                window,
            }),
    {
        let r = Debounce { created: PathSet::new(), deleted: PathSet::new(), deadline: None, window };
        proof {
            assert(r@ =~= (DebounceView {
                created: Seq::empty(),
                deleted: Seq::empty(),
                deadline: None,
                window,
            }));
        }
        r
    }

    /// When the next batch is due.
    pub fn deadline(&self) -> (r: Option<u64>)
        ensures
            r == self@.deadline,
    {
        self.deadline
    }

    /// Takes an event.
    pub fn receive(&mut self, event: MediaEvent, now: u64)
        requires
            old(self).wf(),
            now + old(self)@.window <= u64::MAX,
        ensures
            final(self).wf(),
            final(self)@ == old(self)@.received(event, now),
    {
        let ghost e = event;
        match event {
            MediaEvent::Created(p) => {
                self.created.insert(p);
            },
            MediaEvent::Deleted(p) => {
                self.deleted.insert(p);
            },
        }
        self.deadline = Some(now + self.window);
        proof {
            assert(self@ =~= old(self)@.received(e, now));
        }
    }

    /// Hands out what was collected, once the deadline has passed; nothing where there is
    /// nothing.
    pub fn expire(&mut self) -> (r: Option<Batch>)
        requires
            old(self).wf(),
        ensures
            final(self).wf(),
            match r {
                Some(b) => !old(self)@.is_empty() && b.created.wf() && b.deleted.wf()
                    && b.created@ == old(self)@.created && b.deleted@ == old(self)@.deleted
                    && final(self)@ == old(self)@.drained(),
                None => old(self)@.is_empty() && final(self)@ == old(self)@,
            },
    {
        if self.created.len() == 0 && self.deleted.len() == 0 {
            return None;
        }
        let mut created = PathSet::new();
        let mut deleted = PathSet::new();
        std::mem::swap(&mut created, &mut self.created);
        std::mem::swap(&mut deleted, &mut self.deleted);
        self.deadline = None;
        proof {
            assert(self@ =~= old(self)@.drained());
        }
        Some(Batch { created, deleted })
    }
}

/// The half of a batch whose turn it is.
#[derive(Debug, Clone, Copy, PartialEq, Eq, Structural)]
pub enum BatchStage {
    Created,
    Deleted,
    Done,
}

/// A batch on its way to a server.
pub struct BatchRun {
    pub batch: Batch,
    pub stage: BatchStage,
}

/// A batch on its way to a server, with texts in place of paths.
#[verifier::ext_equal]
pub struct BatchRunView {
    pub created: Seq<Seq<char>>,
    pub deleted: Seq<Seq<char>>,
    pub stage: BatchStage,
}

/// What to hand to the server next.
#[derive(Debug)]
pub enum BatchAction<'a> {
    /// These paths are new or have changed.
    Created(&'a Vec<PathName>),
    /// These paths are gone.
    Deleted(&'a Vec<PathName>),
    Done,
}

/// What to hand to the server next, with texts in place of paths.
pub enum BatchActionView {
    Created(Seq<Seq<char>>),
    Deleted(Seq<Seq<char>>),
    Done,
}

impl<'a> View for BatchAction<'a> {
    type V = BatchActionView;

    open spec fn view(&self) -> BatchActionView {
        match self {
            BatchAction::Created(paths) => BatchActionView::Created(path::path_views(paths@)),
            BatchAction::Deleted(paths) => BatchActionView::Deleted(path::path_views(paths@)),
            BatchAction::Done => BatchActionView::Done,
        }
    }
}

impl BatchRunView {
    /// A batch of which nothing has been handed on. A half without paths is left out.
    pub open spec fn start(created: Seq<Seq<char>>, deleted: Seq<Seq<char>>) -> Self {
        BatchRunView {
            created,
            deleted,
            stage: if created.len() > 0 {
                BatchStage::Created
            } else if deleted.len() > 0 {
                BatchStage::Deleted
            } else {
                BatchStage::Done
            },
        }
    }

    pub open spec fn action(self) -> BatchActionView {
        match self.stage {
            BatchStage::Created => BatchActionView::Created(self.created),
            BatchStage::Deleted => BatchActionView::Deleted(self.deleted),
            BatchStage::Done => BatchActionView::Done,
        }
    }

    /// The batch once a half has been handed on, whatever came of it.
    pub open spec fn after(self) -> Self {
        BatchRunView {
            stage: if self.stage == BatchStage::Created && self.deleted.len() > 0 {
                BatchStage::Deleted
            } else {
                BatchStage::Done
            },
            ..self
        }
    }
}

impl View for BatchRun {
    type V = BatchRunView;

    open spec fn view(&self) -> BatchRunView {
        BatchRunView {
            created: self.batch.created@,
            deleted: self.batch.deleted@,
            stage: self.stage,
        }
    }
}

impl BatchRun {
    pub open spec fn wf(&self) -> bool {
        self.batch.created.wf() && self.batch.deleted.wf()
    }

    pub fn new(batch: Batch) -> (r: Self)
        requires
            batch.created.wf(),
            batch.deleted.wf(),
        ensures
            r.wf(),
            r@ == BatchRunView::start(batch.created@, batch.deleted@),
    {
        let stage = if batch.created.len() > 0 {
            BatchStage::Created
        } else if batch.deleted.len() > 0 {
            BatchStage::Deleted
        } else {
            BatchStage::Done
        };
        BatchRun { batch, stage }
    }

    /// What to hand to the server next.
    pub fn next(&self) -> (r: BatchAction<'_>)
        ensures
            r@ == self@.action(),
    {
        match self.stage {
            BatchStage::Created => BatchAction::Created(self.batch.created.items()),
            BatchStage::Deleted => BatchAction::Deleted(self.batch.deleted.items()),
            BatchStage::Done => BatchAction::Done,
        }
    }

    /// Takes the news that a half was handed on. A failure does not keep the other half back.
    pub fn handed_on(&mut self)
        requires
            old(self).wf(),
        ensures
            final(self).wf(),
            final(self)@ == old(self)@.after(),
    {
        self.stage = match self.stage {
            BatchStage::Created => if self.batch.deleted.len() > 0 {
                BatchStage::Deleted
            } else {
                BatchStage::Done
            },
            _ => BatchStage::Done,
        };
    }
}

/// Both halves of a batch have their turn, and what was created goes before what was deleted.
pub proof fn creations_go_before_deletions(created: Seq<Seq<char>>, deleted: Seq<Seq<char>>)
    ensures
        ({
            let first = BatchRunView::start(created, deleted);
            let second = if created.len() > 0 {
                first.after()
            } else {
                first
            };
            let last = if deleted.len() > 0 {
                second.after()
            } else {
                second
            };
            &&& created.len() > 0 ==> first.action() == BatchActionView::Created(created)
            &&& deleted.len() > 0 ==> second.action() == BatchActionView::Deleted(deleted)
            &&& last.action() == BatchActionView::Done
        }),
{
}

/// Repeated events for one path within a window collapse to one entry of the batch, while
/// each event still moves the deadline.
pub proof fn repeated_events_collapse(d: DebounceView, e: MediaEvent, now: u64, later: u64)
    requires
        now <= later,
        later + d.window <= u64::MAX,
    ensures
        d.received(e, now).received(e, later).created == d.received(e, now).created,
        d.received(e, now).received(e, later).deleted == d.received(e, now).deleted,
        d.received(e, now).received(e, later).deadline == Some((later + d.window) as u64),
{
    let s = if e is Created {
        d.created
    } else {
        d.deleted
    };
    let grown = path_set::with_path(s, e.text());
    if !path_set::holds(s, e.text()) {
        assert(grown[s.len() as int] == e.text());
    }
    assert(path_set::holds(grown, e.text()));
}

/// No event is lost: once received, a path is in the next batch.
pub proof fn received_path_is_in_the_batch(d: DebounceView, e: MediaEvent, now: u64)
    ensures
        e is Created ==> path_set::holds(d.received(e, now).created, e.text()),
        e is Deleted ==> path_set::holds(d.received(e, now).deleted, e.text()),
        !d.received(e, now).is_empty(),
{
    let s = if e is Created {
        d.created
    } else {
        d.deleted
    };
    let grown = path_set::with_path(s, e.text());
    if !path_set::holds(s, e.text()) {
        assert(grown[s.len() as int] == e.text());
    }
    assert(path_set::holds(grown, e.text()));
}

/// A notifier that takes batches of paths.
pub trait BatchProcessor {
    /// The name of the server.
    spec fn name(&self) -> Seq<char>;

    /// The counter of the batches that were sent to the server.
    spec fn counter(&self) -> Counter;

    fn server_name(&self) -> (r: &str)
        ensures
            r@ == self.name(),
    ;

    /// Counts a batch.
    fn increment_notification_counter(&self, metrics: &mut MetricsCollector)
        ensures
            final(metrics).stuck() == old(metrics).stuck(),
            final(metrics).start() == old(metrics).start(),
            final(metrics).inotify_watches == old(metrics).inotify_watches,
            forall|c: Counter| #[trigger]
                final(metrics).count(c) == (if c == self.counter() {
                    old(metrics).count(c).wrapping_add(1)
                } else {
                    old(metrics).count(c)
                }),
    ;
}

/// What is known of those of the first `n` paths that exist, or whose parent does.
pub open spec fn existing_probes(probes: Seq<PathProbe>, n: nat) -> Seq<PathProbe>
    decreases n,
{
    if n == 0 {
        Seq::empty()
    } else {
        let before = existing_probes(probes, (n - 1) as nat);
        if probes[n - 1].exists || probes[n - 1].parent_exists {
            before.push(probes[n - 1])
        } else {
            before
        }
    }
}

proof fn existing_pairs(paths: Seq<Seq<char>>, probes: Seq<PathProbe>, n: nat)
    ensures
        existing(paths, probes, n).len() == existing_probes(probes, n).len(),
    decreases n,
{
    if n > 0 {
        existing_pairs(paths, probes, (n - 1) as nat);
    }
}

/// The directories to refresh for a batch of changed paths: those that exist, or whose parent
/// does, count.
pub open spec fn refresh_targets(paths: Seq<Seq<char>>, probes: Seq<PathProbe>) -> Seq<Seq<char>> {
    path_set::unique(
        targets(existing(paths, probes, paths.len()), existing_probes(probes, paths.len())),
    )
}

/// The directories to refresh for a batch of changed paths. `probes` tells of each path in
/// turn.
pub fn batch_targets(paths: &Vec<PathName>, probes: &Vec<PathProbe>) -> (r: PathSet)
    requires
        probes@.len() == paths@.len(),
    ensures
        r.wf(),
        r@ == refresh_targets(path::path_views(paths@), probes@),
{
    let kept = filter_existing_paths(paths, probes);
    let mut own: Vec<PathProbe> = Vec::new();
    let mut i: usize = 0;
    while i < probes.len()
        invariant
            i <= probes@.len(),
            own@ == existing_probes(probes@, i as nat),
        decreases probes@.len() - i,
    {
        if probes[i].exists || probes[i].parent_exists {
            own.push(probes[i]);
        }
        i += 1;
    }
    proof {
        existing_pairs(path::path_views(paths@), probes@, paths@.len());
        assert(path::path_views(kept@).len() == kept@.len());
    }
    get_target_dirs(&kept, &own)
}

} // verus!
