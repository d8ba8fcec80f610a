//! Counters, the releases that are stuck, and the text of the status file.

use crate::config::MetricsConfig;
use crate::media_notifier_common;
use crate::path;
use crate::path::PathName;
use crate::text;
use vstd::prelude::*;
use vstd::string::*;

verus! {

broadcast use vstd::string::group_string_axioms;

pub const DEFAULT_UPDATE_INTERVAL_SECS: u64 = 60;

/// A release whose validation keeps failing. Times are nanoseconds of the wall clock.
#[derive(Debug, Clone, Copy, PartialEq, Eq, Structural)]
pub struct StuckRelease {
    pub failure_count: u32,
    pub first_seen: u64,
    pub last_attempt: u64,
}

/// A stuck release and where it lies.
#[derive(Debug)]
pub struct StuckEntry {
    pub path: PathName,
    pub release: StuckRelease,
}

/// The counters that only grow.
#[derive(Debug, Clone, Copy, PartialEq, Eq, Structural)]
pub enum Counter {
    InotifyEvents,
    InotifyOverflows,
    SfvPassed,
    SfvFailed,
    Emby,
    Jellyfin,
    Plex,
    Arr,
    EmbyFullRefreshes,
    JellyfinFullRefreshes,
    PlexFullRefreshes,
    FullRefreshCooldownSkips,
    EmbyTargetedNewContent,
    CacheHits,
    CacheMisses,
    LimiterBlocked,
    LimiterTotal,
    LimiterWaitMs,
}

/// What is counted while the program runs.
pub struct MetricsCollector {
    pub started_at: u64,
    pub inotify_events: u64,
    pub inotify_overflows: u64,
    /// The current number of watches; set, not counted.
    pub inotify_watches: u64,
    pub sfv_validations_passed: u64,
    pub sfv_validations_failed: u64,
    pub emby_notifications: u64,
    pub jellyfin_notifications: u64,
    pub plex_notifications: u64,
    /// Batches of Sonarr and Radarr rescans.
    pub arr_notifications: u64,
    pub emby_full_refreshes: u64,
    pub jellyfin_full_refreshes: u64,
    pub plex_full_refreshes: u64,
    pub full_refresh_cooldown_skips: u64,
    /// Paths of new content that were notified one by one.
    pub emby_targeted_new_content_notifies: u64,
    pub cache_hits: u64,
    pub cache_misses: u64,
    /// Permits of the backend limiter that had to be waited for.
    pub rar2fs_limiter_blocked_acquires: u64,
    pub rar2fs_limiter_acquires_total: u64,
    /// The time waited for permits, in milliseconds.
    pub rar2fs_limiter_total_wait_ms: u64,
    pub stuck_releases: Vec<StuckEntry>,
}

/// The paths and releases of some entries.
pub open spec fn entry_views(v: Seq<StuckEntry>) -> Seq<(Seq<char>, StuckRelease)> {
    Seq::new(v.len(), |i: int| (v[i].path@, v[i].release))
}

/// The position of the entry for a path, or -1.
pub open spec fn position(s: Seq<(Seq<char>, StuckRelease)>, p: Seq<char>) -> int
    decreases s.len(),
{
    if s.len() == 0 {
        -1
    } else if path::key(s.last().0) == path::key(p) {
        s.len() - 1
    } else {
        position(s.drop_last(), p)
    }
}

/// The entries once a release was recorded: its entry is renewed, or a new one comes last.
pub open spec fn recorded(
    s: Seq<(Seq<char>, StuckRelease)>,
    p: Seq<char>,
    r: StuckRelease,
) -> Seq<(Seq<char>, StuckRelease)> {
    let i = position(s, p);
    if i >= 0 {
        s.update(i, (s[i].0, r))
    } else {
        s.push((p, r))
    }
}

/// The entries once a release was cleared.
pub open spec fn cleared(s: Seq<(Seq<char>, StuckRelease)>, p: Seq<char>) -> Seq<
    (Seq<char>, StuckRelease),
> {
    let i = position(s, p);
    if i >= 0 {
        s.remove(i)
    } else {
        s
    }
}

/// What is recorded for a path.
pub open spec fn record_of(s: Seq<(Seq<char>, StuckRelease)>, p: Seq<char>) -> Option<StuckRelease> {
    let i = position(s, p);
    if i >= 0 {
        Some(s[i].1)
    } else {
        None
    }
}

/// No two entries are for the same path.
pub open spec fn one_per_path(s: Seq<(Seq<char>, StuckRelease)>) -> bool {
    forall|i: int, j: int|
        0 <= i < j < s.len() ==> path::key((#[trigger] s[i]).0) != path::key((#[trigger] s[j]).0)
}

proof fn position_fits(s: Seq<(Seq<char>, StuckRelease)>, p: Seq<char>)
    ensures
        -1 <= position(s, p) < s.len(),
        position(s, p) >= 0 ==> path::key(s[position(s, p)].0) == path::key(p),
        position(s, p) < 0 ==> forall|i: int|
            0 <= i < s.len() ==> path::key((#[trigger] s[i]).0) != path::key(p),
    decreases s.len(),
{
    if s.len() > 0 && path::key(s.last().0) != path::key(p) {
        position_fits(s.drop_last(), p);
        if position(s, p) < 0 {
            assert forall|i: int| 0 <= i < s.len() implies path::key((#[trigger] s[i]).0)
                != path::key(p) by {
                if i < s.len() - 1 {
                    assert(s.drop_last()[i] == s[i]);
                }
            }
        }
    }
}

/// Where each path has one entry, the position of a path is where its entry stands.
proof fn position_is(s: Seq<(Seq<char>, StuckRelease)>, p: Seq<char>, i: int)
    requires
        one_per_path(s),
        0 <= i < s.len(),
        path::key(s[i].0) == path::key(p),
    ensures
        position(s, p) == i,
{
    position_fits(s, p);
    let k = position(s, p);
    if k < i {
        assert(path::key(s[k].0) != path::key(s[i].0));
    } else if i < k {
        assert(path::key(s[i].0) != path::key(s[k].0));
    }
}

/// Recording a release is seen for its path and for no other; clearing takes it away and
/// keeps every other.
pub proof fn records_stand_for_their_path(
    s: Seq<(Seq<char>, StuckRelease)>,
    p: Seq<char>,
    r: StuckRelease,
    other: Seq<char>,
)
    requires
        one_per_path(s),
    ensures
        one_per_path(recorded(s, p, r)),
        one_per_path(cleared(s, p)),
        record_of(recorded(s, p, r), p) == Some(r),
        record_of(cleared(s, p), p) is None,
        path::key(other) != path::key(p) ==> record_of(recorded(s, p, r), other) == record_of(
            s,
            other,
        ),
        path::key(other) != path::key(p) ==> record_of(cleared(s, p), other) == record_of(s, other),
{
    position_fits(s, p);
    position_fits(s, other);
    let i = position(s, p);
    let grown = recorded(s, p, r);
    let cut = cleared(s, p);
    position_fits(grown, other);
    position_fits(cut, other);
    position_fits(cut, p);
    if i >= 0 {
        assert forall|a: int, b: int| 0 <= a < b < grown.len() implies path::key(
            (#[trigger] grown[a]).0,
        ) != path::key((#[trigger] grown[b]).0) by {
            assert(path::key(s[a].0) != path::key(s[b].0));
        }
        assert forall|a: int, b: int| 0 <= a < b < cut.len() implies path::key(
            (#[trigger] cut[a]).0,
        ) != path::key((#[trigger] cut[b]).0) by {
            let x = if a < i {
                a
            } else {
                a + 1
            };
            let y = if b < i {
                b
            } else {
                b + 1
            };
            assert(cut[a] == s[x] && cut[b] == s[y]);
            assert(path::key(s[x].0) != path::key(s[y].0));
        }
        position_is(grown, p, i);
        let q = position(cut, p);
        if q >= 0 {
            let x = if q < i {
                q
            } else {
                q + 1
            };
            assert(cut[q] == s[x]);
            position_is(s, p, x);
        }
    } else {
        position_is(grown, p, s.len() as int);
    }
    if path::key(other) != path::key(p) {
        let o = position(s, other);
        if o >= 0 {
            assert(grown[o] == s[o]);
            position_is(grown, other, o);
            if i >= 0 {
                let x = if o < i {
                    o
                } else {
                    o - 1
                };
                assert(cut[x] == s[o]);
                position_is(cut, other, x);
            }
        } else {
            let g = position(grown, other);
            if g >= 0 && g < s.len() {
                assert(path::key(grown[g].0) == path::key(s[g].0));
                assert(path::key(s[g].0) != path::key(other));
            }
            let q = position(cut, other);
            if q >= 0 && i >= 0 {
                let x = if q < i {
                    q
                } else {
                    q + 1
                };
                assert(cut[q] == s[x]);
                assert(path::key(s[x].0) != path::key(other));
            }
        }
    }
}

/// How many entries at the front have at least so many failures.
pub open spec fn place(s: Seq<(Seq<char>, StuckRelease)>, count: u32) -> int
    decreases s.len(),
{
    if s.len() == 0 || s[0].1.failure_count < count {
        0
    } else {
        1 + place(s.drop_first(), count)
    }
}

proof fn place_fits(s: Seq<(Seq<char>, StuckRelease)>, count: u32)
    ensures
        0 <= place(s, count) <= s.len(),
        forall|i: int| 0 <= i < place(s, count) ==> (#[trigger] s[i]).1.failure_count >= count,
        place(s, count) < s.len() ==> s[place(s, count)].1.failure_count < count,
    decreases s.len(),
{
    if s.len() > 0 && s[0].1.failure_count >= count {
        place_fits(s.drop_first(), count);
        let rest = s.drop_first();
        assert forall|i: int| 0 <= i < place(s, count) implies (#[trigger] s[i]).1.failure_count
            >= count by {
            if i > 0 {
                assert(s[i] == rest[i - 1]);
            }
        }
    }
}

proof fn place_is(s: Seq<(Seq<char>, StuckRelease)>, count: u32, at: int)
    requires
        0 <= at <= s.len(),
        forall|i: int| 0 <= i < at ==> (#[trigger] s[i]).1.failure_count >= count,
        at < s.len() ==> s[at].1.failure_count < count,
    ensures
        place(s, count) == at,
{
    place_fits(s, count);
    let k = place(s, count);
    if k < at {
        assert(s[k].1.failure_count >= count);
    } else if at < k {
        assert(s[at].1.failure_count >= count);
    }
}

/// The entries with the most failures first; entries with equally many stay in order.
pub open spec fn worst_order(s: Seq<(Seq<char>, StuckRelease)>) -> Seq<(Seq<char>, StuckRelease)>
    decreases s.len(),
{
    if s.len() == 0 {
        Seq::empty()
    } else {
        let before = worst_order(s.drop_last());
        before.insert(place(before, s.last().1.failure_count), s.last())
    }
}

proof fn inserted_multiset<A>(s: Seq<A>, i: int, a: A)
    requires
        0 <= i <= s.len(),
    ensures
        s.insert(i, a).to_multiset() == s.to_multiset().insert(a),
{
    broadcast use vstd::seq_lib::group_to_multiset_ensures;

    let grown = s.insert(i, a);
    assert(grown.remove(i) =~= s);
    assert(grown[i] == a);
    assert(grown.remove(i).to_multiset() == grown.to_multiset().remove(a));
    assert(grown.contains(a));
    assert(grown.to_multiset().count(a) > 0);
    assert(grown.to_multiset().remove(a).insert(a) =~= grown.to_multiset());
}

/// The list that goes into the status file holds every stuck release once, and no release
/// stands before one that failed more often.
pub proof fn status_lists_the_worst_first(s: Seq<(Seq<char>, StuckRelease)>)
    ensures
        worst_order(s).to_multiset() == s.to_multiset(),
        worst_order(s).len() == s.len(),
        forall|i: int, j: int|
            0 <= i <= j < worst_order(s).len() ==> (#[trigger] worst_order(s)[i]).1.failure_count
                >= (#[trigger] worst_order(s)[j]).1.failure_count,
    decreases s.len(),
{
    broadcast use vstd::seq_lib::group_to_multiset_ensures;

    if s.len() == 0 {
        assert(s =~= Seq::empty());
    } else {
        let before = worst_order(s.drop_last());
        let e = s.last();
        let at = place(before, e.1.failure_count);
        status_lists_the_worst_first(s.drop_last());
        place_fits(before, e.1.failure_count);
        inserted_multiset(before, at, e);
        assert(s.drop_last().push(e) =~= s);
        let w = worst_order(s);
        assert forall|i: int, j: int| 0 <= i <= j < w.len() implies (#[trigger] w[i]).1.failure_count
            >= (#[trigger] w[j]).1.failure_count by {
            if at < before.len() {
                assert(before[at].1.failure_count < e.1.failure_count);
            }
            let x = if i < at {
                i
            } else {
                i - 1
            };
            let y = if j < at {
                j
            } else {
                j - 1
            };
            if i != at {
                assert(w[i] == before[x]);
            }
            if j != at {
                assert(w[j] == before[y]);
            }
            if i != at && j != at {
                assert(before[x].1.failure_count >= before[y].1.failure_count);
            } else if j == at && i < at {
                assert(before[i].1.failure_count >= e.1.failure_count);
            } else if i == at && j > at {
                assert(before[at].1.failure_count >= before[y].1.failure_count);
            }
        }
    }
}

impl MetricsCollector {
    pub open spec fn start(&self) -> u64 {
        self.started_at
    }

    /// The stuck releases.
    pub open spec fn stuck(&self) -> Seq<(Seq<char>, StuckRelease)> {
        entry_views(self.stuck_releases@)
    }

    pub open spec fn wf(&self) -> bool {
        one_per_path(self.stuck())
    }

    /// The value of a counter.
    pub open spec fn count(&self, c: Counter) -> u64 {
        match c {
            Counter::InotifyEvents => self.inotify_events,
            Counter::InotifyOverflows => self.inotify_overflows,
            Counter::SfvPassed => self.sfv_validations_passed,
            Counter::SfvFailed => self.sfv_validations_failed,
            Counter::Emby => self.emby_notifications,
            Counter::Jellyfin => self.jellyfin_notifications,
            Counter::Plex => self.plex_notifications,
            Counter::Arr => self.arr_notifications,
            Counter::EmbyFullRefreshes => self.emby_full_refreshes,
            Counter::JellyfinFullRefreshes => self.jellyfin_full_refreshes,
            Counter::PlexFullRefreshes => self.plex_full_refreshes,
            Counter::FullRefreshCooldownSkips => self.full_refresh_cooldown_skips,
            Counter::EmbyTargetedNewContent => self.emby_targeted_new_content_notifies,
            Counter::CacheHits => self.cache_hits,
            Counter::CacheMisses => self.cache_misses,
            Counter::LimiterBlocked => self.rar2fs_limiter_blocked_acquires,
            Counter::LimiterTotal => self.rar2fs_limiter_acquires_total,
            Counter::LimiterWaitMs => self.rar2fs_limiter_total_wait_ms,
        }
    }

    /// All counters at zero; `now` is when the program started.
    pub fn new(now: u64) -> (r: Self)
        ensures
            r.wf(),
            r.start() == now,
            r.stuck() == Seq::<(Seq<char>, StuckRelease)>::empty(),
            r.inotify_watches == 0,
            forall|c: Counter| #[trigger] r.count(c) == 0,
    {
        let r = MetricsCollector {
            started_at: now,
            inotify_events: 0,
            inotify_overflows: 0,
            inotify_watches: 0,
            sfv_validations_passed: 0,
            sfv_validations_failed: 0,
            emby_notifications: 0,
            jellyfin_notifications: 0,
            plex_notifications: 0,
            arr_notifications: 0,
            emby_full_refreshes: 0,
            jellyfin_full_refreshes: 0,
            plex_full_refreshes: 0,
            full_refresh_cooldown_skips: 0,
            emby_targeted_new_content_notifies: 0,
            cache_hits: 0,
            cache_misses: 0,
            rar2fs_limiter_blocked_acquires: 0,
            rar2fs_limiter_acquires_total: 0,
            rar2fs_limiter_total_wait_ms: 0,
            stuck_releases: Vec::new(),
        };
        proof {
            assert(r.stuck() =~= Seq::<(Seq<char>, StuckRelease)>::empty());
        }
        r
    }

    /// Whole seconds since the start.
    pub fn uptime_seconds(&self, now: u64) -> (r: u64)
        ensures
            r == media_notifier_common::seconds_since(now, self.start()),
    {
        media_notifier_common::elapsed_secs(now, self.started_at)
    }

    /// Adds to a counter, which starts again at zero past its end.
    pub fn bump(&mut self, c: Counter, n: u64)
        ensures
            final(self).start() == old(self).start(),
            final(self).stuck() == old(self).stuck(),
            final(self).inotify_watches == old(self).inotify_watches,
            forall|d: Counter| #[trigger]
                final(self).count(d) == (if d == c {
                    old(self).count(d).wrapping_add(n)
                } else {
                    old(self).count(d)
                }),
    {
        match c {
            Counter::InotifyEvents => {
                self.inotify_events = self.inotify_events.wrapping_add(n);
            },
            Counter::InotifyOverflows => {
                self.inotify_overflows = self.inotify_overflows.wrapping_add(n);
            },
            Counter::SfvPassed => {
                self.sfv_validations_passed = self.sfv_validations_passed.wrapping_add(n);
            },
            Counter::SfvFailed => {
                self.sfv_validations_failed = self.sfv_validations_failed.wrapping_add(n);
            },
            Counter::Emby => {
                self.emby_notifications = self.emby_notifications.wrapping_add(n);
            },
            Counter::Jellyfin => {
                self.jellyfin_notifications = self.jellyfin_notifications.wrapping_add(n);
            },
            Counter::Plex => {
                self.plex_notifications = self.plex_notifications.wrapping_add(n);
            },
            Counter::Arr => {
                self.arr_notifications = self.arr_notifications.wrapping_add(n);
            },
            Counter::EmbyFullRefreshes => {
                self.emby_full_refreshes = self.emby_full_refreshes.wrapping_add(n);
            },
            Counter::JellyfinFullRefreshes => {
                self.jellyfin_full_refreshes = self.jellyfin_full_refreshes.wrapping_add(n);
            },
            Counter::PlexFullRefreshes => {
                self.plex_full_refreshes = self.plex_full_refreshes.wrapping_add(n);
            },
            Counter::FullRefreshCooldownSkips => {
                self.full_refresh_cooldown_skips = self.full_refresh_cooldown_skips.wrapping_add(n);
            },
            Counter::EmbyTargetedNewContent => {
                self.emby_targeted_new_content_notifies =
                self.emby_targeted_new_content_notifies.wrapping_add(n);
            },
            Counter::CacheHits => {
                self.cache_hits = self.cache_hits.wrapping_add(n);
            },
            Counter::CacheMisses => {
                self.cache_misses = self.cache_misses.wrapping_add(n);
            },
            Counter::LimiterBlocked => {
                self.rar2fs_limiter_blocked_acquires =
                self.rar2fs_limiter_blocked_acquires.wrapping_add(n);
            },
            Counter::LimiterTotal => {
                self.rar2fs_limiter_acquires_total =
                self.rar2fs_limiter_acquires_total.wrapping_add(n);
            },
            Counter::LimiterWaitMs => {
                self.rar2fs_limiter_total_wait_ms =
                self.rar2fs_limiter_total_wait_ms.wrapping_add(n);
            },
        }
    }

    fn find(&self, p: &PathName) -> (r: Option<usize>)
        ensures
            match r {
                Some(i) => i < self.stuck_releases@.len() && position(self.stuck(), p@) == i,
                None => position(self.stuck(), p@) == -1,
            },
    {
        let k = p.key();
        let ghost s = self.stuck();
        let mut i: usize = self.stuck_releases.len();
        proof {
            assert(s.take(i as int) =~= s);
        }
        while i > 0
            invariant
                i <= self.stuck_releases@.len(),
                s == self.stuck(),
                s == entry_views(self.stuck_releases@),
                k@ == path::key(p@),
                position(s, p@) == position(s.take(i as int), p@),
            decreases i,
        {
            let own = self.stuck_releases[i - 1].path.key();
            proof {
                assert(s.take(i as int).last() == s[i - 1]);
                assert(s.take(i as int).drop_last() =~= s.take(i - 1));
            }
            if text::same_text(own.as_str(), k.as_str()) {
                return Some(i - 1);
            }
            i -= 1;
        }
        None
    }

    /// Records, or renews, a release that keeps failing; `now` is the time of this attempt.
    pub fn record_stuck(&mut self, path: &PathName, failure_count: u32, first_seen: u64, now: u64)
        requires
            old(self).wf(),
        ensures
            final(self).wf(),
            final(self).stuck() == recorded(
                old(self).stuck(),
                path@,
                StuckRelease { failure_count, first_seen, last_attempt: now },
            ),
            final(self).start() == old(self).start(),
            final(self).inotify_watches == old(self).inotify_watches,
            forall|c: Counter| #[trigger] final(self).count(c) == old(self).count(c),
    {
        let release = StuckRelease { failure_count, first_seen, last_attempt: now };
        let ghost s = self.stuck();
        proof {
            records_stand_for_their_path(s, path@, release, path@);
        }
        match self.find(path) {
            Some(i) => {
                let kept = self.stuck_releases[i].path.clone();
                self.stuck_releases.set(i, StuckEntry { path: kept, release });
                proof {
                    assert(self.stuck() =~= s.update(i as int, (s[i as int].0, release)));
                }
            },
            None => {
                self.stuck_releases.push(StuckEntry { path: path.clone(), release });
                proof {
                    assert(self.stuck() =~= s.push((path@, release)));
                }
            },
        }
    }

    /// Forgets a release: it passed, or its record is too old.
    pub fn clear_stuck(&mut self, path: &PathName)
        requires
            old(self).wf(),
        ensures
            final(self).wf(),
            final(self).stuck() == cleared(old(self).stuck(), path@),
            final(self).start() == old(self).start(),
            final(self).inotify_watches == old(self).inotify_watches,
            forall|c: Counter| #[trigger] final(self).count(c) == old(self).count(c),
    {
        let ghost s = self.stuck();
        proof {
            let any: StuckRelease = arbitrary();
            records_stand_for_their_path(s, path@, any, path@);
        }
        match self.find(path) {
            Some(i) => {
                self.stuck_releases.remove(i);
                proof {
                    assert(self.stuck() =~= s.remove(i as int));
                }
            },
            None => {},
        }
    }

    /// The stuck releases, those with the most failures first.
    pub fn worst_first(&self) -> (r: Vec<StuckEntry>)
        ensures
            entry_views(r@) == worst_order(self.stuck()),
    {
        let ghost s = self.stuck();
        let mut r: Vec<StuckEntry> = Vec::new();
        let mut i: usize = 0;
        proof {
            assert(s.take(0) =~= Seq::empty());
            assert(entry_views(r@) =~= Seq::empty());
        }
        while i < self.stuck_releases.len()
            invariant
                i <= self.stuck_releases@.len(),
                s == entry_views(self.stuck_releases@),
                entry_views(r@) == worst_order(s.take(i as int)),
            decreases self.stuck_releases@.len() - i,
        {
            let count: u32 = self.stuck_releases[i].release.failure_count;
            let ghost before = entry_views(r@);
            let mut at: usize = 0;
            while at < r.len() && r[at].release.failure_count >= count
                invariant
                    at <= r@.len(),
                    before == entry_views(r@),
                    forall|j: int| 0 <= j < at ==> (#[trigger] before[j]).1.failure_count >= count,
                decreases r@.len() - at,
            {
                proof {
                    assert(before[at as int].1 == r@[at as int].release);
                }
                at += 1;
            }
            proof {
                if at < before.len() {
                    assert(before[at as int].1 == r@[at as int].release);
                }
                place_is(before, count, at as int);
                let next = s.take(i + 1);
                assert(next.drop_last() =~= s.take(i as int));
                assert(next.last() == s[i as int]);
            }
            let e = &self.stuck_releases[i];
            let entry = StuckEntry { path: e.path.clone(), release: e.release };
            r.insert(at, entry);
            proof {
                assert(entry_views(r@) =~= before.insert(at as int, s[i as int]));
            }
            i += 1;
        }
        proof {
            assert(s.take(i as int) =~= s);
        }
        r
    }
}

/// The status file and the update interval, where the status file is wanted.
pub open spec fn metrics_wanted(cfg: Option<MetricsConfig>) -> Option<(Seq<char>, u64)> {
    match cfg {
        Some(c) => if c.enabled {
            Some(
                (
                    match c.status_file {
                        Some(p) => p@,
                        None => "/mnt/cache/rargate/rargate-status.json"@,
                    },
                    match c.update_interval_seconds {
                        Some(n) => n,
                        None => DEFAULT_UPDATE_INTERVAL_SECS,
                    },
                ),
            )
        } else {
            None
        },
        None => None,
    }
}

/// The status file and the update interval, where the status file is wanted.
pub fn metrics_config(cfg: &Option<MetricsConfig>) -> (r: Option<(PathName, u64)>)
    ensures
        match r {
            Some((p, n)) => metrics_wanted(*cfg) == Some((p@, n)),
            None => metrics_wanted(*cfg) is None,
        },
{
    match cfg {
        Some(c) => {
            if !c.enabled {
                return None;
            }
            let file = match &c.status_file {
                Some(p) => p.clone(),
                None => PathName::new("/mnt/cache/rargate/rargate-status.json"),
            };
            let interval: u64 = match c.update_interval_seconds {
                Some(n) => n,
                None => DEFAULT_UPDATE_INTERVAL_SECS,
            };
            Some((file, interval))
        },
        None => None,
    }
}

/// A hexadecimal digit below ten, or a small letter from there on.
pub open spec fn hex_digit(n: int) -> char {
    if n < 10 {
        (0x30 + n) as char
    } else {
        (0x61 + n - 10) as char
    }
}

/// A character as it stands in a JSON string.
pub open spec fn json_char(c: char) -> Seq<char> {
    if c == '"' {
        seq!['\\', '"']
    } else if c == '\\' {
        seq!['\\', '\\']
    } else if c as u32 == 0x08 {
        seq!['\\', 'b']
    } else if c as u32 == 0x09 {
        seq!['\\', 't']
    } else if c as u32 == 0x0a {
        seq!['\\', 'n']
    } else if c as u32 == 0x0c {
        seq!['\\', 'f']
    } else if c as u32 == 0x0d {
        seq!['\\', 'r']
    } else if (c as u32) < 0x20 {
        seq!['\\', 'u', '0', '0', hex_digit((c as u32 / 16) as int), hex_digit((c as u32 % 16) as int)]
    } else {
        seq![c]
    }
}

pub open spec fn json_chars(t: Seq<char>) -> Seq<char>
    decreases t.len(),
{
    if t.len() == 0 {
        Seq::empty()
    } else {
        json_chars(t.drop_last()) + json_char(t.last())
    }
}

/// A text as a JSON string.
pub open spec fn json_text(t: Seq<char>) -> Seq<char> {
    seq!['"'] + json_chars(t) + seq!['"']
}

/// Calls `serde_json::to_string` on a string: quotes it, and escapes the quote, the backslash
/// and the control characters. Writing a string into memory does not fail.
#[verifier::external_body]
fn json_string(s: &str) -> (r: String)
    ensures
        r@ == json_text(s@),
{
    serde_json::to_string(s).unwrap_or_default()
}

/// The dates of a stuck release, written out.
#[derive(Debug)]
pub struct Stamps {
    pub first_seen: String,
    pub last_attempt: String,
}

/// The rates of the status file, written out with one digit after the point.
#[derive(Debug)]
pub struct Rates {
    pub sfv_pass_pct: String,
    pub cache_hit_pct: String,
    pub limiter_block_pct: String,
    pub limiter_avg_wait_ms: String,
}

/// One stuck release in the status file.
pub open spec fn stuck_line(e: (Seq<char>, StuckRelease), stamps: Stamps, now: u64) -> Seq<char> {
    "    { \"path\": "@ + json_text(e.0) + ", \"failure_count\": "@ + text::decimal(
        e.1.failure_count as nat,
    ) + ", \"first_seen\": \""@ + stamps.first_seen@ + "\", \"last_attempt\": \""@
        + stamps.last_attempt@ + "\", \"stuck_seconds\": "@ + text::decimal(
        media_notifier_common::seconds_since(now, e.1.first_seen) as nat,
    ) + " }"@
}

/// The first `n` stuck releases, one per line.
pub open spec fn stuck_lines(
    s: Seq<(Seq<char>, StuckRelease)>,
    stamps: Seq<Stamps>,
    now: u64,
    n: nat,
) -> Seq<char>
    decreases n,
{
    if n == 0 {
        Seq::empty()
    } else if n == 1 {
        stuck_line(s[0], stamps[0], now)
    } else {
        stuck_lines(s, stamps, now, (n - 1) as nat) + ",\n"@ + stuck_line(
            s[n - 1],
            stamps[n - 1],
            now,
        )
    }
}

/// The array of stuck releases.
pub open spec fn stuck_array(
    s: Seq<(Seq<char>, StuckRelease)>,
    stamps: Seq<Stamps>,
    now: u64,
) -> Seq<char> {
    if s.len() == 0 {
        "[]"@
    } else {
        "[\n"@ + stuck_lines(s, stamps, now, s.len()) + "\n  ]"@
    }
}

fn write_stuck_line(e: &StuckEntry, stamps: &Stamps, now: u64) -> (r: String)
    ensures
        r@ == stuck_line((e.path@, e.release), *stamps, now),
{
    let mut s = "    { \"path\": ".to_owned();
    s.append(json_string(e.path.as_str()).as_str());
    s.append(", \"failure_count\": ");
    s.append(text::decimal_of(e.release.failure_count as u64).as_str());
    s.append(", \"first_seen\": \"");
    s.append(stamps.first_seen.as_str());
    s.append("\", \"last_attempt\": \"");
    s.append(stamps.last_attempt.as_str());
    s.append("\", \"stuck_seconds\": ");
    let secs: u64 = media_notifier_common::elapsed_secs(now, e.release.first_seen);
    s.append(text::decimal_of(secs).as_str());
    s.append(" }");
    s
}

fn write_stuck_array(v: &Vec<StuckEntry>, stamps: &Vec<Stamps>, now: u64) -> (r: String)
    requires
        stamps@.len() == v@.len(),
    ensures
        r@ == stuck_array(entry_views(v@), stamps@, now),
{
    if v.len() == 0 {
        return "[]".to_owned();
    }
    let ghost all = entry_views(v@);
    proof {
        assert(all[0] == (v@[0].path@, v@[0].release));
    }
    let mut lines = write_stuck_line(&v[0], &stamps[0], now);
    let mut i: usize = 1;
    while i < v.len()
        invariant
            1 <= i <= v@.len(),
            stamps@.len() == v@.len(),
            all == entry_views(v@),
            lines@ == stuck_lines(all, stamps@, now, i as nat),
        decreases v@.len() - i,
    {
        proof {
            assert(all[i as int] == (v@[i as int].path@, v@[i as int].release));
        }
        lines.append(",\n");
        lines.append(write_stuck_line(&v[i], &stamps[i], now).as_str());
        i += 1;
    }
    let mut s = "[\n".to_owned();
    s.append(lines.as_str());
    s.append("\n  ]");
    s
}

impl MetricsCollector {
    /// The first part of the status file: the version, the times, and what was watched and
    /// validated.
    pub open spec fn status_head(
        &self,
        version: Seq<char>,
        timestamp: Seq<char>,
        uptime: nat,
        rates: Rates,
    ) -> Seq<char> {
        "{\n  \"version\": \""@ + version + "\",\n  \"timestamp\": \""@ + timestamp
            + "\",\n  \"uptime_seconds\": "@ + text::decimal(uptime)
            + ",\n  \"inotify\": {\n    \"events_processed\": "@ + text::decimal(
            self.inotify_events as nat,
        ) + ",\n    \"queue_overflows\": "@ + text::decimal(self.inotify_overflows as nat)
            + ",\n    \"current_watches\": "@ + text::decimal(self.inotify_watches as nat)
            + "\n  },\n  \"sfv\": {\n    \"validations_passed\": "@ + text::decimal(
            self.sfv_validations_passed as nat,
        ) + ",\n    \"validations_failed\": "@ + text::decimal(
            self.sfv_validations_failed as nat,
        ) + ",\n    \"pass_rate_pct\": "@ + rates.sfv_pass_pct@ + "\n  },\n"@
    }

    /// The part of the status file that tells of notifications.
    pub open spec fn status_notifications(&self) -> Seq<char> {
        "  \"notifications\": {\n    \"emby_sent\": "@ + text::decimal(
            self.emby_notifications as nat,
        ) + ",\n    \"jellyfin_sent\": "@ + text::decimal(self.jellyfin_notifications as nat)
            + ",\n    \"plex_sent\": "@ + text::decimal(self.plex_notifications as nat)
            + ",\n    \"arr_sent\": "@ + text::decimal(self.arr_notifications as nat)
            + ",\n    \"emby_full_refreshes\": "@ + text::decimal(self.emby_full_refreshes as nat)
            + ",\n    \"jellyfin_full_refreshes\": "@ + text::decimal(
            self.jellyfin_full_refreshes as nat,
        ) + ",\n    \"plex_full_refreshes\": "@ + text::decimal(self.plex_full_refreshes as nat)
            + ",\n    \"full_refresh_cooldown_skips\": "@ + text::decimal(
            self.full_refresh_cooldown_skips as nat,
        ) + "\n  },\n"@
    }

    /// The part of the status file that tells of the cache and of the backend limiter.
    pub open spec fn status_backend(&self, rates: Rates) -> Seq<char> {
        "  \"filter_cache\": {\n    \"hits\": "@ + text::decimal(self.cache_hits as nat)
            + ",\n    \"misses\": "@ + text::decimal(self.cache_misses as nat)
            + ",\n    \"hit_rate_pct\": "@ + rates.cache_hit_pct@
            + "\n  },\n  \"rar2fs_limiter\": {\n    \"acquires_total\": "@ + text::decimal(
            self.rar2fs_limiter_acquires_total as nat,
        ) + ",\n    \"blocked_acquires\": "@ + text::decimal(
            self.rar2fs_limiter_blocked_acquires as nat,
        ) + ",\n    \"block_rate_pct\": "@ + rates.limiter_block_pct@
            + ",\n    \"total_wait_ms\": "@ + text::decimal(
            self.rar2fs_limiter_total_wait_ms as nat,
        ) + ",\n    \"avg_wait_ms_when_blocked\": "@ + rates.limiter_avg_wait_ms@ + "\n  },\n"@
    }

    fn write_head(&self, version: &str, timestamp: &str, uptime: u64, rates: &Rates) -> (r: String)
        ensures
            r@ == self.status_head(version@, timestamp@, uptime as nat, *rates),
    {
        let mut s = "{\n  \"version\": \"".to_owned();
        s.append(version);
        s.append("\",\n  \"timestamp\": \"");
        s.append(timestamp);
        s.append("\",\n  \"uptime_seconds\": ");
        s.append(text::decimal_of(uptime).as_str());
        s.append(",\n  \"inotify\": {\n    \"events_processed\": ");
        s.append(text::decimal_of(self.inotify_events).as_str());
        s.append(",\n    \"queue_overflows\": ");
        s.append(text::decimal_of(self.inotify_overflows).as_str());
        s.append(",\n    \"current_watches\": ");
        s.append(text::decimal_of(self.inotify_watches).as_str());
        s.append("\n  },\n  \"sfv\": {\n    \"validations_passed\": ");
        s.append(text::decimal_of(self.sfv_validations_passed).as_str());
        s.append(",\n    \"validations_failed\": ");
        s.append(text::decimal_of(self.sfv_validations_failed).as_str());
        s.append(",\n    \"pass_rate_pct\": ");
        s.append(rates.sfv_pass_pct.as_str());
        s.append("\n  },\n");
        s
    }

    fn write_notifications(&self) -> (r: String)
        ensures
            r@ == self.status_notifications(),
    {
        let mut s = "  \"notifications\": {\n    \"emby_sent\": ".to_owned();
        s.append(text::decimal_of(self.emby_notifications).as_str());
        s.append(",\n    \"jellyfin_sent\": ");
        s.append(text::decimal_of(self.jellyfin_notifications).as_str());
        s.append(",\n    \"plex_sent\": ");
        s.append(text::decimal_of(self.plex_notifications).as_str());
        s.append(",\n    \"arr_sent\": ");
        s.append(text::decimal_of(self.arr_notifications).as_str());
        s.append(",\n    \"emby_full_refreshes\": ");
        s.append(text::decimal_of(self.emby_full_refreshes).as_str());
        s.append(",\n    \"jellyfin_full_refreshes\": ");
        s.append(text::decimal_of(self.jellyfin_full_refreshes).as_str());
        s.append(",\n    \"plex_full_refreshes\": ");
        s.append(text::decimal_of(self.plex_full_refreshes).as_str());
        s.append(",\n    \"full_refresh_cooldown_skips\": ");
        s.append(text::decimal_of(self.full_refresh_cooldown_skips).as_str());
        s.append("\n  },\n");
        s
    }

    fn write_backend(&self, rates: &Rates) -> (r: String)
        ensures
            r@ == self.status_backend(*rates),
    {
        let mut s = "  \"filter_cache\": {\n    \"hits\": ".to_owned();
        s.append(text::decimal_of(self.cache_hits).as_str());
        s.append(",\n    \"misses\": ");
        s.append(text::decimal_of(self.cache_misses).as_str());
        s.append(",\n    \"hit_rate_pct\": ");
        s.append(rates.cache_hit_pct.as_str());
        s.append("\n  },\n  \"rar2fs_limiter\": {\n    \"acquires_total\": ");
        s.append(text::decimal_of(self.rar2fs_limiter_acquires_total).as_str());
        s.append(",\n    \"blocked_acquires\": ");
        s.append(text::decimal_of(self.rar2fs_limiter_blocked_acquires).as_str());
        s.append(",\n    \"block_rate_pct\": ");
        s.append(rates.limiter_block_pct.as_str());
        s.append(",\n    \"total_wait_ms\": ");
        s.append(text::decimal_of(self.rar2fs_limiter_total_wait_ms).as_str());
        s.append(",\n    \"avg_wait_ms_when_blocked\": ");
        s.append(rates.limiter_avg_wait_ms.as_str());
        s.append("\n  },\n");
        s
    }

    /// The text of the status file. `stuck` is what `worst_first` gave, and `stamps` holds
    /// the dates of each of them; `uptime` is in seconds, `now` is the wall clock.
    pub fn status_text(
        &self,
        version: &str,
        timestamp: &str,
        uptime: u64,
        rates: &Rates,
        stuck: &Vec<StuckEntry>,
        stamps: &Vec<Stamps>,
        now: u64,
    ) -> (r: String)
        requires
            entry_views(stuck@) == worst_order(self.stuck()),
            stamps@.len() == stuck@.len(),
        ensures
            r@ == self.status_head(version@, timestamp@, uptime as nat, *rates)
                + self.status_notifications() + self.status_backend(*rates)
                + "  \"stuck_releases_count\": "@ + text::decimal(stuck@.len())
                + ",\n  \"stuck_releases\": "@ + stuck_array(worst_order(self.stuck()), stamps@, now)
                + "\n}"@,
    {
        let mut s = self.write_head(version, timestamp, uptime, rates);
        s.append(self.write_notifications().as_str());
        s.append(self.write_backend(rates).as_str());
        s.append("  \"stuck_releases_count\": ");
        s.append(text::decimal_of(stuck.len() as u64).as_str());
        s.append(",\n  \"stuck_releases\": ");
        s.append(write_stuck_array(stuck, stamps, now).as_str());
        s.append("\n}");
        s
    }
}

} // verus!
