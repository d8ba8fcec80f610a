//! What is counted, and what is reported as stuck.

use crate::metrics;
use crate::metrics::Counter;
use crate::metrics::MetricsCollector;
use crate::metrics::StuckRelease;
use crate::path;
use vstd::prelude::*;

verus! {

/// Each counter is a number of its own.
pub proof fn counters_are_their_own(m: MetricsCollector)
    ensures
        m.count(Counter::SfvPassed) == m.sfv_validations_passed,
        m.count(Counter::SfvFailed) == m.sfv_validations_failed,
        m.count(Counter::Emby) == m.emby_notifications,
        m.count(Counter::Jellyfin) == m.jellyfin_notifications,
        m.count(Counter::Plex) == m.plex_notifications,
        m.count(Counter::Arr) == m.arr_notifications,
        m.count(Counter::CacheHits) == m.cache_hits,
        m.count(Counter::CacheMisses) == m.cache_misses,
        m.count(Counter::EmbyFullRefreshes) == m.emby_full_refreshes,
        m.count(Counter::JellyfinFullRefreshes) == m.jellyfin_full_refreshes,
        m.count(Counter::PlexFullRefreshes) == m.plex_full_refreshes,
        m.count(Counter::InotifyEvents) == m.inotify_events,
        m.count(Counter::InotifyOverflows) == m.inotify_overflows,
{
}

/// To record a release as stuck adds it once, and to clear it takes it out; no other release
/// comes or goes with it.
pub proof fn records_come_and_go_one_by_one(
    s: Seq<(Seq<char>, StuckRelease)>,
    p: Seq<char>,
    r: StuckRelease,
)
    ensures
        metrics::record_of(s, p) is None ==> metrics::recorded(s, p, r).len() == s.len() + 1,
        metrics::record_of(s, p) is Some ==> metrics::recorded(s, p, r).len() == s.len(),
        metrics::record_of(s, p) is Some ==> metrics::cleared(s, p).len() == s.len() - 1,
        metrics::record_of(s, p) is None ==> metrics::cleared(s, p) == s,
        metrics::record_of(s, p) matches Some(own) ==> exists|i: int|
            0 <= i < s.len() && path::parts((#[trigger] s[i]).0) == path::parts(p) && s[i].1 == own,
{
    position_is_there(s, p);
}

proof fn position_is_there(s: Seq<(Seq<char>, StuckRelease)>, p: Seq<char>)
    ensures
        -1 <= metrics::position(s, p) < s.len(),
        metrics::position(s, p) >= 0 ==> path::parts(s[metrics::position(s, p)].0) == path::parts(
            p,
        ),
    decreases s.len(),
{
    if s.len() > 0 {
        path::key_identifies_path(s.last().0, p);
        if path::key(s.last().0) != path::key(p) {
            position_is_there(s.drop_last(), p);
        }
    }
}

} // verus!
