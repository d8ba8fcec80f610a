//! What the servers are told of, and when.

use crate::config::PathMappingConfig;
use crate::media_notifier_common;
use crate::media_notifier_common::DebounceView;
use crate::media_notifier_common::MediaEvent;
use crate::media_notifier_common::PathProbe;
use crate::media_notifier_common::Reply;
use crate::media_notifier_common::Retry;
use crate::media_notifier_common::RetryStep;
use crate::path;
use crate::path_set;
use vstd::prelude::*;

verus! {

/// An event takes nothing away: what was pending stays pending, in its place, in both halves,
/// and the deadline lies one window after the event.
pub proof fn events_take_nothing_away(d: DebounceView, e: MediaEvent, now: u64)
    requires
        now + d.window <= u64::MAX,
    ensures
        d.created.is_prefix_of(d.received(e, now).created),
        d.deleted.is_prefix_of(d.received(e, now).deleted),
        e is Created ==> d.received(e, now).deleted == d.deleted,
        e is Deleted ==> d.received(e, now).created == d.created,
        d.received(e, now).created.len() <= d.created.len() + 1,
        d.received(e, now).deleted.len() <= d.deleted.len() + 1,
        d.received(e, now).deadline matches Some(t) && t == now + d.window,
        d.received(e, now).window == d.window,
{
}

/// What is pending after some events and the instants at which they came.
pub open spec fn after_events(d: DebounceView, events: Seq<(MediaEvent, u64)>) -> DebounceView
    decreases events.len(),
{
    if events.len() == 0 {
        d
    } else {
        after_events(d, events.drop_last()).received(events.last().0, events.last().1)
    }
}

/// A path with the same components is among some others.
pub open spec fn is_among(s: Seq<Seq<char>>, t: Seq<char>) -> bool {
    exists|i: int| 0 <= i < s.len() && path::parts(#[trigger] s[i]) == path::parts(t)
}

proof fn among_is_held(s: Seq<Seq<char>>, t: Seq<char>)
    ensures
        is_among(s, t) <==> path_set::holds(s, t),
{
    if is_among(s, t) {
        let i = choose|i: int| 0 <= i < s.len() && path::parts(#[trigger] s[i]) == path::parts(t);
        path::key_identifies_path(s[i], t);
    }
    if path_set::holds(s, t) {
        let i = choose|i: int| 0 <= i < s.len() && path::key(#[trigger] s[i]) == path::key(t);
        path::key_identifies_path(s[i], t);
    }
}

/// However many events come, and in whatever order, each half of the batch holds exactly what
/// it held before and the paths of the events of its own kind.
pub proof fn batches_hold_what_was_received(
    d: DebounceView,
    events: Seq<(MediaEvent, u64)>,
    t: Seq<char>,
)
    ensures
        is_among(after_events(d, events).created, t) <==> is_among(d.created, t) || exists|i: int|
            0 <= i < events.len() && ((#[trigger] events[i]).0 matches MediaEvent::Created(p)
                && path::parts(p@) == path::parts(t)),
        is_among(after_events(d, events).deleted, t) <==> is_among(d.deleted, t) || exists|i: int|
            0 <= i < events.len() && ((#[trigger] events[i]).0 matches MediaEvent::Deleted(p)
                && path::parts(p@) == path::parts(t)),
    decreases events.len(),
{
    if events.len() > 0 {
        let rest = events.drop_last();
        let before = after_events(d, rest);
        let (e, now) = events.last();
        let after = before.received(e, now);
        batches_hold_what_was_received(d, rest, t);
        assert forall|i: int|
            #![trigger events[i]]
            #![trigger rest[i]]
            0 <= i < rest.len() implies events[i] == rest[i] by {}
        assert(events[events.len() - 1] == events.last());
        match e {
            MediaEvent::Created(p) => {
                one_more_is_among(before.created, p@, t);
            },
            MediaEvent::Deleted(p) => {
                one_more_is_among(before.deleted, p@, t);
            },
        }
    }
}

proof fn one_more_is_among(s: Seq<Seq<char>>, p: Seq<char>, t: Seq<char>)
    ensures
        is_among(path_set::with_path(s, p), t) <==> is_among(s, t) || path::parts(p)
            == path::parts(t),
{
    let more = path_set::with_path(s, p);
    among_is_held(s, p);
    if is_among(s, t) {
        let i = choose|i: int| 0 <= i < s.len() && path::parts(#[trigger] s[i]) == path::parts(t);
        assert(more[i] == s[i]);
    }
    if path::parts(p) == path::parts(t) {
        if is_among(s, p) {
            let i = choose|i: int|
                0 <= i < s.len() && path::parts(#[trigger] s[i]) == path::parts(p);
            assert(more[i] == s[i]);
        } else {
            assert(more[s.len() as int] == p);
        }
    }
    if is_among(more, t) {
        let i = choose|i: int|
            0 <= i < more.len() && path::parts(#[trigger] more[i]) == path::parts(t);
        if i < s.len() {
            assert(s[i] == more[i]);
        }
    }
}

/// Once a batch was handed out, nothing is pending and no deadline stands.
pub proof fn a_batch_is_handed_out_once(d: DebounceView)
    ensures
        d.drained().is_empty(),
        d.drained().deadline is None,
        d.drained().window == d.window,
        d.is_empty() <==> d.created.len() == 0 && d.deleted.len() == 0,
{
}

/// Of the paths of a batch exactly those stay that exist or whose parent does, in their order.
pub proof fn vanished_paths_are_left_out(paths: Seq<Seq<char>>, probes: Seq<PathProbe>, n: nat)
    requires
        0 < n <= paths.len(),
        probes.len() == paths.len(),
    ensures
        ({
            let before = media_notifier_common::existing(paths, probes, (n - 1) as nat);
            let after = media_notifier_common::existing(paths, probes, n);
            &&& probes[n - 1].exists || probes[n - 1].parent_exists ==> after == before.push(
                paths[n - 1],
            )
            &&& !probes[n - 1].exists && !probes[n - 1].parent_exists ==> after == before
        }),
        media_notifier_common::existing(paths, probes, 0) == Seq::<Seq<char>>::empty(),
{
}

proof fn existing_match(paths: Seq<Seq<char>>, probes: Seq<PathProbe>, n: nat, i: int)
    requires
        n <= paths.len(),
        probes.len() == paths.len(),
        0 <= i < n,
        probes[i].exists || probes[i].parent_exists,
    ensures
        media_notifier_common::existing(paths, probes, n).len()
            == media_notifier_common::existing_probes(probes, n).len(),
        exists|k: int|
            0 <= k < media_notifier_common::existing(paths, probes, n).len()
                && #[trigger] media_notifier_common::existing(paths, probes, n)[k] == paths[i]
                && media_notifier_common::existing_probes(probes, n)[k] == probes[i],
    decreases n,
{
    let before = media_notifier_common::existing(paths, probes, (n - 1) as nat);
    let after = media_notifier_common::existing(paths, probes, n);
    same_length(paths, probes, n);
    same_length(paths, probes, (n - 1) as nat);
    if i < n - 1 {
        existing_match(paths, probes, (n - 1) as nat, i);
        let k = choose|k: int|
            0 <= k < before.len() && #[trigger] before[k] == paths[i]
                && media_notifier_common::existing_probes(probes, (n - 1) as nat)[k] == probes[i];
        assert(after[k] == paths[i]);
    } else {
        assert(after[before.len() as int] == paths[i]);
    }
}

proof fn same_length(paths: Seq<Seq<char>>, probes: Seq<PathProbe>, n: nat)
    requires
        n <= paths.len(),
        probes.len() == paths.len(),
    ensures
        media_notifier_common::existing(paths, probes, n).len()
            == media_notifier_common::existing_probes(probes, n).len(),
    decreases n,
{
    if n > 0 {
        same_length(paths, probes, (n - 1) as nat);
    }
}

/// The directory to look at for a path: the path itself where it is a directory, what holds it
/// where it is a file.
pub proof fn files_stand_for_their_directory(t: Seq<char>, d: Seq<char>)
    ensures
        media_notifier_common::target_of(t, true) == t,
        path::parent_of(t) == Some(d) ==> media_notifier_common::target_of(t, false) == d,
        path::parent_of(t) is None ==> media_notifier_common::target_of(t, false) == t,
{
}

/// Of every path of a batch that is there its directory is looked at.
pub proof fn every_path_is_looked_at(paths: Seq<Seq<char>>, probes: Seq<PathProbe>, i: int)
    requires
        probes.len() == paths.len(),
        0 <= i < paths.len(),
        probes[i].exists || probes[i].parent_exists,
    ensures
        is_among(
            media_notifier_common::refresh_targets(paths, probes),
            media_notifier_common::target_of(paths[i], probes[i].is_dir),
        ),
{
    let n = paths.len();
    let kept = media_notifier_common::existing(paths, probes, n);
    let kinds = media_notifier_common::existing_probes(probes, n);
    existing_match(paths, probes, n, i);
    let k = choose|k: int|
        0 <= k < kept.len() && #[trigger] kept[k] == paths[i] && kinds[k] == probes[i];
    let dirs = media_notifier_common::targets(kept, kinds);
    let wanted = media_notifier_common::target_of(paths[i], probes[i].is_dir);
    assert(dirs[k] == wanted);
    path_set::unique_keeps_each_path(dirs);
    assert(path::key(dirs[k]) == path::key(wanted));
    assert(path_set::holds(dirs, wanted));
    among_is_held(path_set::unique(dirs), wanted);
}

/// Without a mapping, and outside every host path, a path stays as it is.
pub proof fn other_paths_are_not_translated(t: Seq<char>, m: PathMappingConfig)
    ensures
        media_notifier_common::translated(t, None) == t,
        (m.host_path matches Some(h) ==> !path::under(t, h@)) && (m.host_paths matches Some(v)
            ==> forall|i: int| 0 <= i < v@.len() ==> !path::under(t, (#[trigger] v@[i])@))
            ==> media_notifier_common::translated(t, Some(m)) == t,
{
    if let Some(v) = m.host_paths {
        let all = path::path_views(v@);
        if forall|i: int| 0 <= i < v@.len() ==> !path::under(t, (#[trigger] v@[i])@) {
            assert forall|i: int| 0 <= i < all.len() implies !path::under(t, #[trigger] all[i]) by {
                assert(all[i] == v@[i]@);
            }
            no_prefix_is_found(t, all);
        }
    }
}

proof fn no_prefix_is_found(t: Seq<char>, prefixes: Seq<Seq<char>>)
    requires
        forall|i: int| 0 <= i < prefixes.len() ==> !path::under(t, #[trigger] prefixes[i]),
    ensures
        media_notifier_common::first_prefix(t, prefixes) is None,
    decreases prefixes.len(),
{
    if prefixes.len() > 0 {
        let rest = prefixes.drop_first();
        assert forall|i: int| 0 <= i < rest.len() implies !path::under(t, #[trigger] rest[i]) by {
            assert(rest[i] == prefixes[i + 1]);
        }
        no_prefix_is_found(t, rest);
    }
}

/// Where no path of the list covers it, the single host path still translates a path.
pub proof fn the_single_host_path_is_the_fallback(m: PathMappingConfig, rel: Seq<char>)
    requires
        m.host_path is Some,
        path::tidy(rel),
        m.host_paths matches Some(v) ==> forall|i: int|
            0 <= i < v@.len() ==> !path::under(
                path::joined(m.host_path->0@, rel),
                (#[trigger] v@[i])@,
            ),
    ensures
        media_notifier_common::translated(path::joined(m.host_path->0@, rel), Some(m))
            == path::joined(m.emby_path@, rel),
{
    let t = path::joined(m.host_path->0@, rel);
    path::join_then_strip(m.host_path->0@, rel);
    if let Some(v) = m.host_paths {
        let all = path::path_views(v@);
        assert forall|i: int| 0 <= i < all.len() implies !path::under(t, #[trigger] all[i]) by {
            assert(all[i] == v@[i]@);
        }
        no_prefix_is_found(t, all);
    }
}

/// The first wait is the one that is set, and a request is sent once more than it may fail.
pub proof fn the_first_wait_is_the_one_set(r: Retry, reply: Reply)
    requires
        reply is ServerError || reply is TransportError,
        r.failures() == 0,
    ensures
        r.retries() > 0 ==> r.answer(reply) == RetryStep::Wait(r.first_delay()),
        r.retries() == 0 ==> r.answer(reply) == RetryStep::GiveUp(1),
{
    assert(media_notifier_common::doubled(0) == 1);
    assert(r.first_delay() * 1 == r.first_delay());
}

/// A request that is given up was sent once at first and once for every retry.
pub proof fn attempts_are_counted(r: Retry, reply: Reply)
    requires
        reply is ServerError || reply is TransportError,
        r.failures() >= r.retries(),
        r.retries() < u32::MAX,
    ensures
        r.answer(reply) matches RetryStep::GiveUp(n) && n == r.retries() + 1,
{
}

} // verus!
