//! What the watcher makes of events and of validations.

use crate::inotify_watcher;
use crate::inotify_watcher::Action;
use crate::inotify_watcher::ActionView;
use crate::inotify_watcher::EventMask;
use crate::inotify_watcher::FailedValidation;
use crate::inotify_watcher::InotifyWatcher;
use crate::inotify_watcher::Next;
use crate::inotify_watcher::PendingDirectory;
use crate::inotify_watcher::Server;
use crate::inotify_watcher::WatchView;
use crate::laws;
use crate::lru_map;
use crate::lru_map::LruView;
use crate::media_notifier_common;
use crate::media_notifier_common::MediaEvent;
use crate::path;
use crate::path::PathName;
use crate::sfv;
use crate::text;
use vstd::prelude::*;

verus! {

/// What the three media servers are told of a path, each once.
pub open spec fn each_server_hears(deleted: bool, t: Seq<char>) -> Seq<ActionView> {
    seq![
        ActionView::Notify(Server::Emby, deleted, t),
        ActionView::Notify(Server::Jellyfin, deleted, t),
        ActionView::Notify(Server::Plex, deleted, t),
    ]
}

/// A notification about a deletion is one that says so, and carries the path.
pub proof fn notifications_say_what_happened(s: Server, p: PathName)
    ensures
        Action::Notify(s, MediaEvent::Deleted(p))@ == ActionView::Notify(s, true, p@),
        Action::Notify(s, MediaEvent::Created(p))@ == ActionView::Notify(s, false, p@),
        Action::Invalidate(p)@ == ActionView::Invalidate(p@),
        Action::RefreshOverlay(p)@ == ActionView::RefreshOverlay(p@),
        Action::ClearStuck(p)@ == ActionView::ClearStuck(p@),
{
}

/// Outside the verified layer a deletion is announced to each media server, once, as a
/// deletion, and nothing is announced as created.
pub proof fn deletions_are_announced_as_deletions(
    s: WatchView,
    w: InotifyWatcher,
    full: Seq<char>,
    m: EventMask,
    now: u64,
    at: u64,
)
    requires
        !inotify_watcher::temporary(full),
        !path::under(full, w.verified_path@),
        m.delete || m.moved_from,
    ensures
        s.arrived(w, full, m, now, at).1 == seq![
            ActionView::Invalidate(
                inotify_watcher::backend_path(
                    full,
                    w.verified_path@,
                    w.unverified_path@,
                    w.rar2fs_backend_path@,
                ),
            ),
        ] + each_server_hears(true, full),
        s.arrived(w, full, m, now, at).0 == s,
{
    assert(inotify_watcher::told_all(true, full) =~= each_server_hears(true, full));
    assert(s.arrived(w, full, m, now, at).1 =~= seq![
        ActionView::Invalidate(
            inotify_watcher::backend_path(
                full,
                w.verified_path@,
                w.unverified_path@,
                w.rar2fs_backend_path@,
            ),
        ),
    ] + each_server_hears(true, full));
}

/// Outside the verified layer what appears is announced to each media server, once, as
/// created, and nothing is announced as deleted. Other events are not announced.
pub proof fn creations_are_announced_as_creations(
    s: WatchView,
    w: InotifyWatcher,
    full: Seq<char>,
    m: EventMask,
    now: u64,
    at: u64,
)
    requires
        !inotify_watcher::temporary(full),
        !path::under(full, w.verified_path@),
        !m.delete,
        !m.moved_from,
        !m.delete_self,
    ensures
        s.arrived(w, full, m, now, at).1 == seq![
            ActionView::Invalidate(
                inotify_watcher::backend_path(
                    full,
                    w.verified_path@,
                    w.unverified_path@,
                    w.rar2fs_backend_path@,
                ),
            ),
        ] + (if m.create || m.moved_to {
            each_server_hears(false, full)
        } else {
            Seq::empty()
        }),
        s.arrived(w, full, m, now, at).0 == s,
{
    assert(inotify_watcher::told_all(false, full) =~= each_server_hears(false, full));
    assert(s.arrived(w, full, m, now, at).1 =~= seq![
        ActionView::Invalidate(
            inotify_watcher::backend_path(
                full,
                w.verified_path@,
                w.unverified_path@,
                w.rar2fs_backend_path@,
            ),
        ),
    ] + (if m.create || m.moved_to {
        each_server_hears(false, full)
    } else {
        Seq::empty()
    }));
}

/// The directory that an event is about: the path itself where it is a directory, otherwise
/// what holds it.
pub open spec fn about(full: Seq<char>, is_dir: bool, dir: Seq<char>) -> bool {
    if is_dir {
        dir == full
    } else {
        path::parent_of(full) == Some(dir)
    }
}

/// In the verified layer nothing is announced when content appears: its directory waits for
/// validation from the instant of the event on, and earlier failures of it are forgotten.
pub proof fn verified_content_waits_for_validation(
    s: WatchView,
    w: InotifyWatcher,
    full: Seq<char>,
    dir: Seq<char>,
    m: EventMask,
    now: u64,
    at: u64,
)
    requires
        s.wf(),
        path::under(full, w.verified_path@),
        about(full, m.is_dir, dir),
        m.create || m.moved_to,
        !m.delete,
        !m.moved_from,
        !m.delete_self,
    ensures
        s.changed(w, full, m, now, at).1 == Seq::<ActionView>::empty(),
        !s.changed(w, full, m, now, at).0.failed.has(path::key(dir)),
        s.changed(w, full, m, now, at).0.pending.has(path::key(dir)),
        !s.pending.has(path::key(dir)) || !s.pending.values[path::key(dir)].notified
            ==> {
            let p = s.changed(w, full, m, now, at).0.pending.values[path::key(dir)];
            p.last_event == at && !p.notified
        },
        s.changed(w, full, m, now, at).0.announced == s.announced,
{
    let k = path::key(dir);
    lru_map::bounded_map_stays_bounded(s.failed, k, s.failed.values[k]);
    lru_map::bounded_map_stays_bounded(s.pending, k, s.pending.values[k]);
    lru_map::bounded_map_stays_bounded(s.pending, k, inotify_watcher::fresh_pending(at));
    lru_map::bounded_map_stays_bounded(
        s.pending,
        k,
        PendingDirectory { last_event: at, ..s.pending.values[k] },
    );
    laws::lru_map::using_keeps_the_values(s.pending, k, k);
}

/// A directory that was announced waits anew only once the time for another validation has
/// come, counted from its announcement.
pub proof fn announced_directories_wait_again_later(
    s: WatchView,
    w: InotifyWatcher,
    k: Seq<char>,
    t: u64,
    now: u64,
    at: u64,
)
    requires
        s.wf(),
        s.pending.has(k),
        s.pending.values[k].notified,
        s.pending.values[k].notified_at == Some(t),
        t <= now,
    ensures
        s.appeared(w, k, now, at).pending.has(k),
        now - t >= w.revalidation_threshold_secs * 1_000_000_000 ==> !s.appeared(
            w,
            k,
            now,
            at,
        ).pending.values[k].notified && s.appeared(w, k, now, at).pending.values[k].last_event
            == at,
        now - t < w.revalidation_threshold_secs * 1_000_000_000 ==> s.appeared(
            w,
            k,
            now,
            at,
        ).pending.values[k] == s.pending.values[k],
{
    lru_map::bounded_map_stays_bounded(s.pending, k, inotify_watcher::fresh_pending(at));
    laws::lru_map::using_keeps_the_values(s.pending, k, k);
}

/// In the verified layer the deletion of a file that is no companion file is announced to each
/// media server, once, as a deletion, and its directory no longer waits.
pub proof fn verified_deletions_are_announced(
    s: WatchView,
    w: InotifyWatcher,
    full: Seq<char>,
    dir: Seq<char>,
    m: EventMask,
    now: u64,
    at: u64,
)
    requires
        s.wf(),
        !inotify_watcher::temporary(full),
        path::under(full, w.verified_path@),
        about(full, m.is_dir, dir),
        m.delete || m.moved_from,
        m.is_dir || !inotify_watcher::sidecar(full),
    ensures
        s.changed(w, full, m, now, at).1 == (if m.is_dir {
            Seq::empty()
        } else {
            each_server_hears(true, full)
        }),
        !s.changed(w, full, m, now, at).0.pending.has(path::key(dir)),
        !s.changed(w, full, m, now, at).0.failed.has(path::key(dir)),
{
    let k = path::key(dir);
    assert(inotify_watcher::told_all(true, full) =~= each_server_hears(true, full));
    laws::lru_map::removing_keeps_the_others(s.pending, k, k);
    laws::lru_map::removing_keeps_the_others(s.failed, k, k);
}

/// An event first drops what the mount knows of its path, whichever layer it comes from, and
/// what follows tells nothing of any other path.
pub proof fn every_event_drops_what_the_mount_knows(
    s: WatchView,
    w: InotifyWatcher,
    full: Seq<char>,
    m: EventMask,
    now: u64,
    at: u64,
    i: int,
)
    requires
        !inotify_watcher::temporary(full),
        0 <= i < s.arrived(w, full, m, now, at).1.len(),
    ensures
        s.arrived(w, full, m, now, at).1[0] == ActionView::Invalidate(
            inotify_watcher::backend_path(
                full,
                w.verified_path@,
                w.unverified_path@,
                w.rar2fs_backend_path@,
            ),
        ),
        s.arrived(w, full, m, now, at).1[i] matches ActionView::Notify(server, deleted, t) ==> t
            == full && server != Server::Arr && deleted == (m.delete || m.moved_from
            || m.delete_self),
{
}

/// A directory of the verified layer that is deleted, or goes away while it is watched, is
/// announced as deleted to each media server, once, and forgotten.
pub proof fn deleted_directories_are_announced(s: WatchView, full: Seq<char>, m: EventMask)
    requires
        s.wf(),
        !inotify_watcher::temporary(full),
    ensures
        m.delete_self ==> s.finished(full, m).1 == seq![ActionView::Unwatch] + each_server_hears(
            true,
            full,
        ),
        !m.delete_self && m.delete && m.is_dir ==> s.finished(full, m).1 == each_server_hears(
            true,
            full,
        ),
        m.delete_self || (m.delete && m.is_dir) ==> !s.finished(full, m).0.pending.has(
            path::key(full),
        ) && !s.finished(full, m).0.failed.has(path::key(full)),
        !m.delete_self && !(m.delete && m.is_dir) ==> s.finished(full, m) == (
            s,
            Seq::<ActionView>::empty(),
        ),
{
    let k = path::key(full);
    assert(inotify_watcher::told_all(true, full) =~= each_server_hears(true, full));
    laws::lru_map::removing_keeps_the_others(s.pending, k, k);
    laws::lru_map::removing_keeps_the_others(s.failed, k, k);
}

/// A new directory is watched unless its name, in whatever case, is one of those to exclude.
pub proof fn new_directories_are_watched(
    s: WatchView,
    w: InotifyWatcher,
    full: Seq<char>,
    name: Seq<char>,
    m: EventMask,
    now: u64,
    at: u64,
)
    requires
        !inotify_watcher::temporary(full),
        path::file_name_of(full) == Some(name),
    ensures
        ({
            let next = s.arrived(w, full, m, now, at).2;
            let out = exists|i: int|
                0 <= i < w.exclude_dirs@.len() && text::lowered((#[trigger] w.exclude_dirs@[i])@)
                    == text::lowered(name);
            &&& m.is_dir && (m.create || m.moved_to) && out ==> next == Next::Done
            &&& m.is_dir && (m.create || m.moved_to) && !out ==> next == Next::Watch
            &&& !m.is_dir || !(m.create || m.moved_to) ==> next == Next::Finish
        }),
{
    let all = text::views(w.exclude_dirs@);
    assert forall|i: int|
        #![trigger all[i]]
        #![trigger w.exclude_dirs@[i]]
        0 <= i < all.len() implies all[i] == w.exclude_dirs@[i]@ by {}
}

/// A path is temporary exactly where it holds one of two marks, or its name starts or ends as
/// download clients mark their files.
pub proof fn temporary_paths_are_marked(t: Seq<char>, name: Seq<char>)
    requires
        path::file_name_of(t) == Some(name),
    ensures
        inotify_watcher::temporary(t) <==> {
            ||| text::contains(t, ".::TMPNAME:"@)
            ||| text::contains(t, "_UNPACK_"@)
            ||| laws::ends_in(name, ".!qB"@)
            ||| laws::ends_in(name, ".part"@)
            ||| laws::ends_in(name, ".tmp"@)
            ||| laws::ends_in(name, ".dctmp"@)
            ||| name.len() >= 2 && name[0] == '.' && name[1] == '_'
        },
{
    reveal_strlit("._");
    assert("._"@ =~= seq!['.', '_']);
    if name.len() >= 2 {
        assert(name.subrange(0, 2) =~= seq![name[0], name[1]]);
        if text::starts(name, "._"@) {
            assert(name.subrange(0, 2)[0] == '.' && name.subrange(0, 2)[1] == '_');
        }
    }
    ends_both_ways(name, ".!qB"@);
    ends_both_ways(name, ".part"@);
    ends_both_ways(name, ".tmp"@);
    ends_both_ways(name, ".dctmp"@);
}

proof fn ends_both_ways(t: Seq<char>, tail: Seq<char>)
    ensures
        text::ends(t, tail) <==> laws::ends_in(t, tail),
{
    if t.len() >= tail.len() {
        assert(t.skip(t.len() - tail.len()) =~= t.subrange(
            t.len() - tail.len(),
            t.len() as int,
        ));
    }
}

/// Companion files are told by their extension, in whatever case.
pub proof fn companion_files_are_told_by_extension(t: Seq<char>, ext: Seq<char>)
    requires
        path::extension_of(t) == Some(ext),
    ensures
        inotify_watcher::sidecar(t) <==> {
            let low = text::lowered(ext);
            ||| low == "srt"@
            ||| low == "ass"@
            ||| low == "ssa"@
            ||| low == "sub"@
            ||| low == "idx"@
            ||| low == "vtt"@
            ||| low == "smi"@
            ||| low == "nfo"@
            ||| low == "tmp"@
            ||| low == "part"@
        },
{
    let all = inotify_watcher::sidecar_extensions();
    let low = text::lowered(ext);
    assert(all[0] == "srt"@ && all[1] == "ass"@ && all[2] == "ssa"@ && all[3] == "sub"@ && all[4]
        == "idx"@ && all[5] == "vtt"@ && all[6] == "smi"@ && all[7] == "nfo"@ && all[8] == "tmp"@
        && all[9] == "part"@);
}

/// A validated directory is no longer failed nor stuck, counts as announced from then on where
/// it waited, and nothing is told of another path or as deleted.
pub proof fn success_clears_the_slate(
    s: WatchView,
    w: InotifyWatcher,
    dir: Seq<char>,
    now: u64,
    at: u64,
    i: int,
)
    requires
        s.wf(),
        0 <= i < s.passed(w, dir, now, at).1.len(),
    ensures
        s.passed(w, dir, now, at).1[0] == ActionView::ClearStuck(dir),
        s.passed(w, dir, now, at).1[i] matches ActionView::Notify(_, deleted, t) ==> !deleted && t
            == dir,
        !s.passed(w, dir, now, at).0.failed.has(path::key(dir)),
        s.pending.has(path::key(dir)) ==> {
            let p = s.passed(w, dir, now, at).0.pending.values[path::key(dir)];
            &&& s.passed(w, dir, now, at).0.pending.has(path::key(dir))
            &&& p.notified
            &&& p.notified_at == Some(at)
            &&& p.last_event == s.pending.values[path::key(dir)].last_event
        },
        !s.pending.has(path::key(dir)) ==> s.passed(w, dir, now, at).0.pending == s.pending,
{
    let k = path::key(dir);
    laws::lru_map::removing_keeps_the_others(s.failed, k, k);
    lru_map::bounded_map_stays_bounded(
        s.pending,
        k,
        PendingDirectory { notified: true, notified_at: Some(at), ..s.pending.values[k] },
    );
}

/// A directory is announced exactly where it never was, or not within the last two minutes.
pub proof fn directories_are_announced_after_a_while(s: WatchView, k: Seq<char>, now: u64)
    ensures
        !s.announced.has(k) ==> s.announces(k, now),
        s.announced.has(k) && s.announced.values[k] <= now ==> s.announces(k, now) == (now
            - s.announced.values[k] >= 120 * 1_000_000_000),
{
}

/// A failure counts one more than the one before it, keeps the instant of the first one, and
/// concerns no other directory.
pub proof fn failures_add_up(
    s: WatchView,
    w: InotifyWatcher,
    dir: Seq<char>,
    now: u64,
    wall: u64,
    other: Seq<char>,
)
    requires
        s.wf(),
        s.failed.has(path::key(dir)) ==> s.failed.values[path::key(dir)].failure_count < u32::MAX,
        other != path::key(dir),
    ensures
        ({
            let after = s.failed_once(w, dir, now, wall).0;
            let k = path::key(dir);
            &&& after.failed.has(k)
            &&& after.failed.values[k].last_attempt == now
            &&& s.failed.has(k) ==> after.failed.values[k].failure_count
                == s.failed.values[k].failure_count + 1 && after.failed.values[k].first_seen
                == s.failed.values[k].first_seen
            &&& !s.failed.has(k) ==> after.failed.values[k].failure_count == 1
                && after.failed.values[k].first_seen == wall
            &&& after.failed.has(other) ==> s.failed.has(other) && after.failed.values[other]
                == s.failed.values[other]
            &&& after.pending == s.pending
            &&& after.announced == s.announced
            &&& after.overlay_refreshed == s.overlay_refreshed
        }),
{
    let k = path::key(dir);
    let f = s.after_failure(k, now, wall);
    let once = s.failed.put(k, f);
    let loud = FailedValidation { escalated: true, last_milestone_logged: f.failure_count, ..f };
    let noted = FailedValidation {
        last_milestone_logged: inotify_watcher::milestone(f.failure_count),
        ..f
    };
    lru_map::bounded_map_stays_bounded(s.failed, k, f);
    laws::lru_map::setting_keeps_the_others(s.failed, k, f, other);
    laws::lru_map::setting_keeps_the_others(once, k, loud, other);
    laws::lru_map::setting_keeps_the_others(once, k, noted, other);
}

/// A release is reported as stuck with its count of failures, and since when, exactly once it
/// has failed as often as the settings allow, or, having been announced before, as often as
/// they allow a regression. It is escalated, loudly, exactly where its threshold is reached and
/// it was not before.
pub proof fn stuck_releases_are_reported(
    s: WatchView,
    w: InotifyWatcher,
    dir: Seq<char>,
    now: u64,
    wall: u64,
)
    requires
        s.wf(),
        s.failed.has(path::key(dir)) ==> s.failed.values[path::key(dir)].failure_count < u32::MAX,
    ensures
        ({
            let k = path::key(dir);
            let count = if s.failed.has(k) {
                (s.failed.values[k].failure_count + 1) as u32
            } else {
                1u32
            };
            let since = if s.failed.has(k) {
                s.failed.values[k].first_seen
            } else {
                wall
            };
            let escalated = s.failed.has(k) && s.failed.values[k].escalated;
            let actions = s.failed_once(w, dir, now, wall).1;
            let stuck = count >= w.max_validation_failures || (s.announced.has(k) && count
                >= w.regression_threshold);
            let enough = count >= (if s.announced.has(k) {
                w.regression_threshold
            } else {
                w.escalation_threshold
            });
            &&& !stuck ==> actions == Seq::<ActionView>::empty()
            &&& stuck ==> actions.len() > 0 && actions.last() == ActionView::RecordStuck(
                dir,
                count,
                since,
            )
            &&& stuck && enough && !escalated ==> actions.len() == 2 && actions[0]
                == ActionView::Escalate(dir, count, since)
            &&& stuck && escalated ==> actions.len() == 1
            &&& stuck && !enough ==> forall|i: int|
                0 <= i < actions.len() ==> !((#[trigger] actions[i]) is Escalate)
        }),
{
}

/// Warnings come at the highest of a few counts that was reached.
pub proof fn warnings_come_at_milestones(count: u32, m: u32)
    requires
        m == 3 || m == 10 || m == 50 || m == 100 || m == 500 || m == 1000 || m == 5000,
    ensures
        m <= count ==> m <= inotify_watcher::milestone(count) <= count,
        inotify_watcher::milestone(m) == m,
        count < 3 ==> inotify_watcher::milestone(count) == 0,
        ({
            let r = inotify_watcher::milestone(count);
            r == 0 || r == 3 || r == 10 || r == 50 || r == 100 || r == 500 || r == 1000 || r
                == 5000
        }),
{
}

/// After the first failure a directory waits five seconds, after each further one three times
/// as long, up to the cooldown, and the whole cooldown once it has failed too often.
pub proof fn waits_triple(a: u32, max_failures: u32, cooldown: u64)
    ensures
        1 < max_failures && 5 <= cooldown ==> inotify_watcher::backoff(1, max_failures, cooldown)
            == 5,
        1 <= a && a + 1 < max_failures && inotify_watcher::backoff(a, max_failures, cooldown)
            < cooldown ==> inotify_watcher::backoff((a + 1) as u32, max_failures, cooldown)
            == vstd::math::min(
            3 * inotify_watcher::backoff(a, max_failures, cooldown),
            cooldown as int,
        ),
        a >= max_failures ==> inotify_watcher::backoff(a, max_failures, cooldown) == cooldown,
        inotify_watcher::backoff(a, max_failures, cooldown) <= cooldown,
{
    assert(inotify_watcher::tripled(0) == 1);
    if a >= 1 {
        assert(inotify_watcher::tripled(a as nat) == 3 * inotify_watcher::tripled(
            (a - 1) as nat,
        ));
    }
}

/// A directory that failed is left alone until its wait is over, counted from its last attempt;
/// one that did not fail never waits.
pub proof fn failed_directories_wait(s: WatchView, w: InotifyWatcher, k: Seq<char>, now: u64)
    ensures
        !s.failed.has(k) ==> !s.waits(w, k, now),
        s.failed.has(k) && s.failed.values[k].last_attempt <= now ==> s.waits(w, k, now) == (now
            - s.failed.values[k].last_attempt < inotify_watcher::backoff(
            s.failed.values[k].failure_count,
            w.max_validation_failures,
            w.validation_cooldown_secs,
        ) * 1_000_000_000),
{
}

/// Validation of a directory is due exactly where it was not announced and has been quiet for
/// as long as the settings say.
pub proof fn quiet_directories_are_due(p: PendingDirectory, now: u64, debounce_secs: u64)
    requires
        p.last_event <= now,
    ensures
        inotify_watcher::due(p, now, debounce_secs) <==> !p.notified && now - p.last_event
            >= debounce_secs * 1_000_000_000,
{
}

/// What is picked from a map are exactly the keys whose values are wanted.
pub proof fn exactly_the_wanted_are_picked<V>(
    m: LruView<V>,
    keys: Seq<Seq<char>>,
    wanted: spec_fn(V) -> bool,
    k: Seq<char>,
)
    ensures
        inotify_watcher::keys_where(m, keys, wanted).contains(k) <==> keys.contains(k) && wanted(
            m.values[k],
        ),
        inotify_watcher::keys_where(m, keys, wanted).len() <= keys.len(),
    decreases keys.len(),
{
    if keys.len() > 0 {
        let rest = keys.drop_last();
        let before = inotify_watcher::keys_where(m, rest, wanted);
        let picked = inotify_watcher::keys_where(m, keys, wanted);
        exactly_the_wanted_are_picked(m, rest, wanted, k);
        assert(keys =~= rest.push(keys.last()));
        assert(keys.contains(k) <==> rest.contains(k) || k == keys.last()) by {
            if rest.contains(k) {
                let i = choose|i: int| 0 <= i < rest.len() && rest[i] == k;
                assert(keys[i] == k);
            }
            if k == keys.last() {
                assert(keys[keys.len() - 1] == k);
            }
        }
        if wanted(m.values[keys.last()]) {
            assert(picked == before.push(keys.last()));
            if before.contains(k) {
                let i = choose|i: int| 0 <= i < before.len() && before[i] == k;
                assert(picked[i] == k);
            }
            assert(picked[before.len() as int] == keys.last());
        }
    }
}

/// The overlay is read anew, at the same place, after a change in the verified layer, and only
/// then.
pub proof fn the_overlay_follows_the_verified_layer(
    s: WatchView,
    w: InotifyWatcher,
    source: Seq<char>,
    at: u64,
    i: int,
)
    ensures
        w.overlay_merged_path is None || !path::under(source, w.verified_path@) ==> s.refresh(
            w,
            source,
            at,
        ) == (s, Seq::<ActionView>::empty()),
        w.overlay_merged_path matches Some(merged) ==> (path::relative(
            source,
            w.verified_path@,
        ) matches Some(rel) ==> {
            &&& !s.overlay_refreshed.has(path::key(source)) ==> s.refresh(w, source, at).1 == seq![
                ActionView::RefreshOverlay(path::joined(merged@, rel)),
            ]
            &&& 0 <= i < s.refresh(w, source, at).1.len() ==> s.refresh(w, source, at).1[i]
                == ActionView::RefreshOverlay(path::joined(merged@, rel))
        }),
        s.refresh(w, source, at).0.pending == s.pending,
        s.refresh(w, source, at).0.failed == s.failed,
        s.refresh(w, source, at).0.announced == s.announced,
{
}

/// A watched directory waits for validation where it lies in the verified layer and holds an
/// SFV file; one that waits already goes on as it did.
pub proof fn directories_with_sfv_wait(
    s: WatchView,
    w: InotifyWatcher,
    full: Seq<char>,
    has_sfv: bool,
    at: u64,
)
    requires
        s.wf(),
    ensures
        path::under(full, w.verified_path@) && has_sfv ==> s.watched(
            w,
            full,
            has_sfv,
            at,
        ).pending.has(path::key(full)),
        path::under(full, w.verified_path@) && has_sfv && !s.pending.has(path::key(full))
            ==> s.watched(w, full, has_sfv, at).pending.values[path::key(full)].last_event == at
            && !s.watched(w, full, has_sfv, at).pending.values[path::key(full)].notified,
        !path::under(full, w.verified_path@) || !has_sfv || s.pending.has(path::key(full))
            ==> s.watched(w, full, has_sfv, at) == s,
{
    lru_map::bounded_map_stays_bounded(
        s.pending,
        path::key(full),
        inotify_watcher::fresh_pending(at),
    );
}

/// After events were lost only directories of the verified layer that hold an SFV file wait,
/// all of them from that instant on; nothing counts as failed, and what was announced stays so.
pub proof fn recovery_starts_anew(
    s: WatchView,
    w: InotifyWatcher,
    watched: Seq<(Seq<char>, bool)>,
    n: nat,
    at: u64,
    k: Seq<char>,
)
    requires
        s.wf(),
        n <= watched.len(),
    ensures
        ({
            let r = s.recovered(w, watched, n, at);
            &&& r.pending.wf()
            &&& r.pending.has(k) ==> r.pending.values[k] == (PendingDirectory {
                last_event: at,
                notified: false,
                notified_at: None,
            }) && exists|j: int|
                0 <= j < n && path::key((#[trigger] watched[j]).0) == k && watched[j].1
                    && path::under(watched[j].0, w.verified_path@)
            &&& n > 0 && watched[n - 1].1 && path::under(watched[n - 1].0, w.verified_path@)
                ==> r.pending.has(path::key(watched[n - 1].0))
            &&& !r.failed.has(k)
            &&& r.announced == s.announced
            &&& r.temp_logged == s.temp_logged
        }),
    decreases n,
{
    lru_map::bounded_map_stays_bounded(s.pending, k, inotify_watcher::fresh_pending(at));
    lru_map::bounded_map_stays_bounded(s.failed, k, s.failed.values[k]);
    if n > 0 {
        let before = s.recovered(w, watched, (n - 1) as nat, at);
        let (p, has_sfv) = watched[n - 1];
        recovery_starts_anew(s, w, watched, (n - 1) as nat, at, k);
        lru_map::bounded_map_stays_bounded(
            before.pending,
            path::key(p),
            inotify_watcher::fresh_pending(at),
        );
        if k != path::key(p) {
            laws::lru_map::setting_keeps_the_others(
                before.pending,
                path::key(p),
                inotify_watcher::fresh_pending(at),
                k,
            );
        }
    }
}

/// A path below a layer lies at the same place below the backend, whichever layer it is; any
/// other path stands for itself.
pub proof fn other_paths_stand_for_themselves(
    source: Seq<char>,
    verified: Seq<char>,
    unverified: Seq<char>,
    backend: Seq<char>,
)
    requires
        !path::under(source, verified),
        !path::under(source, unverified),
    ensures
        inotify_watcher::backend_path(source, verified, unverified, backend) == source,
{
}

/// The SFV file of a directory is the first of those that are listed.
pub proof fn the_first_sfv_file_counts(entries: Seq<Seq<char>>)
    ensures
        match inotify_watcher::first_sfv(entries) {
            Some(t) => exists|i: int|
                0 <= i < entries.len() && #[trigger] entries[i] == t && sfv::sfv_named(t)
                    && forall|j: int| 0 <= j < i ==> !sfv::sfv_named(#[trigger] entries[j]),
            None => forall|j: int|
                0 <= j < entries.len() ==> !sfv::sfv_named(#[trigger] entries[j]),
        },
    decreases entries.len(),
{
    if entries.len() > 0 {
        if sfv::sfv_named(entries[0]) {
        } else {
            let rest = entries.drop_first();
            the_first_sfv_file_counts(rest);
            match inotify_watcher::first_sfv(rest) {
                Some(t) => {
                    let i = choose|i: int|
                        0 <= i < rest.len() && #[trigger] rest[i] == t && sfv::sfv_named(t)
                            && forall|j: int| 0 <= j < i ==> !sfv::sfv_named(#[trigger] rest[j]);
                    assert(entries[i + 1] == t);
                    assert forall|j: int| 0 <= j < i + 1 implies !sfv::sfv_named(
                        #[trigger] entries[j],
                    ) by {
                        if j > 0 {
                            assert(rest[j - 1] == entries[j]);
                        }
                    }
                },
                None => {
                    assert forall|j: int| 0 <= j < entries.len() implies !sfv::sfv_named(
                        #[trigger] entries[j],
                    ) by {
                        if j > 0 {
                            assert(rest[j - 1] == entries[j]);
                        }
                    }
                },
            }
        }
    }
}

/// What is cleaned up is told as no longer stuck, and nothing is cleaned up before its time.
pub proof fn cleanup_waits_a_minute(s: WatchView, w: InotifyWatcher, now: u64, at: u64, k: Seq<char>)
    requires
        s.wf(),
        s.last_cleanup <= at,
    ensures
        at - s.last_cleanup < 60 * 1_000_000_000 ==> s.cleaned(w, now, at) == (
            s,
            Seq::<ActionView>::empty(),
        ),
        at - s.last_cleanup >= 60 * 1_000_000_000 ==> {
            &&& s.cleaned(w, now, at).0.last_cleanup == at
            &&& s.cleaned(w, now, at).0.overlay_refreshed == s.overlay_refreshed
            &&& s.cleaned(w, now, at).1.contains(ActionView::ClearStuck(k)) <==> s.failed.has(k)
                && inotify_watcher::failure_expired(s.failed.values[k], now)
        },
{
    if at - s.last_cleanup >= 60 * 1_000_000_000 {
        let wanted = |f: FailedValidation| inotify_watcher::failure_expired(f, now);
        let gone = inotify_watcher::keys_where(s.failed, s.failed.keys, wanted);
        let told = s.cleaned(w, now, at).1;
        exactly_the_wanted_are_picked(s.failed, s.failed.keys, wanted, k);
        if gone.contains(k) {
            let i = choose|i: int| 0 <= i < gone.len() && gone[i] == k;
            assert(told[i] == ActionView::ClearStuck(k));
        }
        if told.contains(ActionView::ClearStuck(k)) {
            let i = choose|i: int| 0 <= i < told.len() && told[i] == ActionView::ClearStuck(k);
            assert(gone[i] == k);
        }
    }
}

/// Records of failures are kept for an hour after the last attempt, directories that were
/// announced for as long as the settings say.
pub proof fn records_expire_in_time(f: FailedValidation, p: PendingDirectory, now: u64, secs: u64)
    ensures
        f.last_attempt <= now ==> inotify_watcher::failure_expired(f, now) == (now - f.last_attempt
            >= 3600 * 1_000_000_000),
        !p.notified ==> !inotify_watcher::pending_expired(p, now, secs),
        p.notified ==> (p.notified_at matches Some(t) ==> (t <= now
            ==> inotify_watcher::pending_expired(p, now, secs) == (now - t >= secs
            * 1_000_000_000))),
{
}

/// The walk goes to the directory that was found last among those that lie less than ten deep,
/// while there are watches left, and to none otherwise.
pub proof fn the_walk_stays_within_its_limits(
    todo: Seq<(Seq<char>, usize)>,
    count: int,
    max_watches: int,
)
    ensures
        ({
            let left = inotify_watcher::next_todo(todo, count, max_watches);
            &&& left.is_prefix_of(todo)
            &&& left.len() > 0 ==> left.last().1 < 10 && count < max_watches
            &&& count < max_watches ==> forall|i: int|
                left.len() <= i < todo.len() ==> (#[trigger] todo[i]).1 >= 10
        }),
    decreases todo.len(),
{
    if todo.len() > 0 && !(todo.last().1 < 10 && count < max_watches) {
        the_walk_stays_within_its_limits(todo.drop_last(), count, max_watches);
        let left = inotify_watcher::next_todo(todo, count, max_watches);
        assert forall|i: int|
            count < max_watches && left.len() <= i < todo.len() implies (#[trigger] todo[i]).1
            >= 10 by {
            if i < todo.len() - 1 {
                assert(todo.drop_last()[i] == todo[i]);
            }
        }
    }
}

/// The walk goes on to every child that is not excluded, one level deeper, and to no other.
pub proof fn the_walk_covers_the_children(
    children: Seq<Seq<char>>,
    exclude_dirs: Seq<Seq<char>>,
    depth: usize,
    t: Seq<char>,
    d: usize,
)
    ensures
        inotify_watcher::children_todo(children, exclude_dirs, depth).contains((t, d)) <==> d
            == depth && children.contains(t) && !inotify_watcher::excluded(exclude_dirs, t),
    decreases children.len(),
{
    if children.len() > 0 {
        let rest = children.drop_first();
        let before = inotify_watcher::children_todo(rest, exclude_dirs, depth);
        let all = inotify_watcher::children_todo(children, exclude_dirs, depth);
        the_walk_covers_the_children(rest, exclude_dirs, depth, t, d);
        assert(children.contains(t) <==> rest.contains(t) || t == children[0]) by {
            if children.contains(t) {
                let i = choose|i: int| 0 <= i < children.len() && children[i] == t;
                if i > 0 {
                    assert(rest[i - 1] == t);
                }
            }
            if rest.contains(t) {
                let i = choose|i: int| 0 <= i < rest.len() && rest[i] == t;
                assert(children[i + 1] == t);
            }
        }
        if !inotify_watcher::excluded(exclude_dirs, children[0]) {
            assert(all == before.push((children[0], depth)));
            if before.contains((t, d)) {
                let i = choose|i: int| 0 <= i < before.len() && before[i] == (t, d);
                assert(all[i] == (t, d));
            }
            assert(all[before.len() as int] == (children[0], depth));
        }
    }
}

} // verus!
