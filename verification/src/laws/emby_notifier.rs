//! What Emby and Jellyfin are asked to refresh.

use crate::config::PathMappingConfig;
use crate::emby_notifier;
use crate::emby_notifier::CreatedPlanView;
use crate::emby_notifier::EmbyActionView;
use crate::emby_notifier::EmbyBatchView;
use crate::emby_notifier::EmbyNotifier;
use crate::emby_notifier::EmbyStage;
use crate::emby_notifier::Fallback;
use crate::emby_notifier::ItemView;
use crate::emby_notifier::NewContentView;
use crate::emby_notifier::VirtualFolder;
use crate::laws;
use crate::media_notifier_common;
use crate::media_notifier_common::PathProbe;
use crate::metrics::Counter;
use crate::path;
use crate::text;
use vstd::prelude::*;

verus! {

/// Of the items that a server lists exactly those are used that have a path and are no plain
/// folders, in their order.
pub proof fn plain_folders_are_not_used(items: Seq<ItemView>, item: ItemView)
    ensures
        emby_notifier::usable_items(items.push(item)) == (if item.path is Some && item.item_type
            != Some("Folder"@) {
            emby_notifier::usable_items(items).push(item)
        } else {
            emby_notifier::usable_items(items)
        }),
        emby_notifier::usable_items(Seq::empty()) == Seq::<ItemView>::empty(),
{
    assert(items.push(item).drop_last() =~= items);
}

proof fn text_put_in(s: Seq<Seq<char>>, t: Seq<char>, u: Seq<char>)
    ensures
        text::with_text(s, t).contains(u) <==> s.contains(u) || u == t,
        s.no_duplicates() ==> text::with_text(s, t).no_duplicates(),
{
    let all = text::with_text(s, t);
    if s.contains(u) {
        let i = choose|i: int| 0 <= i < s.len() && s[i] == u;
        assert(all[i] == u);
    }
    if u == t && !s.contains(t) {
        assert(all[s.len() as int] == t);
    }
}

/// The item lies in one of the directories, as the server sees them.
pub open spec fn lies_within(
    item: ItemView,
    dirs: Seq<Seq<char>>,
    mapping: Option<PathMappingConfig>,
) -> bool {
    item.path matches Some(p) && exists|d: int|
        0 <= d < dirs.len() && path::under(
            p,
            media_notifier_common::translated(#[trigger] dirs[d], mapping),
        )
}

/// The ids that are matched are exactly those of the items that lie within a directory of the
/// batch, each once.
pub proof fn items_within_are_matched(
    items: Seq<ItemView>,
    dirs: Seq<Seq<char>>,
    mapping: Option<PathMappingConfig>,
    n: nat,
    id: Seq<char>,
)
    requires
        n <= items.len(),
    ensures
        emby_notifier::matching_ids(items, dirs, mapping, n).contains(id) <==> exists|i: int|
            0 <= i < n && (#[trigger] items[i]).id == id && lies_within(items[i], dirs, mapping),
        emby_notifier::matching_ids(items, dirs, mapping, n).no_duplicates(),
    decreases n,
{
    if n > 0 {
        let before = emby_notifier::matching_ids(items, dirs, mapping, (n - 1) as nat);
        items_within_are_matched(items, dirs, mapping, (n - 1) as nat, id);
        text_put_in(before, items[n - 1].id, id);
        if lies_within(items[n - 1], dirs, mapping) && items[n - 1].id == id {
            assert(before.contains(id) || items[n - 1].id == id);
        }
    }
}

/// The item stands exactly there.
pub open spec fn stands_at(item: ItemView, t: Seq<char>) -> bool {
    item.path matches Some(p) && path::parts(p) == path::parts(t)
}

proof fn item_at_is_first(items: Seq<ItemView>, t: Seq<char>)
    ensures
        match emby_notifier::item_at(items, t) {
            Some(id) => exists|i: int|
                0 <= i < items.len() && stands_at(#[trigger] items[i], t) && items[i].id == id,
            None => forall|i: int| 0 <= i < items.len() ==> !stands_at(#[trigger] items[i], t),
        },
    decreases items.len(),
{
    if items.len() > 0 {
        if stands_at(items[0], t) {
        } else {
            let rest = items.drop_first();
            item_at_is_first(rest, t);
            assert(emby_notifier::item_at(items, t) == emby_notifier::item_at(rest, t));
            match emby_notifier::item_at(rest, t) {
                Some(id) => {
                    let i = choose|i: int|
                        0 <= i < rest.len() && stands_at(#[trigger] rest[i], t) && rest[i].id == id;
                    assert(stands_at(items[i + 1], t));
                },
                None => {
                    assert forall|i: int| 0 <= i < items.len() implies !stands_at(
                        #[trigger] items[i],
                        t,
                    ) by {
                        if i > 0 {
                            assert(rest[i - 1] == items[i]);
                        }
                    }
                },
            }
        }
    }
}

/// The item stands above the path, but not at the root.
pub open spec fn stands_above(item: ItemView, t: Seq<char>) -> bool {
    item.path matches Some(p) && path::under(t, p) && 1 < path::parts(p).len() < path::parts(
        t,
    ).len()
}

/// For a path that no item matches, the nearest item above it is found, where there is one.
pub proof fn the_nearest_item_above_is_found(items: Seq<ItemView>, t: Seq<char>)
    ensures
        match emby_notifier::nearest_parent(items, t) {
            Some(id) => exists|i: int|
                0 <= i < items.len() && stands_above(#[trigger] items[i], t) && items[i].id == id
                    && forall|j: int|
                    0 <= j < items.len() && stands_above(#[trigger] items[j], t) ==> path::parts(
                        items[j].path->0,
                    ).len() <= path::parts(items[i].path->0).len(),
            None => forall|i: int| 0 <= i < items.len() ==> !stands_above(#[trigger] items[i], t),
        },
    decreases t.len(),
{
    laws::path::the_parent_drops_the_last_component(t);
    match path::parent_of(t) {
        Some(p) => {
            path::parent_is_shorter(t);
            let all = path::parts(t);
            let up = path::parts(p);
            assert forall|i: int|
                0 <= i < items.len() && stands_above(#[trigger] items[i], t) implies stands_at(
                items[i],
                p,
            ) || stands_above(items[i], p) by {
                let own = path::parts(items[i].path->0);
                assert(up.take(own.len() as int) =~= all.take(own.len() as int));
                if own.len() == up.len() {
                    assert(up.take(own.len() as int) =~= up);
                }
            }
            assert forall|i: int|
                0 <= i < items.len() && (stands_above(#[trigger] items[i], p) || (stands_at(
                    items[i],
                    p,
                ) && up.len() > 1)) implies stands_above(items[i], t) by {
                let own = path::parts(items[i].path->0);
                assert(up.take(own.len() as int) =~= all.take(own.len() as int));
                if own.len() == up.len() {
                    assert(up.take(own.len() as int) =~= up);
                }
            }
            if up.len() > 1 {
                item_at_is_first(items, p);
                the_nearest_item_above_is_found(items, p);
                match emby_notifier::item_at(items, p) {
                    Some(id) => {
                        let i = choose|i: int|
                            0 <= i < items.len() && stands_at(#[trigger] items[i], p)
                                && items[i].id == id;
                        assert(stands_above(items[i], t));
                    },
                    None => {
                        if let Some(id) = emby_notifier::nearest_parent(items, p) {
                            let i = choose|i: int|
                                0 <= i < items.len() && stands_above(#[trigger] items[i], p)
                                    && items[i].id == id && forall|j: int|
                                    0 <= j < items.len() && stands_above(#[trigger] items[j], p)
                                        ==> path::parts(items[j].path->0).len() <= path::parts(
                                        items[i].path->0,
                                    ).len();
                            assert(stands_above(items[i], t));
                        }
                    },
                }
            }
        },
        None => {},
    }
}

/// The ids of the items above are exactly those of the nearest one above each directory, as the
/// server sees it, each once.
pub proof fn nearest_items_are_refreshed(
    items: Seq<ItemView>,
    dirs: Seq<Seq<char>>,
    mapping: Option<PathMappingConfig>,
    n: nat,
    id: Seq<char>,
)
    requires
        n <= dirs.len(),
    ensures
        emby_notifier::parent_ids(items, dirs, mapping, n).contains(id) <==> exists|d: int|
            0 <= d < n && emby_notifier::nearest_parent(
                items,
                media_notifier_common::translated(#[trigger] dirs[d], mapping),
            ) == Some(id),
        emby_notifier::parent_ids(items, dirs, mapping, n).no_duplicates(),
    decreases n,
{
    if n > 0 {
        let before = emby_notifier::parent_ids(items, dirs, mapping, (n - 1) as nat);
        nearest_items_are_refreshed(items, dirs, mapping, (n - 1) as nat, id);
        if let Some(own) = emby_notifier::nearest_parent(
            items,
            media_notifier_common::translated(dirs[n - 1], mapping),
        ) {
            text_put_in(before, own, id);
        }
    }
}

/// A batch refreshes the items within its directories; only where there is none, the nearest
/// items above; and only where there is none of these either, the directories are new content.
/// With no directory left there is nothing to do.
pub proof fn batches_refresh_what_is_known(
    e: EmbyNotifier,
    paths: Seq<Seq<char>>,
    probes: Seq<PathProbe>,
    items: Seq<ItemView>,
    i: int,
    d: int,
)
    ensures
        ({
            let dirs = media_notifier_common::refresh_targets(paths, probes);
            let mapping = e.config.path_mapping;
            let plan = e.plan(paths, probes, items);
            &&& dirs.len() == 0 ==> plan == CreatedPlanView::Nothing
            &&& dirs.len() > 0 ==> plan != CreatedPlanView::Nothing
            &&& 0 <= i < items.len() && lies_within(items[i], dirs, mapping)
                ==> (plan matches CreatedPlanView::RefreshItems(ids) && ids.contains(items[i].id))
            &&& plan matches CreatedPlanView::NewContent(new) ==> {
                &&& new == dirs
                &&& 0 <= i < items.len() ==> !lies_within(items[i], dirs, mapping)
                &&& 0 <= d < dirs.len() && 0 <= i < items.len() ==> !stands_above(
                    items[i],
                    media_notifier_common::translated(dirs[d], mapping),
                )
            }
            &&& plan matches CreatedPlanView::RefreshItems(ids) ==> ids.len() > 0
        }),
{
    let dirs = media_notifier_common::refresh_targets(paths, probes);
    let mapping = e.config.path_mapping;
    let direct = emby_notifier::matching_ids(items, dirs, mapping, items.len());
    let above = emby_notifier::parent_ids(items, dirs, mapping, dirs.len());
    if 0 <= i < items.len() {
        items_within_are_matched(items, dirs, mapping, items.len(), items[i].id);
        if lies_within(items[i], dirs, mapping) {
            assert(direct.contains(items[i].id));
        }
    }
    if dirs.len() == 0 && direct.len() > 0 {
        items_within_are_matched(items, dirs, mapping, items.len(), direct[0]);
        assert(direct.contains(direct[0]));
    }
    if 0 <= d < dirs.len() && 0 <= i < items.len() {
        let t = media_notifier_common::translated(dirs[d], mapping);
        the_nearest_item_above_is_found(items, t);
        if stands_above(items[i], t) {
            let id = emby_notifier::nearest_parent(items, t)->0;
            nearest_items_are_refreshed(items, dirs, mapping, dirs.len(), id);
            assert(above.contains(id));
        }
    }
}

/// A library is found for a path exactly where one of the libraries covers it; the library that
/// is found covers it, and its own id and setting are given.
pub proof fn libraries_are_found_where_they_cover(t: Seq<char>, folders: Seq<VirtualFolder>)
    ensures
        match emby_notifier::library_of(t, folders) {
            Some((id, monitored)) => exists|i: int, k: int|
                #![trigger folders[i].locations@[k]]
                0 <= i < folders.len() && 0 <= k < folders[i].locations@.len() && path::under(
                    t,
                    folders[i].locations@[k]@,
                ) && folders[i].item_id@ == id && monitored == (
                folders[i].library_options matches Some(o) && o.enable_realtime_monitor),
            None => forall|i: int, k: int|
                #![trigger folders[i].locations@[k]]
                0 <= i < folders.len() && 0 <= k < folders[i].locations@.len() ==> !path::under(
                    t,
                    folders[i].locations@[k]@,
                ),
        },
{
    if exists|j: int, k: int|
        #![trigger folders[j].locations@[k]]
        0 <= j < folders.len() && 0 <= k < folders[j].locations@.len() && path::under(
            t,
            folders[j].locations@[k]@,
        ) {
        let (j, k) = choose|j: int, k: int|
            #![trigger folders[j].locations@[k]]
            0 <= j < folders.len() && 0 <= k < folders[j].locations@.len() && path::under(
                t,
                folders[j].locations@[k]@,
            );
        emby_notifier::most_specific_library_owns(t, folders, j, k);
        let (_, i) = emby_notifier::owning_library(t, folders)->0;
        let m = choose|m: int|
            0 <= m < folders[i].locations@.len() && path::under(
                t,
                #[trigger] folders[i].locations@[m]@,
            ) && path::under(folders[i].locations@[m]@, folders[j].locations@[k]@);
        assert(path::under(t, folders[i].locations@[m]@));
    } else {
        nothing_owns(t, folders);
    }
}

proof fn nothing_owns(t: Seq<char>, folders: Seq<VirtualFolder>)
    requires
        forall|i: int, k: int|
            #![trigger folders[i].locations@[k]]
            0 <= i < folders.len() && 0 <= k < folders[i].locations@.len() ==> !path::under(
                t,
                folders[i].locations@[k]@,
            ),
    ensures
        emby_notifier::owning_library(t, folders) is None,
    decreases folders.len(),
{
    if folders.len() > 0 {
        let rest = folders.drop_last();
        assert forall|i: int, k: int|
            #![trigger rest[i].locations@[k]]
            0 <= i < rest.len() && 0 <= k < rest[i].locations@.len() implies !path::under(
            t,
            rest[i].locations@[k]@,
        ) by {
            assert(!path::under(t, folders[i].locations@[k]@));
        }
        nothing_owns(t, rest);
        let own = text::views(folders.last().locations@);
        assert forall|k: int| 0 <= k < own.len() implies !path::under(t, #[trigger] own[k]) by {
            assert(own[k] == folders[folders.len() - 1].locations@[k]@);
        }
        nothing_ranks(t, own);
    }
}

proof fn nothing_ranks(t: Seq<char>, locations: Seq<Seq<char>>)
    requires
        forall|k: int| 0 <= k < locations.len() ==> !path::under(t, #[trigger] locations[k]),
    ensures
        emby_notifier::best_rank(t, locations) is None,
    decreases locations.len(),
{
    if locations.len() > 0 {
        let rest = locations.drop_last();
        assert forall|k: int| 0 <= k < rest.len() implies !path::under(t, #[trigger] rest[k]) by {
            assert(rest[k] == locations[k]);
        }
        nothing_ranks(t, rest);
        assert(!path::under(t, locations[locations.len() - 1]));
    }
}

/// Of new content each directory, as the server sees it, goes one way: told by itself where a
/// monitored library covers it, with its library refreshed where another one does, and told as
/// unmatched where none does.
pub proof fn new_content_goes_one_way(
    dirs: Seq<Seq<char>>,
    mapping: Option<PathMappingConfig>,
    folders: Seq<VirtualFolder>,
    n: nat,
)
    requires
        0 < n <= dirs.len(),
    ensures
        ({
            let before = emby_notifier::sorted_by_library(dirs, mapping, folders, (n - 1) as nat);
            let after = emby_notifier::sorted_by_library(dirs, mapping, folders, n);
            let t = media_notifier_common::translated(dirs[n - 1], mapping);
            match emby_notifier::library_of(t, folders) {
                None => after.unmatched == before.unmatched.push(t) && after.monitored
                    == before.monitored && after.libraries == before.libraries,
                Some((id, true)) => after.monitored == before.monitored.push(t)
                    && after.monitored_libraries == before.monitored_libraries.push(id)
                    && after.unmatched == before.unmatched && after.libraries == before.libraries,
                Some((id, false)) => after.libraries.contains(id) && after.monitored
                    == before.monitored && after.unmatched == before.unmatched && forall|o: Seq<
                    char,
                >| #[trigger]
                    after.libraries.contains(o) <==> before.libraries.contains(o) || o == id,
            }
        }),
        emby_notifier::sorted_by_library(dirs, mapping, folders, n).monitored.len()
            == emby_notifier::sorted_by_library(dirs, mapping, folders, n).monitored_libraries.len(),
    decreases n,
{
    let before = emby_notifier::sorted_by_library(dirs, mapping, folders, (n - 1) as nat);
    let after = emby_notifier::sorted_by_library(dirs, mapping, folders, n);
    let t = media_notifier_common::translated(dirs[n - 1], mapping);
    if n > 1 {
        new_content_goes_one_way(dirs, mapping, folders, (n - 1) as nat);
    }
    if let Some((id, false)) = emby_notifier::library_of(t, folders) {
        assert forall|o: Seq<char>| #[trigger]
            after.libraries.contains(o) <==> before.libraries.contains(o) || o == id by {
            text_put_in(before.libraries, id, o);
        }
        text_put_in(before.libraries, id, id);
    }
}

/// A full scan is the way out only where it is wanted, and not while the cooldown after the
/// last one runs, of which the rest is told.
pub proof fn full_scans_wait_for_the_cooldown(e: EmbyNotifier, now: u64)
    ensures
        !e.config.fallback_full_refresh ==> e.fallback_at(now) == Fallback::Skip,
        e.config.fallback_full_refresh && e.last_full_refresh is None ==> e.fallback_at(now)
            == Fallback::FullRefresh,
        e.config.fallback_full_refresh ==> (e.last_full_refresh matches Some(t) ==> {
            let cooldown = e.config.full_refresh_cooldown_secs;
            &&& t <= now && now - t >= cooldown * 1_000_000_000 ==> e.fallback_at(now)
                == Fallback::FullRefresh
            &&& t <= now && now - t < cooldown * 1_000_000_000 ==> (e.fallback_at(
                now,
            ) matches Fallback::CoolingDown(left) && 0 < left <= cooldown && (left - 1)
                * 1_000_000_000 < t + cooldown * 1_000_000_000 - now <= left * 1_000_000_000)
        }),
{
}

/// What is announced first are the paths of monitored libraries, then the libraries, then the
/// paths that no library covers; a part without content is left out, and so all that there is
/// has its turn where the server takes everything.
pub proof fn announcements_leave_nothing_out(c: NewContentView, f: Fallback)
    requires
        c.libraries.len() <= usize::MAX,
    ensures
        ({
            let b = EmbyBatchView::start(c);
            &&& c.monitored.len() > 0 ==> b.action() == EmbyActionView::Tell(c.monitored)
            &&& c.monitored.len() == 0 && c.libraries.len() > 0 ==> b.action()
                == EmbyActionView::Refresh(c.libraries[0])
            &&& c.monitored.len() == 0 && c.libraries.len() == 0 && c.unmatched.len() > 0
                ==> b.action() == EmbyActionView::Tell(c.unmatched)
            &&& c.monitored.len() == 0 && c.libraries.len() == 0 && c.unmatched.len() == 0
                ==> b.action() == EmbyActionView::Done
            &&& c.monitored.len() > 0 && c.libraries.len() > 0 ==> b.after(true, f).action()
                == EmbyActionView::Refresh(c.libraries[0])
            &&& c.monitored.len() > 0 && c.libraries.len() == 0 && c.unmatched.len() > 0
                ==> b.after(true, f).action() == EmbyActionView::Tell(c.unmatched)
        }),
        ({
            let last = EmbyBatchView {
                content: c,
                stage: EmbyStage::Library((c.libraries.len() - 1) as usize),
            };
            c.libraries.len() > 0 && c.unmatched.len() > 0 ==> last.after(true, f).action()
                == EmbyActionView::Tell(c.unmatched) && last.after(false, f).action()
                == EmbyActionView::Tell(c.unmatched)
        }),
{
}

/// The list of items is fetched anew once the paths of monitored libraries were told, and once
/// the last library was refreshed, and not otherwise; paths are counted where they were told,
/// scans where they were made, and those that were put off.
pub proof fn replies_have_their_consequences(
    b: EmbyBatchView,
    ok: bool,
    f: Fallback,
    jellyfin: bool,
)
    requires
        b.wf(),
    ensures
        b.stage == EmbyStage::Monitored ==> b.outdates_items(ok) == ok,
        b.stage matches EmbyStage::Library(i) ==> b.outdates_items(ok) == (i
            == b.content.libraries.len() - 1),
        b.stage == EmbyStage::Unmatched || b.stage == EmbyStage::Scan || b.stage == EmbyStage::Done
            ==> !b.outdates_items(ok),
        b.stage == EmbyStage::Monitored && b.content.monitored.len() <= u64::MAX ==> b.counted(
            ok,
            f,
            jellyfin,
            Counter::EmbyTargetedNewContent,
        ) == (if ok {
            b.content.monitored.len() as int
        } else {
            0
        }),
        b.stage == EmbyStage::Scan ==> b.counted(ok, f, false, Counter::EmbyFullRefreshes) == (
        if ok {
            1int
        } else {
            0
        }) && b.counted(ok, f, true, Counter::JellyfinFullRefreshes) == (if ok {
            1int
        } else {
            0
        }) && b.counted(ok, f, true, Counter::EmbyFullRefreshes) == 0,
        b.stage == EmbyStage::Unmatched ==> b.counted(
            ok,
            f,
            jellyfin,
            Counter::FullRefreshCooldownSkips,
        ) == (if !ok && f is CoolingDown {
            1int
        } else {
            0
        }),
        forall|c: Counter|
            c != Counter::EmbyTargetedNewContent && c != Counter::EmbyFullRefreshes && c
                != Counter::JellyfinFullRefreshes && c != Counter::FullRefreshCooldownSkips
                ==> #[trigger] b.counted(ok, f, jellyfin, c) == 0,
{
}

} // verus!
