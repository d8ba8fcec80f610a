//! Which sections Plex is asked to scan.

use crate::emby_notifier::Fallback;
use crate::path;
use crate::plex_notifier;
use crate::plex_notifier::PlexActionView;
use crate::plex_notifier::PlexBatch;
use crate::plex_notifier::PlexDirectory;
use crate::plex_notifier::PlexNotifier;
use crate::text;
use vstd::prelude::*;

verus! {

/// The name is one that libraries commonly have, in whatever case.
pub open spec fn is_common(name: Seq<char>) -> bool {
    ||| text::same_ignoring_case(name, "Movies"@)
    ||| text::same_ignoring_case(name, "TV Shows"@)
    ||| text::same_ignoring_case(name, "TV"@)
    ||| text::same_ignoring_case(name, "Television"@)
    ||| text::same_ignoring_case(name, "Music"@)
    ||| text::same_ignoring_case(name, "Photos"@)
    ||| text::same_ignoring_case(name, "Home Videos"@)
}

/// The section is meant by the name of a directory: it has that title, or both are the same
/// common name but for case.
pub open spec fn means(name: Seq<char>, s: PlexDirectory) -> bool {
    s.title@ == name || (is_common(name) && text::same_ignoring_case(name, s.title@))
}

proof fn same_is_symmetric(a: Seq<char>, b: Seq<char>, c: Seq<char>)
    ensures
        text::same_ignoring_case(a, b) == text::same_ignoring_case(b, a),
        text::same_ignoring_case(a, b) && text::same_ignoring_case(c, b)
            ==> text::same_ignoring_case(a, c),
        text::same_ignoring_case(a, b) && text::same_ignoring_case(a, c)
            ==> text::same_ignoring_case(b, c) && text::same_ignoring_case(c, b),
{
    if text::same_ignoring_case(a, b) {
        assert forall|i: int| 0 <= i < b.len() implies text::ascii_lower(#[trigger] b[i])
            == text::ascii_lower(a[i]) by {
            assert(text::ascii_lower(a[i]) == text::ascii_lower(b[i]));
        }
    }
    if text::same_ignoring_case(b, a) {
        assert forall|i: int| 0 <= i < a.len() implies text::ascii_lower(#[trigger] a[i])
            == text::ascii_lower(b[i]) by {
            assert(text::ascii_lower(b[i]) == text::ascii_lower(a[i]));
        }
    }
    if text::same_ignoring_case(a, b) && text::same_ignoring_case(c, b) {
        assert forall|i: int| 0 <= i < a.len() implies text::ascii_lower(#[trigger] a[i])
            == text::ascii_lower(c[i]) by {
            assert(text::ascii_lower(c[i]) == text::ascii_lower(b[i]));
        }
    }
    if text::same_ignoring_case(a, b) && text::same_ignoring_case(a, c) {
        assert forall|i: int| 0 <= i < b.len() implies text::ascii_lower(#[trigger] b[i])
            == text::ascii_lower(c[i]) by {
            assert(text::ascii_lower(a[i]) == text::ascii_lower(b[i]));
            assert(text::ascii_lower(a[i]) == text::ascii_lower(c[i]));
        }
        assert forall|i: int| 0 <= i < c.len() implies text::ascii_lower(#[trigger] c[i])
            == text::ascii_lower(b[i]) by {
            assert(text::ascii_lower(a[i]) == text::ascii_lower(b[i]));
            assert(text::ascii_lower(a[i]) == text::ascii_lower(c[i]));
        }
    }
}

proof fn titled_is_there(sections: Seq<PlexDirectory>, t: Seq<char>)
    ensures
        match plex_notifier::titled(sections, t) {
            Some(key) => exists|i: int|
                0 <= i < sections.len() && (#[trigger] sections[i]).title@ == t && sections[i].key@
                    == key,
            None => forall|i: int| 0 <= i < sections.len() ==> (#[trigger] sections[i]).title@ != t,
        },
        match plex_notifier::titled_in_any_case(sections, t) {
            Some(key) => exists|i: int|
                0 <= i < sections.len() && text::same_ignoring_case(
                    (#[trigger] sections[i]).title@,
                    t,
                ) && sections[i].key@ == key,
            None => forall|i: int|
                0 <= i < sections.len() ==> !text::same_ignoring_case(
                    (#[trigger] sections[i]).title@,
                    t,
                ),
        },
    decreases sections.len(),
{
    if sections.len() > 0 {
        let rest = sections.drop_first();
        titled_is_there(rest, t);
        assert forall|i: int|
            #![trigger rest[i]]
            0 <= i < rest.len() implies rest[i] == sections[i + 1] by {}
        assert forall|i: int|
            #![trigger sections[i]]
            0 < i < sections.len() implies rest[i - 1] == sections[i] by {}
    }
}

proof fn commonly_titled_is_there(
    sections: Seq<PlexDirectory>,
    name: Seq<char>,
    names: Seq<Seq<char>>,
)
    ensures
        match plex_notifier::commonly_titled(sections, name, names) {
            Some(key) => exists|i: int|
                0 <= i < sections.len() && text::same_ignoring_case(
                    name,
                    (#[trigger] sections[i]).title@,
                ) && sections[i].key@ == key && exists|k: int|
                    0 <= k < names.len() && text::same_ignoring_case(name, #[trigger] names[k]),
            None => (exists|k: int|
                0 <= k < names.len() && text::same_ignoring_case(name, #[trigger] names[k]))
                ==> forall|i: int|
                0 <= i < sections.len() ==> !text::same_ignoring_case(
                    name,
                    (#[trigger] sections[i]).title@,
                ),
        },
    decreases names.len(),
{
    if names.len() > 0 {
        let rest = names.drop_first();
        commonly_titled_is_there(sections, name, rest);
        assert forall|k: int|
            #![trigger rest[k]]
            0 <= k < rest.len() implies rest[k] == names[k + 1] by {}
        assert forall|k: int|
            #![trigger names[k]]
            0 < k < names.len() implies rest[k - 1] == names[k] by {}
        if text::same_ignoring_case(name, names[0]) {
            titled_is_there(sections, names[0]);
            assert forall|i: int| 0 <= i < sections.len() implies text::same_ignoring_case(
                name,
                (#[trigger] sections[i]).title@,
            ) == text::same_ignoring_case(sections[i].title@, names[0]) by {
                same_is_symmetric(name, names[0], sections[i].title@);
                same_is_symmetric(name, sections[i].title@, names[0]);
                same_is_symmetric(sections[i].title@, names[0], name);
            }
        }
    }
}

/// A section is found for a path exactly where one of its directory names means one; it is one
/// that the first such name means, and by its exact title where there is one.
pub proof fn sections_are_found_by_name(sections: Seq<PlexDirectory>, names: Seq<Seq<char>>)
    ensures
        match plex_notifier::section_of(sections, names) {
            Some(key) => exists|d: int, i: int|
                #![trigger names[d], sections[i]]
                0 <= d < names.len() && 0 <= i < sections.len() && means(names[d], sections[i])
                    && sections[i].key@ == key && (forall|c: int, j: int|
                    #![trigger names[c], sections[j]]
                    0 <= c < d && 0 <= j < sections.len() ==> !means(names[c], sections[j])) && (
                sections[i].title@ != names[d] ==> forall|j: int|
                    0 <= j < sections.len() ==> (#[trigger] sections[j]).title@ != names[d]),
            None => forall|d: int, i: int|
                #![trigger names[d], sections[i]]
                0 <= d < names.len() && 0 <= i < sections.len() ==> !means(names[d], sections[i]),
        },
    decreases names.len(),
{
    if names.len() > 0 {
        let name = names[0];
        let rest = names.drop_first();
        let common = plex_notifier::common_sections();
        titled_is_there(sections, name);
        commonly_titled_is_there(sections, name, common);
        assert(common[0] == "Movies"@ && common[1] == "TV Shows"@ && common[2] == "TV"@ && common[3]
            == "Television"@ && common[4] == "Music"@ && common[5] == "Photos"@ && common[6]
            == "Home Videos"@);
        assert(is_common(name) <==> exists|k: int|
            0 <= k < common.len() && text::same_ignoring_case(name, #[trigger] common[k]));
        match plex_notifier::titled(sections, name) {
            Some(key) => {
                let i = choose|i: int|
                    0 <= i < sections.len() && (#[trigger] sections[i]).title@ == name
                        && sections[i].key@ == key;
                assert(means(names[0], sections[i]));
            },
            None => {
                match plex_notifier::commonly_titled(sections, name, common) {
                    Some(key) => {
                        let i = choose|i: int|
                            0 <= i < sections.len() && text::same_ignoring_case(
                                name,
                                (#[trigger] sections[i]).title@,
                            ) && sections[i].key@ == key && exists|k: int|
                                0 <= k < common.len() && text::same_ignoring_case(
                                    name,
                                    #[trigger] common[k],
                                );
                        assert(means(names[0], sections[i]));
                    },
                    None => {
                        assert forall|i: int| 0 <= i < sections.len() implies !means(
                            name,
                            #[trigger] sections[i],
                        ) by {}
                        sections_are_found_by_name(sections, rest);
                        assert forall|d: int|
                            #![trigger rest[d]]
                            0 <= d < rest.len() implies rest[d] == names[d + 1] by {}
                        match plex_notifier::section_of(sections, rest) {
                            Some(key) => {
                                let (d, i) = choose|d: int, i: int|
                                    #![trigger rest[d], sections[i]]
                                    0 <= d < rest.len() && 0 <= i < sections.len() && means(
                                        rest[d],
                                        sections[i],
                                    ) && sections[i].key@ == key && (forall|c: int, j: int|
                                        #![trigger rest[c], sections[j]]
                                        0 <= c < d && 0 <= j < sections.len() ==> !means(
                                            rest[c],
                                            sections[j],
                                        )) && (sections[i].title@ != rest[d] ==> forall|j: int|
                                        0 <= j < sections.len() ==> (
                                        #[trigger] sections[j]).title@ != rest[d]);
                                assert(means(names[d + 1], sections[i]));
                                assert forall|c: int, j: int|
                                    #![trigger names[c], sections[j]]
                                    0 <= c < d + 1 && 0 <= j < sections.len() implies !means(
                                    names[c],
                                    sections[j],
                                ) by {
                                    if c > 0 {
                                        assert(rest[c - 1] == names[c]);
                                    }
                                }
                            },
                            None => {
                                assert forall|d: int, i: int|
                                    #![trigger names[d], sections[i]]
                                    0 <= d < names.len() && 0 <= i
                                        < sections.len() implies !means(
                                    names[d],
                                    sections[i],
                                ) by {
                                    if d > 0 {
                                        assert(rest[d - 1] == names[d]);
                                    }
                                }
                            },
                        }
                    },
                }
            },
        }
    }
}

/// Each directory of a batch is scanned in the section that it means, or, where it means none,
/// left to the fallback; past the last one the batch is done.
pub proof fn every_directory_has_its_turn(
    b: PlexBatch,
    n: PlexNotifier,
    sections: Seq<PlexDirectory>,
    now: u64,
    key: Seq<char>,
)
    ensures
        b.at >= b.paths@.len() ==> b.next_action(n, sections, now) == PlexActionView::Done,
        b.at < b.paths@.len() ==> {
            let t = b.paths@[b.at as int]@;
            let section = plex_notifier::section_of(sections, text::split(t, '/'));
            &&& section == Some(key) && (forall|i: int|
                0 <= i < b.refreshed@.len() ==> (#[trigger] b.refreshed@[i])@ != key)
                ==> b.next_action(n, sections, now) == PlexActionView::Refresh(key, t)
            &&& section == Some(key) && (exists|i: int|
                0 <= i < b.refreshed@.len() && (#[trigger] b.refreshed@[i])@ == key)
                ==> b.next_action(n, sections, now) == PlexActionView::AlreadyRefreshed
            &&& section is None && !n.config.fallback_full_refresh ==> b.next_action(
                n,
                sections,
                now,
            ) == PlexActionView::Skip
            &&& section is None && n.config.fallback_full_refresh && n.last_full_refresh is None
                ==> b.next_action(n, sections, now) == PlexActionView::FullRefresh
        },
{
    let all = text::views(b.refreshed@);
    assert forall|i: int|
        #![trigger all[i]]
        #![trigger b.refreshed@[i]]
        0 <= i < all.len() implies all[i] == b.refreshed@[i]@ by {}
}

/// A full scan is the way out only where it is wanted, and not while the cooldown after the
/// last one runs, of which the rest is told.
pub proof fn full_scans_wait_for_the_cooldown(n: PlexNotifier, now: u64)
    ensures
        !n.config.fallback_full_refresh ==> n.fallback_at(now) == Fallback::Skip,
        n.config.fallback_full_refresh && n.last_full_refresh is None ==> n.fallback_at(now)
            == Fallback::FullRefresh,
        n.config.fallback_full_refresh ==> (n.last_full_refresh matches Some(t) ==> {
            let cooldown = n.config.full_refresh_cooldown_secs;
            &&& t <= now && now - t >= cooldown * 1_000_000_000 ==> n.fallback_at(now)
                == Fallback::FullRefresh
            &&& t <= now && now - t < cooldown * 1_000_000_000 ==> (n.fallback_at(
                now,
            ) matches Fallback::CoolingDown(left) && 0 < left <= cooldown && (left - 1)
                * 1_000_000_000 < t + cooldown * 1_000_000_000 - now <= left * 1_000_000_000)
        }),
{
}

/// After a deletion the directory is scanned, or what held it where it is gone too.
pub proof fn deletions_scan_what_is_left(t: Seq<char>, p: Seq<char>)
    ensures
        plex_notifier::surviving(t, true) == t,
        path::parent_of(t) == Some(p) ==> plex_notifier::surviving(t, false) == p,
        path::parent_of(t) is None ==> plex_notifier::surviving(t, false) == t,
{
}

} // verus!
