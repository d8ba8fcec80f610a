//! Which records Sonarr and Radarr rescan.

use crate::arr_notifier;
use crate::arr_notifier::ArrKind;
use crate::arr_notifier::ArrRecord;
use crate::path;
use crate::text;
use vstd::prelude::*;

verus! {

/// The place of a record, without separators at its end, is the path or lies above it.
pub open spec fn owns(r: ArrRecord, t: Seq<char>) -> bool {
    path::under(t, text::trim_end_char(r.path@, '/'))
}

/// The record owns the path, and no record that owns it lies deeper.
pub open spec fn owns_best(records: Seq<ArrRecord>, k: int, t: Seq<char>) -> bool {
    &&& 0 <= k < records.len()
    &&& owns(records[k], t)
    &&& forall|j: int|
        0 <= j < records.len() && owns(#[trigger] records[j], t) ==> path::parts(
            text::trim_end_char(records[j].path@, '/'),
        ).len() <= path::parts(text::trim_end_char(records[k].path@, '/')).len()
}

/// The record that a path is matched with owns it and lies deepest; there is one exactly where
/// a record owns the path.
pub proof fn the_deepest_owner_is_matched(records: Seq<ArrRecord>, t: Seq<char>)
    ensures
        match arr_notifier::closest(records, t) {
            Some(k) => owns_best(records, k, t) && arr_notifier::matched_id(records, t) == Some(
                records[k].id,
            ),
            None => arr_notifier::matched_id(records, t) is None && forall|j: int|
                0 <= j < records.len() ==> !owns(#[trigger] records[j], t),
        },
{
    if exists|j: int| 0 <= j < records.len() && owns(#[trigger] records[j], t) {
        let j = choose|j: int| 0 <= j < records.len() && owns(#[trigger] records[j], t);
        arr_notifier::closest_is_most_specific(records, t, j);
        let k = arr_notifier::closest(records, t)->0;
        assert forall|m: int|
            0 <= m < records.len() && owns(#[trigger] records[m], t) implies path::parts(
            text::trim_end_char(records[m].path@, '/'),
        ).len() <= path::parts(text::trim_end_char(records[k].path@, '/')).len() by {
            arr_notifier::closest_is_most_specific(records, t, m);
        }
    } else {
        unowned_is_unmatched(records, t);
    }
}

proof fn unowned_is_unmatched(records: Seq<ArrRecord>, t: Seq<char>)
    requires
        forall|j: int| 0 <= j < records.len() ==> !owns(#[trigger] records[j], t),
    ensures
        arr_notifier::closest(records, t) is None,
    decreases records.len(),
{
    if records.len() > 0 {
        assert forall|j: int| 0 <= j < records.drop_last().len() implies !owns(
            #[trigger] records.drop_last()[j],
            t,
        ) by {
            assert(records.drop_last()[j] == records[j]);
        }
        unowned_is_unmatched(records.drop_last(), t);
        assert(!owns(records[records.len() - 1], t));
    }
}

proof fn planned_rescans_stay(
    kind: ArrKind,
    records: Seq<ArrRecord>,
    dirs: Seq<Seq<char>>,
    m: nat,
    n: nat,
)
    requires
        m <= n <= dirs.len(),
    ensures
        arr_notifier::rescans(kind, records, dirs, m).is_prefix_of(
            arr_notifier::rescans(kind, records, dirs, n),
        ),
    decreases n,
{
    if m < n {
        planned_rescans_stay(kind, records, dirs, m, (n - 1) as nat);
    }
}

/// Whatever the kind of the instance, the record that owns a validated directory most closely
/// is among those to rescan.
pub proof fn owners_are_rescanned(
    kind: ArrKind,
    records: Seq<ArrRecord>,
    dirs: Seq<Seq<char>>,
    n: nat,
    d: int,
    j: int,
)
    requires
        n <= dirs.len(),
        0 <= d < n,
        0 <= j < records.len(),
        owns(records[j], dirs[d]),
    ensures
        exists|i: int, k: int|
            0 <= i < arr_notifier::rescans(kind, records, dirs, n).len() && #[trigger] owns_best(
                records,
                k,
                dirs[d],
            ) && (#[trigger] arr_notifier::rescans(kind, records, dirs, n)[i]).0 == records[k].id,
{
    let t = dirs[d];
    the_deepest_owner_is_matched(records, t);
    let k = arr_notifier::closest(records, t)->0;
    let before = arr_notifier::rescans(kind, records, dirs, d as nat);
    let after = arr_notifier::rescans(kind, records, dirs, (d + 1) as nat);
    let all = arr_notifier::rescans(kind, records, dirs, n);
    planned_rescans_stay(kind, records, dirs, (d + 1) as nat, n);
    let i = if exists|i: int| 0 <= i < before.len() && (#[trigger] before[i]).0 == records[k].id {
        choose|i: int| 0 <= i < before.len() && (#[trigger] before[i]).0 == records[k].id
    } else {
        before.len() as int
    };
    assert(after[i].0 == records[k].id);
    assert(all[i] == after[i]);
    assert(owns_best(records, k, dirs[d]));
}

/// Every rescan is there for a directory of the batch: for the record that owns it, which then
/// stays where it is, or, at Radarr alone, where no record owns it, for the movie without a
/// file that its name means, which is to point at it first.
pub proof fn rescans_come_from_directories(
    kind: ArrKind,
    records: Seq<ArrRecord>,
    dirs: Seq<Seq<char>>,
    n: nat,
    i: int,
)
    requires
        n <= dirs.len(),
        0 <= i < arr_notifier::rescans(kind, records, dirs, n).len(),
    ensures
        ({
            let (id, repoint) = arr_notifier::rescans(kind, records, dirs, n)[i];
            exists|d: int|
                0 <= d < n && {
                    let t = #[trigger] dirs[d];
                    ||| repoint is None && exists|k: int|
                        #[trigger] owns_best(records, k, t) && records[k].id == id
                    ||| {
                        &&& repoint == Some(t)
                        &&& kind == ArrKind::Movie
                        &&& forall|j: int|
                            0 <= j < records.len() ==> !owns(#[trigger] records[j], t)
                        &&& path::file_name_of(t) matches Some(name) && arr_notifier::title_match(
                            records,
                            name,
                        ) == Some(id)
                    }
                }
        }),
    decreases n,
{
    if n > 0 {
        let before = arr_notifier::rescans(kind, records, dirs, (n - 1) as nat);
        let all = arr_notifier::rescans(kind, records, dirs, n);
        let t = dirs[n - 1];
        the_deepest_owner_is_matched(records, t);
        if i < before.len() {
            assert(all[i] == before[i]);
            rescans_come_from_directories(kind, records, dirs, (n - 1) as nat, i);
        } else if let Some(k) = arr_notifier::closest(records, t) {
            assert(owns_best(records, k, t));
            assert(all[i] == (records[k].id, None::<Seq<char>>));
        }
    }
}

/// A movie without a file, with a title that agrees up to case and punctuation, and a year at
/// most one off.
pub open spec fn could_be_meant(r: ArrRecord, title: Seq<char>, year: int) -> bool {
    &&& !r.has_file
    &&& r.title matches Some(own) && arr_notifier::title_key(own@) == title
    &&& r.year matches Some(y) && (y == year || y == year + 1 || y == year - 1)
}

/// A release name means a movie exactly where it states a title and a year and just one movie
/// could be meant.
pub proof fn titles_match_one_movie(records: Seq<ArrRecord>, name: Seq<char>, i: int)
    ensures
        arr_notifier::release_title(name) is None ==> arr_notifier::title_match(records, name)
            is None,
        arr_notifier::release_title(name) matches Some((title, year)) ==> {
            &&& arr_notifier::title_match(records, name) matches Some(id) ==> exists|j: int|
                0 <= j < records.len() && could_be_meant(#[trigger] records[j], title, year)
                    && records[j].id == id && forall|m: int|
                    0 <= m < records.len() && could_be_meant(#[trigger] records[m], title, year)
                        ==> m == j
            &&& 0 <= i < records.len() && could_be_meant(records[i], title, year) && (forall|m: int|
                0 <= m < records.len() && could_be_meant(#[trigger] records[m], title, year) ==> m
                    == i) ==> arr_notifier::title_match(records, name) == Some(records[i].id)
        },
{
    if let Some((title, year)) = arr_notifier::release_title(name) {
        let c = arr_notifier::candidates(records, title, year);
        candidates_are_those(records, title, year);
        if c.len() == 1 {
            let j = c[0];
            assert(could_be_meant(records[j], title, year));
            assert forall|m: int|
                0 <= m < records.len() && could_be_meant(
                    #[trigger] records[m],
                    title,
                    year,
                ) implies m == j by {
                let x = choose|x: int| 0 <= x < c.len() && c[x] == m;
            }
        }
        if 0 <= i < records.len() && could_be_meant(records[i], title, year) && (forall|m: int|
            0 <= m < records.len() && could_be_meant(#[trigger] records[m], title, year) ==> m
                == i) {
            let x = choose|x: int| 0 <= x < c.len() && c[x] == i;
            if c.len() > 1 {
                assert(could_be_meant(records[c[0]], title, year));
                assert(could_be_meant(records[c[1]], title, year));
                assert(c[0] < c[1]);
            }
        }
    }
}

proof fn candidates_are_those(records: Seq<ArrRecord>, title: Seq<char>, year: int)
    ensures
        ({
            let c = arr_notifier::candidates(records, title, year);
            &&& forall|x: int|
                0 <= x < c.len() ==> 0 <= #[trigger] c[x] < records.len() && could_be_meant(
                    records[c[x]],
                    title,
                    year,
                )
            &&& forall|x: int, y: int| 0 <= x < y < c.len() ==> #[trigger] c[x] < #[trigger] c[y]
            &&& forall|m: int|
                0 <= m < records.len() && could_be_meant(#[trigger] records[m], title, year)
                    ==> exists|x: int| 0 <= x < c.len() && #[trigger] c[x] == m
        }),
    decreases records.len(),
{
    if records.len() > 0 {
        let rest = records.drop_last();
        let before = arr_notifier::candidates(rest, title, year);
        let c = arr_notifier::candidates(records, title, year);
        candidates_are_those(rest, title, year);
        assert forall|x: int| 0 <= x < c.len() implies 0 <= #[trigger] c[x] < records.len()
            && could_be_meant(records[c[x]], title, year) by {
            if x < before.len() {
                assert(c[x] == before[x]);
                assert(rest[before[x]] == records[before[x]]);
            }
        }
        assert forall|m: int|
            0 <= m < records.len() && could_be_meant(
                #[trigger] records[m],
                title,
                year,
            ) implies exists|x: int| 0 <= x < c.len() && #[trigger] c[x] == m by {
            if m < rest.len() {
                assert(rest[m] == records[m]);
                let x = choose|x: int| 0 <= x < before.len() && #[trigger] before[x] == m;
                assert(c[x] == m);
            } else {
                assert(c[before.len() as int] == m);
            }
        }
    }
}

/// Only letters, digits and what lies beyond ASCII count in a title, in their order.
pub proof fn titles_keep_what_counts(a: Seq<char>, b: Seq<char>, c: char)
    ensures
        arr_notifier::bare_title(a + b) == arr_notifier::bare_title(a) + arr_notifier::bare_title(
            b,
        ),
        arr_notifier::bare_title(seq![c]) == (if 0x30 <= (c as u32) <= 0x39 || 0x41 <= (c as u32)
            <= 0x5a || 0x61 <= (c as u32) <= 0x7a || (c as u32) >= 0x80 {
            seq![c]
        } else {
            Seq::empty()
        }),
        arr_notifier::title_key(a) == text::lowered(arr_notifier::bare_title(a)),
    decreases b.len(),
{
    reveal_with_fuel(arr_notifier::bare_title, 2);
    assert(seq![c].drop_last() =~= Seq::<char>::empty());
    if arr_notifier::significant(c) {
        assert(arr_notifier::bare_title(seq![c]) =~= seq![c]);
    }
    if b.len() == 0 {
        assert(a + b =~= a);
        assert(arr_notifier::bare_title(a) + arr_notifier::bare_title(b)
            =~= arr_notifier::bare_title(a));
    } else {
        titles_keep_what_counts(a, b.drop_last(), c);
        assert((a + b).drop_last() =~= a + b.drop_last());
        assert((a + b).last() == b.last());
        assert(arr_notifier::bare_title(a + b) =~= arr_notifier::bare_title(a)
            + arr_notifier::bare_title(b));
    }
}

/// The year of a release is the last piece between dots, but never the first, that is a number
/// of four digits from 1900 to 2099; the title is what stands before it.
pub proof fn the_last_year_counts(name: Seq<char>, i: int)
    ensures
        ({
            let pieces = text::split(name, '.');
            match arr_notifier::release_title(name) {
                Some((title, year)) => exists|k: int|
                    0 < k < pieces.len() && arr_notifier::year_in(#[trigger] pieces[k]) == Some(
                        year,
                    ) && title == arr_notifier::title_key(arr_notifier::together(pieces.take(k)))
                        && forall|j: int|
                        k < j < pieces.len() ==> arr_notifier::year_in(#[trigger] pieces[j])
                            is None,
                None => forall|j: int|
                    0 < j < pieces.len() ==> arr_notifier::year_in(#[trigger] pieces[j]) is None,
            }
        }),
{
    year_position_is_last(text::split(name, '.'));
}

proof fn year_position_is_last(pieces: Seq<Seq<char>>)
    ensures
        match arr_notifier::year_position(pieces) {
            Some(k) => 0 < k < pieces.len() && arr_notifier::year_in(pieces[k]) is Some
                && forall|j: int|
                k < j < pieces.len() ==> arr_notifier::year_in(#[trigger] pieces[j]) is None,
            None => forall|j: int|
                0 < j < pieces.len() ==> arr_notifier::year_in(#[trigger] pieces[j]) is None,
        },
    decreases pieces.len(),
{
    if pieces.len() > 1 && arr_notifier::year_in(pieces.last()) is None {
        let rest = pieces.drop_last();
        year_position_is_last(rest);
        assert forall|j: int|
            #![trigger pieces[j]]
            #![trigger rest[j]]
            0 <= j < rest.len() implies pieces[j] == rest[j] by {}
    }
}

/// A piece states a year exactly where it is four digits of a number from 1900 to 2099.
pub proof fn years_have_four_digits(a: char, b: char, c: char, d: char)
    requires
        0x30 <= (a as u32) <= 0x39,
        0x30 <= (b as u32) <= 0x39,
        0x30 <= (c as u32) <= 0x39,
        0x30 <= (d as u32) <= 0x39,
    ensures
        ({
            let n = 1000 * ((a as u32) - 0x30) + 100 * ((b as u32) - 0x30) + 10 * ((c as u32)
                - 0x30) + ((d as u32) - 0x30);
            arr_notifier::year_in(seq![a, b, c, d]) == (if 1900 <= n <= 2099 {
                Some(n)
            } else {
                None
            })
        }),
{
    let t = seq![a, b, c, d];
    reveal_with_fuel(text::digits_value, 5);
    assert(t.drop_last() =~= seq![a, b, c]);
    assert(seq![a, b, c].drop_last() =~= seq![a, b]);
    assert(seq![a, b].drop_last() =~= seq![a]);
    assert(seq![a].drop_last() =~= Seq::<char>::empty());
    assert(text::all_digits(t));
    assert(t[0] == a);
}

} // verus!
