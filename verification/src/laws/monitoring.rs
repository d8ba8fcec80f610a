//! What is told about mounts.

use crate::monitoring;
use crate::monitoring::Mount;
use crate::monitoring::MonitorActionView;
use crate::text;
use vstd::prelude::*;

verus! {

/// A mount that is there is never alerted about, and told of only where it was lost before; one
/// that is lost is alerted about every time, first of all, with its path and the count of
/// failures.
pub proof fn lost_mounts_are_alerted_about(
    m: Mount,
    path: Seq<char>,
    before: u32,
    limit: u32,
    time: Seq<char>,
    i: int,
)
    ensures
        ({
            let there = monitoring::looked_at(m, path, before, limit, true, time);
            let lost = monitoring::looked_at(m, path, before, limit, false, time);
            &&& 0 <= i < there.len() ==> !(there[i] is Alert) && !(there[i] is Suppressed)
            &&& before == 0 ==> there.len() == 0
            &&& before > 0 ==> there.len() == 2 && there[0] == MonitorActionView::Recovered(
                m,
                before,
            ) && there[1] is Notify
            &&& lost.len() > 0 && lost[0] is Alert
            &&& 0 <= i < lost.len() ==> !(lost[i] is Recovered)
            &&& before < limit ==> lost.len() == 2 && lost[1] is Notify
            &&& before == limit ==> lost.len() == 2 && lost[1] == MonitorActionView::Suppressed(
                m,
                limit,
            )
            &&& before > limit ==> lost.len() == 1
        }),
{
}

/// The two mounts are told apart.
pub proof fn mounts_are_told_apart()
    ensures
        monitoring::lost_subject(Mount::Backend) != monitoring::lost_subject(Mount::RarGate),
        monitoring::recovered_subject(Mount::Backend) != monitoring::recovered_subject(
            Mount::RarGate,
        ),
{
    reveal_strlit("rar2fs Backend Mount Lost");
    reveal_strlit("RARGate FUSE Mount Lost");
    reveal_strlit("rar2fs Backend Recovered");
    reveal_strlit("RARGate Mount Recovered");
    assert("rar2fs Backend Mount Lost"@[0] == 'r');
    assert("RARGate FUSE Mount Lost"@[0] == 'R');
    assert("rar2fs Backend Recovered"@[0] == 'r');
    assert("RARGate Mount Recovered"@[0] == 'R');
}

/// The value of a setting is the second word of the last line that starts with its name.
pub proof fn the_last_line_counts(ls: Seq<Seq<char>>, prefix: Seq<char>)
    ensures
        match monitoring::last_with(ls, prefix) {
            Some(l) => exists|i: int|
                0 <= i < ls.len() && #[trigger] ls[i] == l && text::starts(l, prefix) && forall|
                    j: int,
                |
                    i < j < ls.len() ==> !text::starts(#[trigger] ls[j], prefix),
            None => forall|j: int| 0 <= j < ls.len() ==> !text::starts(#[trigger] ls[j], prefix),
        },
    decreases ls.len(),
{
    if ls.len() > 0 {
        let rest = ls.drop_last();
        the_last_line_counts(rest, prefix);
        assert(ls[ls.len() - 1] == ls.last());
        assert forall|j: int|
            #![trigger ls[j]]
            #![trigger rest[j]]
            0 <= j < rest.len() implies ls[j] == rest[j] by {}
    }
}

} // verus!
