//! How rar2fs is found.

use crate::backend;
use crate::backend::ProcessEntry;
use crate::text;
use vstd::prelude::*;

verus! {

/// A path is mounted exactly where a line of the mount table has it as its second word.
pub proof fn mounts_stand_in_the_table(mounts: Seq<char>, p: Seq<char>, i: int)
    ensures
        0 <= i < text::lines(mounts).len() && text::words(text::lines(mounts)[i]).len() >= 2
            && text::words(text::lines(mounts)[i])[1] == p ==> backend::mounted_in(mounts, p),
        backend::mounted_in(mounts, p) ==> exists|j: int|
            0 <= j < text::lines(mounts).len() && text::words(
                #[trigger] text::lines(mounts)[j],
            ).len() >= 2 && text::words(text::lines(mounts)[j])[1] == p,
{
    let ls = text::lines(mounts);
    if 0 <= i < ls.len() && text::words(ls[i]).len() >= 2 && text::words(ls[i])[1] == p {
        assert(backend::mounts_at(ls[i], p));
    }
}

/// A process is taken for the backend's only where its directory is a number, its command line
/// starts with rar2fs and names the mount, and it is no zombie.
pub proof fn only_living_rar2fs_counts(e: ProcessEntry, mount: Seq<char>)
    ensures
        backend::rar2fs_pid(e, mount) matches Some(n) ==> {
            &&& text::number(e.name@, 10, u32::MAX as int) == Some(n)
            &&& text::all_digits(e.name@)
            &&& e.cmdline matches Some(c) && {
                let line = text::replace(c@, '\0', ' ');
                &&& text::starts(line, "/usr/local/bin/rar2fs"@) || text::starts(line, "rar2fs "@)
                &&& text::contains(line, mount)
            }
            &&& e.status matches Some(s) ==> forall|i: int|
                0 <= i < text::lines(s@).len() ==> !(text::starts(
                    #[trigger] text::lines(s@)[i],
                    "State:"@,
                ) && text::lines(s@)[i].contains('Z'))
        },
        e.cmdline is None ==> backend::rar2fs_pid(e, mount) is None,
        e.status is None && text::all_digits(e.name@) ==> (e.cmdline matches Some(c) ==> ({
            let line = text::replace(c@, '\0', ' ');
            text::starts(line, "/usr/local/bin/rar2fs"@) && text::contains(line, mount)
                ==> backend::rar2fs_pid(e, mount) == text::number(e.name@, 10, u32::MAX as int)
        })),
{
    if let Some(s) = e.status {
        if !backend::zombie(s@) {
            let ls = text::lines(s@);
            assert forall|i: int| 0 <= i < ls.len() implies !(text::starts(
                #[trigger] ls[i],
                "State:"@,
            ) && ls[i].contains('Z')) by {
                assert(!backend::zombie_line(ls[i]));
            }
        }
    }
}

/// Of several processes the first one is taken.
pub proof fn the_first_process_is_taken(entries: Seq<ProcessEntry>, mount: Seq<char>)
    ensures
        match backend::first_rar2fs(entries, mount) {
            Some(n) => exists|i: int|
                0 <= i < entries.len() && backend::rar2fs_pid(#[trigger] entries[i], mount) == Some(
                    n,
                ) && forall|j: int|
                    0 <= j < i ==> backend::rar2fs_pid(#[trigger] entries[j], mount) is None,
            None => forall|j: int|
                0 <= j < entries.len() ==> backend::rar2fs_pid(#[trigger] entries[j], mount) is None,
        },
    decreases entries.len(),
{
    if entries.len() > 0 && backend::rar2fs_pid(entries[0], mount) is None {
        let rest = entries.drop_first();
        the_first_process_is_taken(rest, mount);
        match backend::first_rar2fs(rest, mount) {
            Some(n) => {
                let i = choose|i: int|
                    0 <= i < rest.len() && backend::rar2fs_pid(#[trigger] rest[i], mount) == Some(n)
                        && forall|j: int|
                        0 <= j < i ==> backend::rar2fs_pid(#[trigger] rest[j], mount) is None;
                assert(backend::rar2fs_pid(entries[i + 1], mount) == Some(n));
                assert forall|j: int| 0 <= j < i + 1 implies backend::rar2fs_pid(
                    #[trigger] entries[j],
                    mount,
                ) is None by {
                    if j > 0 {
                        assert(rest[j - 1] == entries[j]);
                    }
                }
            },
            None => {
                assert forall|j: int| 0 <= j < entries.len() implies backend::rar2fs_pid(
                    #[trigger] entries[j],
                    mount,
                ) is None by {
                    if j > 0 {
                        assert(rest[j - 1] == entries[j]);
                    }
                }
            },
        }
    }
}

} // verus!
