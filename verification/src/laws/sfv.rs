//! What an SFV file lists, and when it is served.

use crate::filesystem;
use crate::laws;
use crate::path;
use crate::sfv;
use crate::sfv::DirEntry;
use crate::sfv::FileAge;
use crate::text;
use vstd::prelude::*;

verus! {

proof fn last_space(name: Seq<char>, sum: Seq<char>)
    requires
        !sum.contains(' '),
    ensures
        text::last_index(name.push(' ') + sum, ' ') == name.len(),
    decreases sum.len(),
{
    let t = name.push(' ') + sum;
    if sum.len() > 0 {
        let rest = sum.drop_last();
        assert(sum.contains(sum.last()));
        assert(t.last() == sum.last());
        assert(t.drop_last() =~= name.push(' ') + rest);
        if rest.contains(' ') {
            let i = choose|i: int| 0 <= i < rest.len() && rest[i] == ' ';
            assert(sum[i] == ' ');
        }
        last_space(name, rest);
    } else {
        assert(t =~= name.push(' '));
    }
}

/// A line lists the file whose name stands before the last space; the checksum behind it may
/// be anything without a blank.
pub proof fn lines_list_names(name: Seq<char>, sum: Seq<char>)
    requires
        name.len() > 0,
        sum.len() > 0,
        laws::text::is_bare(name),
        !text::white(sum.last()),
        !sum.contains(' '),
        name[0] != ';',
        name[0] != '\u{feff}',
    ensures
        sfv::listed_name(name.push(' ') + sum) == Some(name),
        filesystem::release_name(name.push(' ') + sum) == Some(name),
{
    let t = name.push(' ') + sum;
    assert(t[0] == name[0]);
    assert(t.last() == sum.last());
    laws::text::trimming_takes_off_blanks(t);
    laws::text::trimming_takes_off_blanks(name);
    last_space(name, sum);
    assert(t.take(name.len() as int) =~= name);
}

/// Comments, blank lines and lines without a space list nothing.
pub proof fn comments_list_nothing(line: Seq<char>)
    requires
        laws::text::is_bare(line),
        line.len() == 0 || line[0] != '\u{feff}',
        line.len() == 0 || line[0] == ';' || !line.contains(' '),
    ensures
        sfv::listed_name(line) is None,
        filesystem::release_name(line) is None,
{
    laws::text::trimming_takes_off_blanks(line);
    if line.len() > 0 && !line.contains(' ') {
        no_index(line, ' ');
    }
}

proof fn no_index(t: Seq<char>, c: char)
    requires
        !t.contains(c),
    ensures
        text::last_index(t, c) == -1,
    decreases t.len(),
{
    if t.len() > 0 {
        assert(t.contains(t.last()));
        if t.drop_last().contains(c) {
            let i = choose|i: int| 0 <= i < t.drop_last().len() && t.drop_last()[i] == c;
            assert(t[i] == c);
        }
        no_index(t.drop_last(), c);
    }
}

/// A name without separators stands for itself.
pub proof fn plain_names_stand_for_themselves(name: Seq<char>)
    requires
        !name.contains('/'),
        !name.contains('\\'),
    ensures
        sfv::base_name(name) == name,
{
    let t = text::replace(name, '\\', '/');
    assert forall|i: int| 0 <= i < name.len() implies #[trigger] t[i] == name[i] by {
        assert(name.contains(name[i]));
    }
    assert(t =~= name);
    no_index(t, '/');
    assert(t.skip(0) =~= t);
}

/// A file is complete once it has not changed for a second; one that cannot be looked at is
/// not.
pub proof fn files_settle_after_a_second(n: u64)
    ensures
        sfv::complete(FileAge::Seconds(n)) <==> n >= 1,
        !sfv::complete(FileAge::Unreadable),
        sfv::complete(FileAge::Unknown),
{
}

/// An entry of a directory serves a name: it is a file of that name, in whatever case, or a
/// subfolder that holds one.
pub open spec fn serves(e: DirEntry, low: Seq<char>) -> bool {
    match e {
        DirEntry::File(f) => text::lowered(f.name@) == low,
        DirEntry::Dir(files) => exists|m: int|
            0 <= m < files@.len() && text::lowered((#[trigger] files@[m]).name@) == low,
    }
}

proof fn named_at_top(entries: Seq<DirEntry>, low: Seq<char>)
    ensures
        match sfv::at_top(entries, low) {
            Some(age) => exists|j: int|
                0 <= j < entries.len() && (#[trigger] entries[j] matches DirEntry::File(f)
                    && text::lowered(f.name@) == low && f.age == age),
            None => forall|j: int|
                0 <= j < entries.len() ==> !(#[trigger] entries[j] is File && serves(
                    entries[j],
                    low,
                )),
        },
    decreases entries.len(),
{
    if entries.len() > 0 {
        let rest = entries.drop_last();
        named_at_top(rest, low);
        assert(entries[entries.len() - 1] == entries.last());
        assert forall|j: int|
            #![trigger entries[j]]
            #![trigger rest[j]]
            0 <= j < rest.len() implies entries[j] == rest[j] by {}
    }
}

proof fn named_first(files: Seq<sfv::FileEntry>, low: Seq<char>)
    ensures
        match sfv::first_named(files, low) {
            Some(age) => exists|m: int|
                0 <= m < files.len() && text::lowered((#[trigger] files[m]).name@) == low
                    && files[m].age == age,
            None => forall|m: int|
                0 <= m < files.len() ==> text::lowered((#[trigger] files[m]).name@) != low,
        },
    decreases files.len(),
{
    if files.len() > 0 {
        let rest = files.drop_first();
        named_first(rest, low);
        assert forall|m: int|
            #![trigger rest[m]]
            0 <= m < rest.len() implies rest[m] == files[m + 1] by {}
        assert forall|m: int|
            #![trigger files[m]]
            0 < m < files.len() implies rest[m - 1] == files[m] by {}
    }
}

proof fn named_one_down(entries: Seq<DirEntry>, low: Seq<char>)
    ensures
        match sfv::one_down(entries, low) {
            Some(age) => exists|j: int|
                0 <= j < entries.len() && (#[trigger] entries[j] matches DirEntry::Dir(files)
                    && exists|m: int|
                    0 <= m < files@.len() && text::lowered((#[trigger] files@[m]).name@) == low
                        && files@[m].age == age),
            None => forall|j: int|
                0 <= j < entries.len() ==> !(#[trigger] entries[j] is Dir && serves(
                    entries[j],
                    low,
                )),
        },
    decreases entries.len(),
{
    if entries.len() > 0 {
        let rest = entries.drop_first();
        named_one_down(rest, low);
        if let DirEntry::Dir(files) = entries[0] {
            named_first(files@, low);
        }
        assert forall|j: int|
            #![trigger rest[j]]
            0 <= j < rest.len() implies rest[j] == entries[j + 1] by {}
        assert forall|j: int|
            #![trigger entries[j]]
            0 < j < entries.len() implies rest[j - 1] == entries[j] by {}
    }
}

/// A listed file is found exactly where an entry serves its name; what is found there is the
/// age of a file of that name, of one in the directory itself before one in a subfolder.
pub proof fn files_are_found_by_name(entries: Seq<DirEntry>, low: Seq<char>)
    ensures
        sfv::found(entries, low) is Some <==> exists|j: int|
            0 <= j < entries.len() && serves(#[trigger] entries[j], low),
        sfv::found(entries, low) matches Some(age) ==> (exists|j: int|
            0 <= j < entries.len() && (#[trigger] entries[j] matches DirEntry::File(f)
                && text::lowered(f.name@) == low && f.age == age)) || (forall|j: int|
            0 <= j < entries.len() ==> !(#[trigger] entries[j] is File && serves(entries[j], low)))
            && exists|j: int|
            0 <= j < entries.len() && (#[trigger] entries[j] matches DirEntry::Dir(files)
                && exists|m: int|
                0 <= m < files@.len() && text::lowered((#[trigger] files@[m]).name@) == low
                    && files@[m].age == age),
{
    named_at_top(entries, low);
    named_one_down(entries, low);
}

/// A release is not complete while one listed file is missing.
pub proof fn one_missing_file_is_enough(
    content: Seq<char>,
    entries: Seq<DirEntry>,
    i: int,
    name: Seq<char>,
)
    requires
        0 <= i < text::lines(content).len(),
        sfv::listed_name(text::lines(content)[i]) == Some(name),
        name.len() > 0,
        forall|j: int|
            0 <= j < entries.len() ==> !serves(
                #[trigger] entries[j],
                text::lowered(sfv::base_name(name)),
            ),
    ensures
        !sfv::all_complete(content, entries),
{
    files_are_found_by_name(entries, text::lowered(sfv::base_name(name)));
    assert(!sfv::line_is_complete(text::lines(content)[i], entries));
}

/// A release is not complete while a listed file, which stands in the directory once, still
/// changes.
pub proof fn one_growing_file_is_enough(
    content: Seq<char>,
    entries: Seq<DirEntry>,
    i: int,
    name: Seq<char>,
)
    requires
        0 <= i < text::lines(content).len(),
        sfv::listed_name(text::lines(content)[i]) == Some(name),
        name.len() > 0,
        forall|j: int|
            0 <= j < entries.len() ==> (#[trigger] entries[j] matches DirEntry::File(f) ==> (
            text::lowered(f.name@) == text::lowered(sfv::base_name(name)) ==> f.age
                == FileAge::Seconds(0))),
        exists|j: int|
            0 <= j < entries.len() && #[trigger] entries[j] is File && serves(
                entries[j],
                text::lowered(sfv::base_name(name)),
            ),
    ensures
        !sfv::all_complete(content, entries),
{
    let low = text::lowered(sfv::base_name(name));
    named_at_top(entries, low);
    assert(!sfv::line_is_complete(text::lines(content)[i], entries));
}

/// A release is complete where every listed file is served and no file of it still changes.
pub proof fn settled_releases_are_complete(content: Seq<char>, entries: Seq<DirEntry>)
    requires
        forall|i: int|
            0 <= i < text::lines(content).len() ==> (sfv::listed_name(
                #[trigger] text::lines(content)[i],
            ) matches Some(name) ==> name.len() == 0 || exists|j: int|
                0 <= j < entries.len() && serves(
                    #[trigger] entries[j],
                    text::lowered(sfv::base_name(name)),
                )),
        forall|j: int|
            0 <= j < entries.len() ==> match #[trigger] entries[j] {
                DirEntry::File(f) => f.age matches FileAge::Seconds(n) && n >= 1,
                DirEntry::Dir(files) => forall|m: int|
                    0 <= m < files@.len() ==> ((#[trigger] files@[m]).age matches FileAge::Seconds(
                        n,
                    ) && n >= 1),
            },
    ensures
        sfv::all_complete(content, entries),
{
    let ls = text::lines(content);
    assert forall|i: int| 0 <= i < ls.len() implies sfv::line_is_complete(
        #[trigger] ls[i],
        entries,
    ) by {
        if let Some(name) = sfv::listed_name(text::lines(content)[i]) {
            files_are_found_by_name(entries, text::lowered(sfv::base_name(name)));
        }
    }
}

/// A file is an SFV file by its extension, in whatever case.
pub proof fn sfv_files_are_told_by_extension(t: Seq<char>, ext: Seq<char>)
    ensures
        path::extension_of(t) == Some(ext) ==> sfv::sfv_named(t) == (text::lowered(ext) == "sfv"@),
        path::extension_of(t) is None ==> !sfv::sfv_named(t),
{
}

} // verus!
