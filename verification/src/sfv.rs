//! SFV files: which files a release lists, and whether they are all there.

use crate::path;
use crate::path::PathName;
use crate::text;
use vstd::hash_map::StringHashMap;
use vstd::prelude::*;
use vstd::string::*;

verus! {

broadcast use vstd::string::group_string_axioms;

/// How many seconds a file must have rested to count as complete.
pub const FILE_COMPLETE_AGE_SECS: u64 = 1;

/// What is known of the last change of a file.
#[derive(Debug, Clone, Copy, PartialEq, Eq, Structural)]
pub enum FileAge {
    /// The file cannot be looked at.
    Unreadable,
    /// When it changed cannot be told, or lies ahead.
    Unknown,
    /// It changed so many whole seconds ago.
    Seconds(u64),
}

/// The file is there and is not being written any more.
pub open spec fn complete(age: FileAge) -> bool {
    match age {
        FileAge::Unreadable => false,
        FileAge::Unknown => true,
        FileAge::Seconds(n) => n >= FILE_COMPLETE_AGE_SECS,
    }
}

/// Tests whether a file is there and is not being written any more.
pub fn is_file_complete(age: FileAge) -> (r: bool)
    ensures
        r == complete(age),
{
    match age {
        FileAge::Unreadable => false,
        FileAge::Unknown => true,
        FileAge::Seconds(n) => n >= FILE_COMPLETE_AGE_SECS,
    }
}

/// The path has the extension `sfv`, in capital or small letters.
pub open spec fn sfv_named(t: Seq<char>) -> bool {
    match path::extension_of(t) {
        Some(ext) => text::lowered(ext) == "sfv"@,
        None => false,
    }
}

/// Tests whether a path names an SFV file.
pub fn is_sfv_file(path: &PathName) -> (r: bool)
    ensures
        r == sfv_named(path@),
{
    match path.extension() {
        Some(ext) => {
            let low = text::lowered_chars(&ext);
            text::same_text(low.as_str(), "sfv")
        },
        None => false,
    }
}

/// The file name that a line of an SFV file lists: what stands before the last space.
/// Comments, blank lines and lines without a space list none; a byte order mark at the
/// start of the line does not count.
pub open spec fn listed_name(line: Seq<char>) -> Option<Seq<char>> {
    let t = text::trim(text::trim_start_char(line, '\u{feff}'));
    let space = text::last_index(t, ' ');
    if t.len() == 0 || t[0] == ';' || space < 0 {
        None
    } else {
        Some(text::trim(t.take(space)))
    }
}

/// What follows the last separator, of either kind.
pub open spec fn base_name(name: Seq<char>) -> Seq<char> {
    let t = text::replace(name, '\\', '/');
    t.skip(text::last_index(t, '/') + 1)
}

fn listed_name_of(line: &[char]) -> (r: Option<Vec<char>>)
    ensures
        match r {
            Some(n) => listed_name(line@) == Some(n@),
            None => listed_name(line@) is None,
        },
{
    let bare = text::without_leading(line, '\u{feff}');
    let t = text::trimmed(&bare);
    if t.len() == 0 || t[0] == ';' {
        return None;
    }
    match text::find_last_char(&t, ' ') {
        Some(space) => {
            let head = text::copy_range(&t, 0, space);
            proof {
                assert(head@ =~= t@.take(space as int));
            }
            Some(text::trimmed(&head))
        },
        None => None,
    }
}

fn base_name_of(name: &[char]) -> (r: Vec<char>)
    ensures
        r@ == base_name(name@),
{
    let t = text::replaced(name, '\\', '/');
    let size: usize = t.len();
    let from: usize = match text::find_last_char(&t, '/') {
        Some(i) => i + 1,
        None => 0,
    };
    let r = text::copy_range(&t, from, size);
    proof {
        assert(r@ =~= t@.skip(from as int));
    }
    r
}

/// A file in a directory.
#[derive(Debug)]
pub struct FileEntry {
    pub name: String,
    pub age: FileAge,
}

/// An entry of a directory: a file, or a directory with the files in it.
#[derive(Debug)]
pub enum DirEntry {
    File(FileEntry),
    Dir(Vec<FileEntry>),
}

/// The age of the first of some files with the given name in small letters.
pub open spec fn first_named(files: Seq<FileEntry>, low: Seq<char>) -> Option<FileAge>
    decreases files.len(),
{
    if files.len() == 0 {
        None
    } else if text::lowered(files[0].name@) == low {
        Some(files[0].age)
    } else {
        first_named(files.drop_first(), low)
    }
}

/// The last file at the top with the given name in small letters.
pub open spec fn at_top(entries: Seq<DirEntry>, low: Seq<char>) -> Option<FileAge>
    decreases entries.len(),
{
    if entries.len() == 0 {
        None
    } else {
        match entries.last() {
            DirEntry::File(f) => if text::lowered(f.name@) == low {
                Some(f.age)
            } else {
                at_top(entries.drop_last(), low)
            },
            DirEntry::Dir(_) => at_top(entries.drop_last(), low),
        }
    }
}

/// The first file one level down with the given name in small letters.
pub open spec fn one_down(entries: Seq<DirEntry>, low: Seq<char>) -> Option<FileAge>
    decreases entries.len(),
{
    if entries.len() == 0 {
        None
    } else {
        match entries[0] {
            DirEntry::Dir(files) => match first_named(files@, low) {
                Some(age) => Some(age),
                None => one_down(entries.drop_first(), low),
            },
            DirEntry::File(_) => one_down(entries.drop_first(), low),
        }
    }
}

/// The file that a listed name stands for, whatever the case of its letters: one at the top
/// goes before one in a subfolder.
pub open spec fn found(entries: Seq<DirEntry>, low: Seq<char>) -> Option<FileAge> {
    match at_top(entries, low) {
        Some(age) => Some(age),
        None => one_down(entries, low),
    }
}

/// What one line of an SFV file asks of a directory.
pub open spec fn line_is_complete(line: Seq<char>, entries: Seq<DirEntry>) -> bool {
    match listed_name(line) {
        Some(name) => name.len() == 0 || match found(entries, text::lowered(base_name(name))) {
            Some(age) => complete(age),
            None => false,
        },
        None => true,
    }
}

/// Every file that the SFV file lists is there and complete.
pub open spec fn all_complete(content: Seq<char>, entries: Seq<DirEntry>) -> bool {
    let ls = text::lines(content);
    forall|i: int| 0 <= i < ls.len() ==> line_is_complete(#[trigger] ls[i], entries)
}

fn index_subfolder(index: &mut StringHashMap<FileAge>, files: &Vec<FileEntry>)
    ensures
        forall|low: Seq<char>| #[trigger]
            final(index)@.dom().contains(low) <==> (old(index)@.dom().contains(low) || first_named(
                files@,
                low,
            ) is Some),
        forall|low: Seq<char>| #[trigger]
            final(index)@.dom().contains(low) ==> final(index)@[low] == (if old(
                index,
            )@.dom().contains(low) {
                old(index)@[low]
            } else {
                first_named(files@, low)->0
            }),
{
    let ghost start = index@;
    let mut i: usize = 0;
    while i < files.len()
        invariant
            i <= files@.len(),
            forall|low: Seq<char>| #[trigger]
                index@.dom().contains(low) <==> (start.dom().contains(low) || first_named(
                    files@.take(i as int),
                    low,
                ) is Some),
            forall|low: Seq<char>| #[trigger]
                index@.dom().contains(low) ==> index@[low] == (if start.dom().contains(low) {
                    start[low]
                } else {
                    first_named(files@.take(i as int), low)->0
                }),
        decreases files@.len() - i,
    {
        let low = text::lowered_text(files[i].name.as_str());
        let ghost key = low@;
        let ghost before = index@;
        if !index.contains_key(low.as_str()) {
            index.insert(low, files[i].age);
        }
        proof {
            let next = files@.take(i + 1);
            assert forall|k: Seq<char>| true implies #[trigger] first_named(next, k) == (
            match first_named(files@.take(i as int), k) {
                Some(age) => Some(age),
                None => if k == key {
                    Some(files@[i as int].age)
                } else {
                    None
                },
            }) by {
                first_named_grows(files@, i as int, k);
            }
            assert forall|k: Seq<char>| #[trigger] index@.dom().contains(k) <==> (
            start.dom().contains(k) || first_named(next, k) is Some) by {
                assert(first_named(next, k) is Some <==> (first_named(files@.take(i as int), k)
                    is Some || k == key));
                assert(before.dom().contains(k) <==> (start.dom().contains(k) || first_named(
                    files@.take(i as int),
                    k,
                ) is Some));
            }
            assert forall|k: Seq<char>| #[trigger] index@.dom().contains(k) implies index@[k] == (
            if start.dom().contains(k) {
                start[k]
            } else {
                first_named(next, k)->0
            }) by {
                assert(first_named(next, k) == (match first_named(files@.take(i as int), k) {
                    Some(age) => Some(age),
                    None => if k == key {
                        Some(files@[i as int].age)
                    } else {
                        None
                    },
                }));
                assert(before.dom().contains(k) <==> (start.dom().contains(k) || first_named(
                    files@.take(i as int),
                    k,
                ) is Some));
            }
        }
        i += 1;
    }
    proof {
        assert(files@.take(i as int) =~= files@);
    }
}

proof fn first_named_grows(files: Seq<FileEntry>, i: int, k: Seq<char>)
    requires
        0 <= i < files.len(),
    ensures
        first_named(files.take(i + 1), k) == (match first_named(files.take(i), k) {
            Some(age) => Some(age),
            None => if k == text::lowered(files[i].name@) {
                Some(files[i].age)
            } else {
                None
            },
        }),
    decreases i,
{
    let now = files.take(i + 1);
    let was = files.take(i);
    if i == 0 {
        assert(was =~= Seq::<FileEntry>::empty());
        assert(now.drop_first() =~= Seq::<FileEntry>::empty());
        assert(first_named(now.drop_first(), k) is None);
    } else {
        let rest = files.drop_first();
        first_named_grows(rest, i - 1, k);
        assert(now.drop_first() =~= rest.take(i));
        assert(was.drop_first() =~= rest.take(i - 1));
    }
}

proof fn one_down_grows(entries: Seq<DirEntry>, i: int, k: Seq<char>)
    requires
        0 <= i < entries.len(),
    ensures
        one_down(entries.take(i + 1), k) == (match one_down(entries.take(i), k) {
            Some(age) => Some(age),
            None => match entries[i] {
                DirEntry::Dir(files) => first_named(files@, k),
                DirEntry::File(_) => None,
            },
        }),
    decreases i,
{
    let now = entries.take(i + 1);
    let was = entries.take(i);
    if i == 0 {
        assert(was =~= Seq::<DirEntry>::empty());
        assert(now.drop_first() =~= Seq::<DirEntry>::empty());
        assert(one_down(now.drop_first(), k) is None);
    } else {
        let rest = entries.drop_first();
        one_down_grows(rest, i - 1, k);
        assert(now.drop_first() =~= rest.take(i));
        assert(was.drop_first() =~= rest.take(i - 1));
    }
}

/// The files of a directory and of its subfolders by name in small letters.
fn index_actual_files(entries: &Vec<DirEntry>) -> (index: StringHashMap<FileAge>)
    ensures
        forall|low: Seq<char>| #[trigger]
            index@.dom().contains(low) <==> found(entries@, low) is Some,
        forall|low: Seq<char>| #[trigger]
            index@.dom().contains(low) ==> found(entries@, low) == Some(index@[low]),
{
    let mut index: StringHashMap<FileAge> = StringHashMap::new();
    let mut i: usize = 0;
    while i < entries.len()
        invariant
            i <= entries@.len(),
            forall|low: Seq<char>| #[trigger]
                index@.dom().contains(low) <==> found(entries@.take(i as int), low) is Some,
            forall|low: Seq<char>| #[trigger]
                index@.dom().contains(low) ==> found(entries@.take(i as int), low) == Some(
                    index@[low],
                ),
        decreases entries@.len() - i,
    {
        let ghost before = index@;
        match &entries[i] {
            DirEntry::File(f) => {
                let low = text::lowered_text(f.name.as_str());
                index.insert(low, f.age);
            },
            DirEntry::Dir(files) => {
                index_subfolder(&mut index, files);
            },
        }
        proof {
            let was = entries@.take(i as int);
            let now = entries@.take(i + 1);
            assert(now.drop_last() =~= was);
            assert(now.last() == entries@[i as int]);
            assert forall|k: Seq<char>| #[trigger] index@.dom().contains(k) <==> found(now, k)
                is Some by {
                one_down_grows(entries@, i as int, k);
                assert(before.dom().contains(k) <==> found(was, k) is Some);
            }
            assert forall|k: Seq<char>| #[trigger] index@.dom().contains(k) implies found(now, k)
                == Some(index@[k]) by {
                one_down_grows(entries@, i as int, k);
                assert(before.dom().contains(k) <==> found(was, k) is Some);
            }
        }
        i += 1;
    }
    proof {
        assert(entries@.take(i as int) =~= entries@);
    }
    index
}

/// Tests whether every file that an SFV file lists is there and no longer being written.
/// `content` is `None` where the SFV file cannot be read; `entries` tells of the directory
/// that holds it.
pub fn validate_sfv_with_completeness(content: Option<&str>, entries: &Vec<DirEntry>) -> (r: bool)
    ensures
        r == (match content {
            Some(c) => all_complete(c@, entries@),
            None => false,
        }),
{
    let chars = match content {
        Some(c) => text::chars_of(c),
        None => return false,
    };
    let index = index_actual_files(entries);
    let ls = text::lines_of(&chars);
    proof {
        assert(text::rows(ls@).len() == ls@.len());
    }
    let mut i: usize = 0;
    while i < ls.len()
        invariant
            i <= ls@.len(),
            content is Some,
            content->0@ == chars@,
            text::rows(ls@) == text::lines(chars@),
            text::rows(ls@).len() == ls@.len(),
            forall|low: Seq<char>| #[trigger]
                index@.dom().contains(low) <==> found(entries@, low) is Some,
            forall|low: Seq<char>| #[trigger]
                index@.dom().contains(low) ==> found(entries@, low) == Some(index@[low]),
            forall|j: int|
                0 <= j < i ==> line_is_complete(#[trigger] text::lines(chars@)[j], entries@),
        decreases ls@.len() - i,
    {
        proof {
            assert(text::lines(chars@)[i as int] == text::rows(ls@)[i as int]);
        }
        match listed_name_of(&ls[i]) {
            Some(name) => {
                if name.len() > 0 {
                    let base = base_name_of(&name);
                    let low = text::lowered_chars(&base);
                    match index.get(low.as_str()) {
                        Some(age) => {
                            if !is_file_complete(*age) {
                                proof {
                                    assert(!line_is_complete(
                                        text::lines(chars@)[i as int],
                                        entries@,
                                    ));
                                }
                                return false;
                            }
                        },
                        None => {
                            proof {
                                assert(!line_is_complete(
                                    text::lines(chars@)[i as int],
                                    entries@,
                                ));
                            }
                            return false;
                        },
                    }
                }
            },
            None => {},
        }
        i += 1;
    }
    true
}

/// File names by their form in small letters.
pub struct FileNames {
    names: StringHashMap<String>,
}

impl View for FileNames {
    type V = Set<Seq<char>>;

    /// The names in small letters.
    closed spec fn view(&self) -> Set<Seq<char>> {
        self.names@.dom()
    }
}

impl FileNames {
    pub fn new() -> (r: Self)
        ensures
            r@ == Set::<Seq<char>>::empty(),
    {
        let r = FileNames { names: StringHashMap::new() };
        proof {
            assert(r@ =~= Set::<Seq<char>>::empty());
        }
        r
    }

    /// Puts a file in, by its name in small letters.
    pub fn insert(&mut self, low: String, name: String)
        ensures
            final(self)@ == old(self)@.insert(low@),
    {
        self.names.insert(low, name);
        proof {
            assert(self@ =~= old(self)@.insert(low@));
        }
    }

    /// Puts a file in, unless one with that name in small letters is there.
    pub fn insert_new(&mut self, low: String, name: String)
        ensures
            final(self)@ == old(self)@.insert(low@),
    {
        if !self.names.contains_key(low.as_str()) {
            self.names.insert(low, name);
        }
        proof {
            assert(self@ =~= old(self)@.insert(low@));
        }
    }

    pub fn contains(&self, low: &str) -> (r: bool)
        ensures
            r == self@.contains(low@),
    {
        self.names.contains_key(low)
    }
}

/// What one line of an SFV file asks of a set of names in small letters.
pub open spec fn line_is_present(line: Seq<char>, names: Set<Seq<char>>) -> bool {
    match listed_name(line) {
        Some(name) => base_name(name).len() == 0 || names.contains(text::lowered(base_name(name))),
        None => true,
    }
}

/// Every file that the SFV file lists is among the names.
pub open spec fn all_present(content: Seq<char>, names: Set<Seq<char>>) -> bool {
    let ls = text::lines(content);
    forall|i: int| 0 <= i < ls.len() ==> line_is_present(#[trigger] ls[i], names)
}

/// Tests whether every file that an SFV file lists is among the given names.
pub fn validate_sfv_content_with_map(sfv_content: &str, actual_files: &FileNames) -> (r: bool)
    ensures
        r == all_present(sfv_content@, actual_files@),
{
    let content = text::chars_of(sfv_content);
    let ls = text::lines_of(&content);
    proof {
        assert(text::rows(ls@).len() == ls@.len());
    }
    let mut i: usize = 0;
    while i < ls.len()
        invariant
            i <= ls@.len(),
            content@ == sfv_content@,
            text::rows(ls@) == text::lines(content@),
            text::rows(ls@).len() == ls@.len(),
            forall|j: int|
                0 <= j < i ==> line_is_present(
                    #[trigger] text::lines(content@)[j],
                    actual_files@,
                ),
        decreases ls@.len() - i,
    {
        proof {
            assert(text::lines(content@)[i as int] == text::rows(ls@)[i as int]);
        }
        match listed_name_of(&ls[i]) {
            Some(name) => {
                let base = base_name_of(&name);
                if base.len() > 0 {
                    let low = text::lowered_chars(&base);
                    if !actual_files.contains(low.as_str()) {
                        proof {
                            assert(!line_is_present(
                                text::lines(content@)[i as int],
                                actual_files@,
                            ));
                        }
                        return false;
                    }
                }
            },
            None => {},
        }
        i += 1;
    }
    true
}

/// The case of the letters does not matter: two SFV lines whose names agree in small letters
/// ask the same of a directory.
pub proof fn case_does_not_matter(
    a: Seq<char>,
    b: Seq<char>,
    names: Set<Seq<char>>,
    entries: Seq<DirEntry>,
)
    requires
        listed_name(a) is Some,
        listed_name(b) is Some,
        base_name(listed_name(a)->0).len() > 0,
        base_name(listed_name(b)->0).len() > 0,
        text::lowered(base_name(listed_name(a)->0)) == text::lowered(base_name(listed_name(b)->0)),
    ensures
        line_is_present(a, names) == line_is_present(b, names),
        line_is_complete(a, entries) == line_is_complete(b, entries),
{
}

/// More files never turn a valid release into an invalid one.
pub proof fn more_files_keep_it_valid(
    content: Seq<char>,
    names: Set<Seq<char>>,
    more: Set<Seq<char>>,
)
    requires
        all_present(content, names),
        names.subset_of(more),
    ensures
        all_present(content, more),
{
    let ls = text::lines(content);
    assert forall|i: int| 0 <= i < ls.len() implies line_is_present(#[trigger] ls[i], more) by {
        assert(line_is_present(ls[i], names));
    }
}

/// A byte order mark before a line changes nothing.
pub proof fn byte_order_mark_is_skipped(line: Seq<char>)
    ensures
        listed_name(seq!['\u{feff}'] + line) == listed_name(line),
{
    let marked = seq!['\u{feff}'] + line;
    assert(marked.drop_first() =~= line);
    assert(text::trim_start_char(marked, '\u{feff}') == text::trim_start_char(line, '\u{feff}'));
}

/// A subfolder named before a file, with either separator, changes nothing: only the file
/// name counts.
pub proof fn subfolder_is_skipped(folder: Seq<char>, sep: char, name: Seq<char>)
    requires
        sep == '/' || sep == '\\',
    ensures
        base_name(folder.push(sep) + name) == base_name(name),
{
    let whole = folder.push(sep) + name;
    let t = text::replace(whole, '\\', '/');
    let n = text::replace(name, '\\', '/');
    let f = text::replace(folder, '\\', '/');
    assert(t =~= f.push('/') + n);
    last_index_in_tail(f.push('/'), n, '/');
    if text::last_index(n, '/') < 0 {
        last_index_of_last(f, '/');
        assert(t.skip(text::last_index(t, '/') + 1) =~= n);
    } else {
        assert(t.skip(text::last_index(t, '/') + 1) =~= n.skip(text::last_index(n, '/') + 1));
    }
}

proof fn last_index_of_last(s: Seq<char>, c: char)
    ensures
        text::last_index(s.push(c), c) == s.len(),
{
    assert(s.push(c).last() == c);
}

proof fn last_index_in_tail(a: Seq<char>, b: Seq<char>, c: char)
    ensures
        text::last_index(b, c) < 0 ==> text::last_index(a + b, c) == text::last_index(a, c),
        text::last_index(b, c) >= 0 ==> text::last_index(a + b, c) == a.len() + text::last_index(
            b,
            c,
        ),
        -1 <= text::last_index(b, c) < b.len(),
    decreases b.len(),
{
    if b.len() == 0 {
        assert(a + b =~= a);
    } else {
        last_index_in_tail(a, b.drop_last(), c);
        assert((a + b).drop_last() =~= a + b.drop_last());
        assert((a + b).last() == b.last());
    }
}

} // verus!
