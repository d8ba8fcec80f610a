//! The mounted file system: inodes, listings, and which changes are allowed.

use crate::config::Config;
use crate::config::FuseOptions;
use crate::filtering;
use crate::filtering::FilterEngine;
use crate::filtering::Layer;
use crate::lru_map;
use crate::lru_map::LruMap;
use crate::lru_map::LruView;
use crate::path;
use crate::path::PathName;
use crate::sfv::FileAge;
use crate::text;
use vstd::hash_map::StringHashMap;
use vstd::prelude::*;
use vstd::string::*;

verus! {

broadcast use vstd::string::group_string_axioms;

/// How many inodes are kept.
pub const DEFAULT_INODE_CACHE_SIZE: usize = 100_000;

pub const DEFAULT_UID: u32 = 99;

pub const DEFAULT_GID: u32 = 100;

/// A source directory that has not changed for so many seconds counts as settled.
pub const GUARD_STABLE_SECS: u64 = 120;

/// The unit of the block count of a file.
pub const STAT_BLOCK_SIZE: u64 = 512;

pub const FS_BLOCK_SIZE: u32 = 4096;

/// Why a request is refused.
#[derive(Debug, Clone, Copy, PartialEq, Eq, Structural)]
pub enum Errno {
    /// ENOENT
    NoEntry,
    /// EROFS
    ReadOnly,
    /// EPERM
    NotPermitted,
}

/// What a table of inodes holds.
#[verifier::ext_equal]
pub struct InodeView {
    /// The path of each inode, under the decimal form of its number.
    pub paths: LruView<Seq<char>>,
    /// The inode of each path, by the key of the path.
    pub inodes: Map<Seq<char>, u64>,
    /// The number of the next inode.
    pub next: u64,
    /// How many inodes had to leave.
    pub evictions: u64,
}

/// The texts of the paths in a table.
pub open spec fn path_texts(m: LruView<PathName>) -> LruView<Seq<char>> {
    LruView {
        keys: m.keys,
        values: m.values.map_values(|p: PathName| p@),
        limit: m.limit,
    }
}

/// The key under which an inode is kept.
pub open spec fn ino_key(ino: u64) -> Seq<char> {
    text::decimal(ino as nat)
}

impl InodeView {
    /// The table is in order, and the number of the root is given out.
    pub open spec fn wf(self) -> bool {
        self.in_order() && 1 < self.next
    }

    /// Every path that has an inode is the path of that inode, and the numbers given out lie
    /// below the next one.
    pub open spec fn in_order(self) -> bool {
        &&& self.paths.wf()
        &&& forall|k: Seq<char>| #[trigger]
            self.inodes.dom().contains(k) ==> self.inodes[k] < self.next && self.paths.has(
                ino_key(self.inodes[k]),
            ) && path::key(self.paths.values[ino_key(self.inodes[k])]) == k
        &&& forall|d: Seq<char>| #[trigger]
            self.paths.has(d) ==> exists|n: u64| n < self.next && d == #[trigger] ino_key(n)
    }

    /// The path of an inode.
    pub open spec fn path_of(self, ino: u64) -> Option<Seq<char>> {
        if self.paths.has(ino_key(ino)) {
            Some(self.paths.values[ino_key(ino)])
        } else {
            None
        }
    }

    /// A path gets an inode: the one it has, or the next one. Where there are too many, the
    /// inode that was not used for longest leaves.
    pub open spec fn assigned(self, t: Seq<char>) -> InodeView {
        let k = path::key(t);
        if self.inodes.dom().contains(k) {
            InodeView { paths: self.paths.touch(ino_key(self.inodes[k])), ..self }
        } else {
            let full = self.paths.keys.len() == self.paths.limit;
            let kept = if full {
                self.inodes.remove(path::key(self.paths.values[self.paths.keys.last()]))
            } else {
                self.inodes
            };
            InodeView {
                paths: self.paths.put(ino_key(self.next), t),
                inodes: kept.insert(k, self.next),
                next: (self.next + 1) as u64,
                evictions: if full {
                    self.evictions.wrapping_add(1)
                } else {
                    self.evictions
                },
            }
        }
    }

    /// The inode that a path gets.
    pub open spec fn inode_for(self, t: Seq<char>) -> u64 {
        let k = path::key(t);
        if self.inodes.dom().contains(k) {
            self.inodes[k]
        } else {
            self.next
        }
    }

    /// The path has an inode, or there is a number left for it.
    pub open spec fn room_for(self, t: Seq<char>) -> bool {
        self.inodes.dom().contains(path::key(t)) || self.next < u64::MAX
    }

    /// The inode of a path goes over to another path.
    pub open spec fn renamed(self, from: Seq<char>, to: Seq<char>) -> InodeView {
        let k = path::key(from);
        if self.inodes.dom().contains(k) {
            InodeView {
                paths: self.paths.put(ino_key(self.inodes[k]), to),
                inodes: self.inodes.remove(k).insert(path::key(to), self.inodes[k]),
                ..self
            }
        } else {
            self
        }
    }
}

/// The next number is not in the table.
proof fn fresh_number(v: InodeView)
    requires
        v.in_order(),
    ensures
        !v.paths.has(ino_key(v.next)),
{
    let d = ino_key(v.next);
    if v.paths.has(d) {
        let n = choose|n: u64| n < v.next && d == #[trigger] ino_key(n);
        text::decimal_identifies(n as nat, v.next as nat);
    }
}

/// A new inode leaves the table in order.
proof fn assigning_keeps_order(v: InodeView, t: Seq<char>)
    requires
        v.in_order(),
        v.room_for(t),
    ensures
        v.assigned(t).in_order(),
        v.inode_for(t) < v.assigned(t).next,
        v.next <= v.assigned(t).next,
        v.assigned(t).path_of(v.inode_for(t)) is Some,
        path::key(v.assigned(t).path_of(v.inode_for(t))->0) == path::key(t),
{
    let k = path::key(t);
    let after = v.assigned(t);
    if v.inodes.dom().contains(k) {
        lru_map::bounded_map_stays_bounded(v.paths, ino_key(v.inodes[k]), t);
        assert(after.paths.values == v.paths.values);
        assert forall|x: Seq<char>| #[trigger] after.paths.has(x) implies exists|n: u64|
            n < after.next && x == #[trigger] ino_key(n) by {
            assert(v.paths.has(x));
        }
        assert forall|x: Seq<char>| #[trigger] after.inodes.dom().contains(x) implies after.inodes[x]
            < after.next && after.paths.has(ino_key(after.inodes[x])) && path::key(
            after.paths.values[ino_key(after.inodes[x])],
        ) == x by {
            assert(v.inodes.dom().contains(x));
        }
    } else {
        let d = ino_key(v.next);
        fresh_number(v);
        lru_map::bounded_map_stays_bounded(v.paths, d, t);
        assert(after.paths.has(d));
        assert(after.paths.values[d] == t);
        assert forall|x: Seq<char>| #[trigger] after.inodes.dom().contains(x) implies after.inodes[x]
            < after.next && after.paths.has(ino_key(after.inodes[x])) && path::key(
            after.paths.values[ino_key(after.inodes[x])],
        ) == x by {
            if x != k {
                assert(v.inodes.dom().contains(x));
                let e = ino_key(v.inodes[x]);
                text::decimal_identifies(v.inodes[x] as nat, v.next as nat);
                if v.paths.keys.len() == v.paths.limit {
                    let gone = v.paths.keys.last();
                    assert(v.paths.keys.contains(gone));
                    assert(path::key(v.paths.values[gone]) != x);
                    assert(e != gone);
                }
            }
        }
        assert forall|x: Seq<char>| #[trigger] after.paths.has(x) implies exists|n: u64|
            n < after.next && x == #[trigger] ino_key(n) by {
            if x == d {
                assert(v.next < after.next && x == ino_key(v.next));
            } else {
                assert(v.paths.has(x));
                let n = choose|n: u64| n < v.next && x == #[trigger] ino_key(n);
                assert(n < after.next && x == ino_key(n));
            }
        }
    }
}

proof fn renaming_keeps_order(v: InodeView, from: Seq<char>, to: Seq<char>)
    requires
        v.wf(),
    ensures
        v.renamed(from, to).wf(),
{
    let k = path::key(from);
    let after = v.renamed(from, to);
    if v.inodes.dom().contains(k) {
        let ino = v.inodes[k];
        let d = ino_key(ino);
        lru_map::bounded_map_stays_bounded(v.paths, d, to);
        assert(v.paths.keys.contains(d));
        assert forall|x: Seq<char>| #[trigger] after.inodes.dom().contains(x) implies after.inodes[x]
            < after.next && after.paths.has(ino_key(after.inodes[x])) && path::key(
            after.paths.values[ino_key(after.inodes[x])],
        ) == x by {
            if x != path::key(to) {
                assert(v.inodes.dom().contains(x));
                text::decimal_identifies(v.inodes[x] as nat, ino as nat);
                if ino_key(v.inodes[x]) == d {
                    assert(x == k);
                }
            }
        }
        assert forall|x: Seq<char>| #[trigger] after.paths.has(x) implies exists|n: u64|
            n < after.next && x == #[trigger] ino_key(n) by {
            assert(v.paths.has(x));
        }
    }
}

/// Two different paths never share an inode.
pub proof fn inodes_are_distinct(v: InodeView, a: Seq<char>, b: Seq<char>)
    requires
        v.wf(),
        v.inodes.dom().contains(path::key(a)),
        v.inodes.dom().contains(path::key(b)),
        path::key(a) != path::key(b),
    ensures
        v.inodes[path::key(a)] != v.inodes[path::key(b)],
{
}

/// A path keeps its inode: asking again gives the same number, and the number leads back to
/// the path.
pub proof fn inodes_are_stable(v: InodeView, t: Seq<char>)
    requires
        v.wf(),
        v.room_for(t),
    ensures
        v.assigned(t).inode_for(t) == v.inode_for(t),
        v.assigned(t).path_of(v.inode_for(t)) is Some,
        path::key(v.assigned(t).path_of(v.inode_for(t))->0) == path::key(t),
{
    assigning_keeps_order(v, t);
}

/// What happens to a table of inodes.
pub enum InodeStep {
    /// The path gets an inode.
    Assign(Seq<char>),
    /// The inode of the first path goes over to the second one.
    Rename(Seq<char>, Seq<char>),
}

impl InodeView {
    /// The table after one step.
    pub open spec fn stepped(self, step: InodeStep) -> InodeView {
        match step {
            InodeStep::Assign(t) => self.assigned(t),
            InodeStep::Rename(from, to) => self.renamed(from, to),
        }
    }

    /// There is a number left for the step.
    pub open spec fn room_to_step(self, step: InodeStep) -> bool {
        match step {
            InodeStep::Assign(t) => self.room_for(t),
            InodeStep::Rename(_, _) => true,
        }
    }

    /// The table after some steps.
    pub open spec fn after_steps(self, steps: Seq<InodeStep>) -> InodeView
        decreases steps.len(),
    {
        if steps.len() == 0 {
            self
        } else {
            self.after_steps(steps.drop_last()).stepped(steps.last())
        }
    }

    /// There are numbers left for all of the steps.
    pub open spec fn room_for_steps(self, steps: Seq<InodeStep>) -> bool
        decreases steps.len(),
    {
        steps.len() > 0 ==> self.room_for_steps(steps.drop_last()) && self.after_steps(
            steps.drop_last(),
        ).room_to_step(steps.last())
    }
}

proof fn steps_keep_order(v: InodeView, steps: Seq<InodeStep>)
    requires
        v.wf(),
        v.room_for_steps(steps),
    ensures
        v.after_steps(steps).wf(),
        v.next <= v.after_steps(steps).next,
    decreases steps.len(),
{
    if steps.len() > 0 {
        let before = v.after_steps(steps.drop_last());
        steps_keep_order(v, steps.drop_last());
        match steps.last() {
            InodeStep::Assign(t) => assigning_keeps_order(before, t),
            InodeStep::Rename(from, to) => renaming_keeps_order(before, from, to),
        }
    }
}

/// A number is never given out twice: whatever happens after a path got its inode, a path
/// that has none then gets another one, also where the first path has left the table. It is
/// the next number, and never that of the root.
pub proof fn numbers_are_never_reused(
    v: InodeView,
    p: Seq<char>,
    steps: Seq<InodeStep>,
    q: Seq<char>,
)
    requires
        v.wf(),
        v.room_for(p),
        v.assigned(p).room_for_steps(steps),
        v.assigned(p).after_steps(steps).room_for(q),
        !v.assigned(p).after_steps(steps).inodes.dom().contains(path::key(q)),
    ensures
        ({
            let later = v.assigned(p).after_steps(steps);
            &&& later.inode_for(q) == later.next
            &&& later.assigned(q).next == later.next + 1
            &&& v.inode_for(p) < later.inode_for(q)
            &&& later.inode_for(q) != 1
        }),
{
    assigning_keeps_order(v, p);
    steps_keep_order(v.assigned(p), steps);
}

/// After a rename the inode of the old path leads to the new one, and the new path has that
/// inode.
pub proof fn rename_moves_the_inode(v: InodeView, from: Seq<char>, to: Seq<char>)
    requires
        v.wf(),
        v.inodes.dom().contains(path::key(from)),
    ensures
        v.renamed(from, to).path_of(v.inodes[path::key(from)]) == Some(to),
        v.renamed(from, to).inode_for(to) == v.inodes[path::key(from)],
        path::key(from) != path::key(to) ==> !v.renamed(from, to).inodes.dom().contains(
            path::key(from),
        ),
{
    renaming_keeps_order(v, from, to);
    let d = ino_key(v.inodes[path::key(from)]);
    lru_map::bounded_map_stays_bounded(v.paths, d, to);
}

/// Numbers for paths, and paths for numbers. The table is bounded.
pub struct InodeTable {
    paths: LruMap<PathName>,
    inodes: StringHashMap<u64>,
    next: u64,
    evictions: u64,
}

impl View for InodeTable {
    type V = InodeView;

    closed spec fn view(&self) -> InodeView {
        InodeView {
            paths: path_texts(self.paths@),
            inodes: self.inodes@,
            next: self.next,
            evictions: self.evictions,
        }
    }
}

impl InodeTable {
    pub closed spec fn wf(&self) -> bool {
        self@.wf() && self.paths.wf()
    }

    /// The root has the number one.
    pub open spec fn fresh() -> InodeView {
        let root: Seq<char> = seq!['/'];
        InodeView {
            paths: LruView::<Seq<char>>::empty(DEFAULT_INODE_CACHE_SIZE as nat).put(
                ino_key(1),
                root,
            ),
            inodes: Map::<Seq<char>, u64>::empty().insert(path::key(root), 1u64),
            next: 2,
            evictions: 0,
        }
    }

    pub fn new() -> (r: Self)
        ensures
            r.wf(),
            r@.wf(),
            r@ == Self::fresh(),
    {
        let root = PathName::new("/");
        let ghost text: Seq<char> = seq!['/'];
        proof {
            reveal_strlit("/");
            assert(root@ =~= text);
        }
        let mut paths: LruMap<PathName> = LruMap::new(DEFAULT_INODE_CACHE_SIZE);
        let ghost empty = paths@;
        let mut inodes: StringHashMap<u64> = StringHashMap::new();
        inodes.insert(root.key(), 1);
        let one = text::decimal_of(1);
        let ghost start = InodeView {
            paths: path_texts(empty),
            inodes: Map::empty(),
            next: 1,
            evictions: 0,
        };
        proof {
            assert(path_texts(empty) =~= LruView::empty(DEFAULT_INODE_CACHE_SIZE as nat));
            assigning_keeps_order(start, text);
            put_texts(empty, one@, root);
        }
        paths.put(one, root);
        let r = InodeTable { paths, inodes, next: 2, evictions: 0 };
        proof {
            assert(start.assigned(text) =~= Self::fresh());
            assert(r@ =~= Self::fresh());
        }
        r
    }

    /// The path of an inode; the order of use stays.
    pub fn get_path_from_inode(&self, ino: u64) -> (r: Option<&PathName>)
        ensures
            match r {
                Some(p) => self@.path_of(ino) == Some(p@),
                None => self@.path_of(ino) is None,
            },
    {
        let d = text::decimal_of(ino);
        self.paths.peek(d.as_str())
    }

    /// The number that the next new path gets.
    pub fn next_inode(&self) -> (r: u64)
        ensures
            r == self@.next,
    {
        self.next
    }

    /// The inode of a path, which gets one where it has none.
    pub fn get_or_create_inode(&mut self, path: PathName) -> (ino: u64)
        requires
            old(self).wf(),
            old(self)@.room_for(path@),
        ensures
            final(self).wf(),
            final(self)@.wf(),
            final(self)@ == old(self)@.assigned(path@),
            ino == old(self)@.inode_for(path@),
    {
        let k = path.key();
        let ghost before = self@;
        let ghost table = self.paths@;
        proof {
            assigning_keeps_order(before, path@);
        }
        match self.inodes.get(k.as_str()) {
            Some(found) => {
                let ino: u64 = *found;
                let d = text::decimal_of(ino);
                let _used = self.paths.get(d.as_str());
                proof {
                    touch_texts(table, d@);
                    assert(self@ =~= before.assigned(path@));
                }
                ino
            },
            None => {
                let ino: u64 = self.next;
                let d = text::decimal_of(ino);
                proof {
                    put_texts(table, d@, path);
                    fresh_number(before);
                }
                let ghost t = path@;
                self.next = ino + 1;
                if let Some(gone) = self.paths.put_path(d, path) {
                    let gone_key = gone.key();
                    self.inodes.remove(gone_key.as_str());
                    self.evictions = self.evictions.wrapping_add(1);
                }
                self.inodes.insert(k, ino);
                proof {
                    assert(self@ =~= before.assigned(t));
                }
                ino
            },
        }
    }

    /// Takes the news that a path was renamed.
    pub fn rename(&mut self, from: &PathName, to: PathName)
        requires
            old(self).wf(),
        ensures
            final(self).wf(),
            final(self)@.wf(),
            final(self)@ == old(self)@.renamed(from@, to@),
    {
        let k = from.key();
        let ghost before = self@;
        let ghost table = self.paths@;
        proof {
            renaming_keeps_order(before, from@, to@);
        }
        match self.inodes.get(k.as_str()) {
            Some(found) => {
                let ino: u64 = *found;
                let ghost t = to@;
                let new_key = to.key();
                let d = text::decimal_of(ino);
                proof {
                    put_texts(table, d@, to);
                }
                self.inodes.remove(k.as_str());
                self.paths.put(d, to);
                self.inodes.insert(new_key, ino);
                proof {
                    assert(self@ =~= before.renamed(from@, t));
                }
            },
            None => {},
        }
    }
}

proof fn put_texts(m: LruView<PathName>, k: Seq<char>, p: PathName)
    requires
        m.wf(),
    ensures
        path_texts(m.put(k, p)) == path_texts(m).put(k, p@),
{
    assert(path_texts(m.put(k, p)) =~= path_texts(m).put(k, p@));
}

proof fn touch_texts(m: LruView<PathName>, k: Seq<char>)
    requires
        m.wf(),
    ensures
        path_texts(m.touch(k)) == path_texts(m).touch(k),
{
    assert(path_texts(m.touch(k)) =~= path_texts(m).touch(k));
}

/// The kind of a file.
#[derive(Debug, Clone, Copy, PartialEq, Eq, Structural)]
pub enum Kind {
    Directory,
    Symlink,
    RegularFile,
}

/// The kind that two tests on a file make out.
pub fn kind_of(is_dir: bool, is_symlink: bool) -> (r: Kind)
    ensures
        r == (if is_dir {
            Kind::Directory
        } else if is_symlink {
            Kind::Symlink
        } else {
            Kind::RegularFile
        }),
{
    if is_dir {
        Kind::Directory
    } else if is_symlink {
        Kind::Symlink
    } else {
        Kind::RegularFile
    }
}

/// The attributes of a file, but for its times.
#[derive(Debug, Clone, Copy, PartialEq, Eq, Structural)]
pub struct FileAttr {
    pub ino: u64,
    pub size: u64,
    pub blocks: u64,
    pub kind: Kind,
    pub perm: u16,
    pub nlink: u32,
    pub uid: u32,
    pub gid: u32,
    pub blksize: u32,
}

/// The permissions that a creation mode asks for.
pub fn creation_permissions(mode: u32) -> (r: u16)
    ensures
        r as u32 == mode & 0o7777,
{
    proof {
        assert(mode & 0o7777 <= 0xffff) by (bit_vector);
    }
    (mode & 0o7777) as u16
}

/// What the file system says of a path that someone wants to change.
#[derive(Debug)]
pub struct ProtectionProbe {
    pub source_exists: bool,
    pub backend_exists: bool,
    /// The content of the SFV file in the source directory of the path; `None` where there
    /// is none or it cannot be read.
    pub sfv_content: Option<String>,
}

/// The file is there in the backend alone, so it comes out of an archive.
pub open spec fn extracted(p: ProtectionProbe) -> bool {
    !p.source_exists && p.backend_exists
}

/// The name that a line of an SFV file lists.
pub open spec fn release_name(line: Seq<char>) -> Option<Seq<char>> {
    let t = text::trim(line);
    let space = text::last_index(t, ' ');
    if t.len() == 0 || t[0] == ';' || space < 0 {
        None
    } else {
        Some(text::trim(t.take(space)))
    }
}

/// A line of the SFV file lists the name, given in small letters.
pub open spec fn lists(content: Seq<char>, low: Seq<char>) -> bool {
    let ls = text::lines(content);
    exists|i: int|
        0 <= i < ls.len() && (release_name(#[trigger] ls[i]) matches Some(n) && text::lowered(n)
            == low)
}

fn content_lists(content: &str, low: &str) -> (r: bool)
    ensures
        r == lists(content@, low@),
{
    let chars = text::chars_of(content);
    let ls = text::lines_of(&chars);
    let ghost all = text::lines(content@);
    proof {
        assert(text::rows(ls@).len() == ls@.len());
    }
    let mut i: usize = 0;
    while i < ls.len()
        invariant
            i <= ls@.len(),
            all == text::lines(content@),
            text::rows(ls@) == all,
            text::rows(ls@).len() == ls@.len(),
            forall|j: int|
                0 <= j < i ==> !(release_name(#[trigger] all[j]) matches Some(n) && text::lowered(n)
                    == low@),
        decreases ls@.len() - i,
    {
        proof {
            assert(all[i as int] == ls@[i as int]@);
        }
        let t = text::trimmed(&ls[i]);
        if t.len() > 0 && t[0] != ';' {
            if let Some(space) = text::find_last_char(&t, ' ') {
                let head = text::copy_range(&t, 0, space);
                proof {
                    assert(head@ =~= t@.take(space as int));
                }
                let name = text::trimmed(&head);
                let own = text::lowered_chars(&name);
                if text::same_text(own.as_str(), low) {
                    proof {
                        assert(release_name(all[i as int]) == Some(name@));
                    }
                    return true;
                }
            }
        }
        i += 1;
    }
    false
}

/// The name of the path is listed in the SFV file beside it.
pub open spec fn listed_beside(t: Seq<char>, sfv_content: Option<String>) -> bool {
    match (path::parent_of(t), path::file_name_of(t), sfv_content) {
        (Some(_), Some(name), Some(c)) => lists(c@, text::lowered(name)),
        _ => false,
    }
}

/// Tests whether the name of a path is listed in the SFV file beside it.
pub fn is_listed_in_sfv(path: &PathName, sfv_content: &Option<String>) -> (r: bool)
    ensures
        r == listed_beside(path@, *sfv_content),
{
    match path.parent() {
        Some(_) => match path.file_name() {
            Some(name) => match sfv_content {
                Some(c) => {
                    let low = text::lowered_chars(&name);
                    content_lists(c.as_str(), low.as_str())
                },
                None => false,
            },
            None => false,
        },
        None => false,
    }
}

/// A directory whose download is not finished: it changed a moment ago, and the files that
/// its SFV file lists are not complete. `sfv_complete` is `None` where it has no SFV file.
pub open spec fn unfinished(age: FileAge, sfv_complete: Option<bool>) -> bool {
    &&& !(age matches FileAge::Seconds(n) && n >= GUARD_STABLE_SECS)
    &&& sfv_complete == Some(false)
}

/// Tests whether a directory holds a release whose download is not finished.
pub fn source_set_incomplete(age: FileAge, sfv_complete: Option<bool>) -> (r: bool)
    ensures
        r == unfinished(age, sfv_complete),
{
    if let FileAge::Seconds(n) = age {
        if n >= GUARD_STABLE_SECS {
            return false;
        }
    }
    match sfv_complete {
        Some(complete) => !complete,
        None => false,
    }
}

/// A path of the mount below another root: the leading separator does not count.
pub open spec fn below(root: Seq<char>, t: Seq<char>) -> Seq<char> {
    if t.len() > 0 && t[0] == '/' {
        path::joined(root, t.skip(1))
    } else {
        path::joined(root, t)
    }
}

fn path_below(root: &PathName, path: &PathName) -> (r: PathName)
    ensures
        r@ == below(root@, path@),
{
    let t = text::chars_of(path.as_str());
    if t.len() > 0 && t[0] == '/' {
        let rest = text::copy_range(&t, 1, t.len());
        proof {
            assert(rest@ =~= path@.skip(1));
        }
        let s = text::text_of(&rest);
        root.join(s.as_str())
    } else {
        root.join(path.as_str())
    }
}

/// An entry of a backend directory.
#[derive(Debug)]
pub struct RawEntry {
    pub name: String,
    /// It is a release whose download is not finished.
    pub incomplete: bool,
    /// `None` where the kind cannot be told.
    pub kind: Option<Kind>,
    /// The decision about it, where it is a directory to validate.
    pub passes: bool,
}

/// An entry of a listing.
#[derive(Debug)]
pub struct DirItem {
    pub ino: u64,
    pub kind: Kind,
    pub name: String,
}

pub open spec fn item_views(v: Seq<DirItem>) -> Seq<(u64, Kind, Seq<char>)> {
    Seq::new(v.len(), |i: int| (v[i].ino, v[i].kind, v[i].name@))
}

fn push_item(v: &mut Vec<DirItem>, ino: u64, kind: Kind, name: &str)
    ensures
        item_views(final(v)@) == item_views(old(v)@).push((ino, kind, name@)),
{
    let ghost before = v@;
    v.push(DirItem { ino, kind, name: name.to_owned() });
    proof {
        assert(item_views(v@) =~= item_views(before).push((ino, kind, name@)));
    }
}

/// The entries that every directory has.
pub open spec fn dot_entries() -> Seq<(u64, Kind, Seq<char>)> {
    seq![(1u64, Kind::Directory, "."@), (1u64, Kind::Directory, ".."@)]
}

/// The mounted file system.
pub struct RarGateFs {
    pub backend_path: PathName,
    pub source_path: PathName,
    pub filter_engine: FilterEngine,
    pub inodes: InodeTable,
    pub default_permissions: u16,
    pub next_fh: u64,
}

impl RarGateFs {
    pub open spec fn wf(&self) -> bool {
        &&& self.inodes.wf()
        &&& self.next_fh != 0
    }

    /// Nothing but the inodes differs.
    pub open spec fn same_but_inodes(&self, other: RarGateFs) -> bool {
        &&& self.backend_path == other.backend_path
        &&& self.source_path == other.source_path
        &&& self.filter_engine == other.filter_engine
        &&& self.default_permissions == other.default_permissions
        &&& self.next_fh == other.next_fh
    }

    pub fn new(backend_path: PathName, source_path: PathName, config: &Config) -> (r: Self)
        ensures
            r.wf(),
            r.backend_path@ == backend_path@,
            r.source_path@ == source_path@,
            r.filter_engine.hot().matches(*config),
            r.filter_engine.backend_path@ == backend_path@,
            r.filter_engine.read_only == (config.read_only == Some(true)),
            r.filter_engine.no_delete == (config.no_delete != Some(false)),
            r.inodes@ == InodeTable::fresh(),
            r.default_permissions == (match config.fuse_options {
                Some(FuseOptions { permissions: Some(p), .. }) => p,
                _ => 0o777u16,
            }),
            r.next_fh == 1,
    {
        let permissions: u16 = match &config.fuse_options {
            Some(o) => match o.permissions {
                Some(p) => p,
                None => 0o777,
            },
            None => 0o777,
        };
        let filter_engine = FilterEngine::new(backend_path.clone(), config);
        RarGateFs {
            backend_path,
            source_path,
            filter_engine,
            inodes: InodeTable::new(),
            default_permissions: permissions,
            next_fh: 1,
        }
    }

    /// Where a path of the mount lies in the backend.
    pub fn backend_path(&self, path: &PathName) -> (r: PathName)
        ensures
            r@ == below(self.backend_path@, path@),
    {
        path_below(&self.backend_path, path)
    }

    /// Where a path of the mount lies in the source.
    pub fn source_path(&self, path: &PathName) -> (r: PathName)
        ensures
            r@ == below(self.source_path@, path@),
    {
        path_below(&self.source_path, path)
    }

    /// The attributes of a file of the given size; the permissions are the default ones
    /// unless others are given.
    pub fn build_file_attr(&self, ino: u64, size: u64, kind: Kind, perm_override: Option<u16>) -> (
    r: FileAttr)
        ensures
            r == (FileAttr {
                ino,
                size,
                blocks: r.blocks,
                kind,
                perm: match perm_override {
                    Some(p) => p,
                    None => self.default_permissions,
                },
                nlink: if kind == Kind::Directory {
                    2
                } else {
                    1
                },
                uid: DEFAULT_UID,
                gid: DEFAULT_GID,
                blksize: FS_BLOCK_SIZE,
            }),
            r.blocks * STAT_BLOCK_SIZE >= size,
            size > 0 ==> (r.blocks - 1) * STAT_BLOCK_SIZE < size,
            size == 0 ==> r.blocks == 0,
    {
        let extra: u64 = if size % STAT_BLOCK_SIZE > 0 {
            1
        } else {
            0
        };
        FileAttr {
            ino,
            size,
            blocks: size / STAT_BLOCK_SIZE + extra,
            kind,
            perm: match perm_override {
                Some(p) => p,
                None => self.default_permissions,
            },
            nlink: if kind == Kind::Directory {
                2
            } else {
                1
            },
            uid: DEFAULT_UID,
            gid: DEFAULT_GID,
            blksize: FS_BLOCK_SIZE,
        }
    }

    /// The path of an entry of a directory, where the directory is known.
    pub open spec fn child(&self, parent: u64, name: Seq<char>) -> Option<Seq<char>> {
        match self.inodes@.path_of(parent) {
            Some(p) => Some(path::joined(p, name)),
            None => None,
        }
    }

    /// The path of an entry of a directory, where the directory is known.
    pub fn child_path(&self, parent: u64, name: &str) -> (r: Option<PathName>)
        ensures
            match r {
                Some(p) => self.child(parent, name@) == Some(p@),
                None => self.child(parent, name@) is None,
            },
    {
        match self.inodes.get_path_from_inode(parent) {
            Some(p) => Some(p.join(name)),
            None => None,
        }
    }

    /// The path is a media file that comes out of an archive.
    pub open spec fn extracted_media(&self, t: Seq<char>, p: ProtectionProbe) -> bool {
        extracted(p) && filtering::media_named(
            text::views(self.filter_engine.hot().media_extensions@),
            match path::file_name_of(t) {
                Some(n) => n,
                None => Seq::empty(),
            },
        )
    }

    /// Tests whether a path is a media file that comes out of an archive.
    pub fn is_extracted_media(&self, path: &PathName, p: &ProtectionProbe) -> (r: bool)
        ensures
            r == self.extracted_media(path@, *p),
    {
        if p.source_exists || !p.backend_exists {
            return false;
        }
        let name = match path.file_name() {
            Some(n) => text::text_of(&n),
            None => {
                let none = String::new();
                proof {
                    assert(none@ =~= Seq::<char>::empty());
                }
                none
            },
        };
        self.filter_engine.is_media_file(name.as_str())
    }

    /// The path may not be changed: it comes out of an archive, or it belongs to a release.
    pub open spec fn write_protected(&self, t: Seq<char>, p: ProtectionProbe) -> bool {
        self.extracted_media(t, p) || listed_beside(t, p.sfv_content)
    }

    /// Tests whether a path may not be changed.
    pub fn is_write_protected(&self, path: &PathName, p: &ProtectionProbe) -> (r: bool)
        ensures
            r == self.write_protected(path@, *p),
    {
        self.is_extracted_media(path, p) || is_listed_in_sfv(path, &p.sfv_content)
    }

    /// What comes of the wish to delete an entry.
    pub open spec fn deletion(&self, parent: u64, name: Seq<char>, p: ProtectionProbe) -> Result<
        Seq<char>,
        Errno,
    > {
        if self.filter_engine.read_only {
            Err(Errno::ReadOnly)
        } else if self.filter_engine.no_delete {
            Err(Errno::NotPermitted)
        } else {
            match self.child(parent, name) {
                None => Err(Errno::NoEntry),
                Some(t) => if self.extracted_media(t, p) {
                    Err(Errno::ReadOnly)
                } else {
                    Ok(below(self.source_path@, t))
                },
            }
        }
    }

    /// Says whether an entry may be deleted, and where it lies in the source.
    pub fn check_delete_allowed(&self, parent: u64, name: &str, p: &ProtectionProbe) -> (r: Result<
        PathName,
        Errno,
    >)
        ensures
            match r {
                Ok(s) => self.deletion(parent, name@, *p) == Ok::<Seq<char>, Errno>(s@),
                Err(e) => self.deletion(parent, name@, *p) == Err::<Seq<char>, Errno>(e),
            },
    {
        if self.filter_engine.read_only_enabled() {
            return Err(Errno::ReadOnly);
        }
        if self.filter_engine.no_delete_enabled() {
            return Err(Errno::NotPermitted);
        }
        match self.child_path(parent, name) {
            None => Err(Errno::NoEntry),
            Some(t) => {
                if self.is_extracted_media(&t, p) {
                    Err(Errno::ReadOnly)
                } else {
                    Ok(self.source_path(&t))
                }
            },
        }
    }

    /// What comes of the wish to create an entry: its path.
    pub open spec fn creation(&self, parent: u64, name: Seq<char>) -> Result<Seq<char>, Errno> {
        if self.filter_engine.read_only {
            Err(Errno::ReadOnly)
        } else {
            match self.child(parent, name) {
                None => Err(Errno::NoEntry),
                Some(t) => Ok(t),
            }
        }
    }

    /// Says whether an entry may be created, and its path. New files are welcome beside
    /// archives too.
    pub fn check_create_allowed(&self, parent: u64, name: &str) -> (r: Result<PathName, Errno>)
        ensures
            match r {
                Ok(t) => self.creation(parent, name@) == Ok::<Seq<char>, Errno>(t@),
                Err(e) => self.creation(parent, name@) == Err::<Seq<char>, Errno>(e),
            },
    {
        if self.filter_engine.read_only_enabled() {
            return Err(Errno::ReadOnly);
        }
        match self.child_path(parent, name) {
            None => Err(Errno::NoEntry),
            Some(t) => Ok(t),
        }
    }

    /// What comes of the wish to change a file.
    pub open spec fn change(&self, ino: u64, p: ProtectionProbe) -> Result<Seq<char>, Errno> {
        if self.filter_engine.read_only {
            Err(Errno::ReadOnly)
        } else {
            match self.inodes@.path_of(ino) {
                None => Err(Errno::NoEntry),
                Some(t) => if self.write_protected(t, p) {
                    Err(Errno::ReadOnly)
                } else {
                    Ok(below(self.source_path@, t))
                },
            }
        }
    }

    /// Says whether a file or its attributes may be changed, and where it lies in the source.
    pub fn check_write_allowed(&self, ino: u64, p: &ProtectionProbe) -> (r: Result<PathName, Errno>)
        ensures
            match r {
                Ok(s) => self.change(ino, *p) == Ok::<Seq<char>, Errno>(s@),
                Err(e) => self.change(ino, *p) == Err::<Seq<char>, Errno>(e),
            },
    {
        if self.filter_engine.read_only_enabled() {
            return Err(Errno::ReadOnly);
        }
        match self.inodes.get_path_from_inode(ino) {
            None => Err(Errno::NoEntry),
            Some(t) => {
                if self.is_write_protected(t, p) {
                    Err(Errno::ReadOnly)
                } else {
                    Ok(self.source_path(t))
                }
            },
        }
    }

    /// What comes of the wish to rename an entry: its path and its new path.
    pub open spec fn renaming(
        &self,
        parent: u64,
        name: Seq<char>,
        newparent: u64,
        newname: Seq<char>,
        p: ProtectionProbe,
    ) -> Result<(Seq<char>, Seq<char>), Errno> {
        if self.filter_engine.read_only {
            Err(Errno::ReadOnly)
        } else {
            match (self.child(parent, name), self.child(newparent, newname)) {
                (Some(from), Some(to)) => if self.write_protected(from, p) {
                    Err(Errno::ReadOnly)
                } else {
                    Ok((from, to))
                },
                _ => Err(Errno::NoEntry),
            }
        }
    }

    /// Says whether an entry may be renamed, its path and its new path.
    pub fn check_rename_allowed(
        &self,
        parent: u64,
        name: &str,
        newparent: u64,
        newname: &str,
        p: &ProtectionProbe,
    ) -> (r: Result<(PathName, PathName), Errno>)
        ensures
            match r {
                Ok((from, to)) => self.renaming(parent, name@, newparent, newname@, *p) == Ok::<
                    (Seq<char>, Seq<char>),
                    Errno,
                >((from@, to@)),
                Err(e) => self.renaming(parent, name@, newparent, newname@, *p) == Err::<
                    (Seq<char>, Seq<char>),
                    Errno,
                >(e),
            },
    {
        if self.filter_engine.read_only_enabled() {
            return Err(Errno::ReadOnly);
        }
        match self.child_path(parent, name) {
            None => Err(Errno::NoEntry),
            Some(from) => match self.child_path(newparent, newname) {
                None => Err(Errno::NoEntry),
                Some(to) => {
                    if self.is_write_protected(&from, p) {
                        Err(Errno::ReadOnly)
                    } else {
                        Ok((from, to))
                    }
                },
            },
        }
    }

    /// A number for an open file; zero is not used.
    pub fn allocate_handle(&mut self) -> (fh: u64)
        requires
            old(self).wf(),
        ensures
            final(self).wf(),
            fh == old(self).next_fh,
            fh != 0,
            final(self).next_fh == (if fh == u64::MAX {
                1
            } else {
                fh + 1
            }),
            final(self).inodes == old(self).inodes,
            final(self).backend_path == old(self).backend_path,
            final(self).source_path == old(self).source_path,
            final(self).filter_engine == old(self).filter_engine,
            final(self).default_permissions == old(self).default_permissions,
    {
        let fh: u64 = self.next_fh;
        self.next_fh = if fh == u64::MAX {
            1
        } else {
            fh + 1
        };
        fh
    }

    /// What comes of a lookup, up to the question whether the backend has the entry: an
    /// entry that is hidden, or whose download is not finished, is not there.
    pub fn check_lookup(
        &self,
        parent: u64,
        name: &str,
        layer: Option<Layer>,
        directory_shown: bool,
        incomplete: bool,
    ) -> (r: Result<PathName, Errno>)
        ensures
            r is Ok <==> (self.child(parent, name@) is Some && self.shows_file(
                below(self.backend_path@, self.inodes@.path_of(parent)->0),
                name@,
                layer,
                directory_shown,
            ) && !incomplete),
            r matches Ok(t) ==> self.child(parent, name@) == Some(t@),
            r matches Err(e) ==> e == Errno::NoEntry,
    {
        match self.inodes.get_path_from_inode(parent) {
            None => Err(Errno::NoEntry),
            Some(p) => {
                let dir = self.backend_path(p);
                if !self.filter_engine.should_show_file(&dir, name, layer, directory_shown)
                    || incomplete {
                    Err(Errno::NoEntry)
                } else {
                    Ok(p.join(name))
                }
            },
        }
    }

    /// A file in a backend directory is shown.
    pub open spec fn shows_file(
        &self,
        dir: Seq<char>,
        name: Seq<char>,
        layer: Option<Layer>,
        directory_shown: bool,
    ) -> bool {
        !self.filter_engine.file_hidden_by_name(dir, name) && (self.filter_engine.file_depends(
            dir,
            layer,
        ) ==> directory_shown)
    }

    /// An entry of a backend directory is listed.
    pub open spec fn shows_entry(
        &self,
        dir: Seq<char>,
        e: RawEntry,
        layer: Option<Layer>,
        directory_shown: bool,
    ) -> bool {
        !e.incomplete && match e.kind {
            None => false,
            Some(Kind::Directory) => self.filter_engine.name_allowed(dir, e.name@) && (
            self.filter_engine.validates_listings() ==> e.passes),
            Some(_) => self.shows_file(dir, e.name@, layer, directory_shown),
        }
    }

    fn entry_shown(
        &self,
        dir: &PathName,
        e: &RawEntry,
        layer: Option<Layer>,
        directory_shown: bool,
    ) -> (r: bool)
        ensures
            r == self.shows_entry(dir@, *e, layer, directory_shown),
    {
        if e.incomplete {
            return false;
        }
        match e.kind {
            None => false,
            Some(Kind::Directory) => {
                if self.filter_engine.needs_validation(dir, e.name.as_str()) {
                    e.passes
                } else {
                    self.filter_engine.should_show_directory_basic_filter(dir, e.name.as_str())
                }
            },
            Some(_) => self.filter_engine.should_show_file(
                dir,
                e.name.as_str(),
                layer,
                directory_shown,
            ),
        }
    }

    /// The inodes and the listing after the first `n` entries of a directory.
    pub open spec fn listing(
        &self,
        v: InodeView,
        t: Seq<char>,
        entries: Seq<RawEntry>,
        n: nat,
        layer: Option<Layer>,
        directory_shown: bool,
    ) -> (InodeView, Seq<(u64, Kind, Seq<char>)>)
        decreases n,
    {
        if n == 0 {
            (v, dot_entries())
        } else {
            let (before, items) = self.listing(
                v,
                t,
                entries,
                (n - 1) as nat,
                layer,
                directory_shown,
            );
            let e = entries[n - 1];
            if self.shows_entry(below(self.backend_path@, t), e, layer, directory_shown) {
                let child = path::joined(t, e.name@);
                (
                    before.assigned(child),
                    items.push((before.inode_for(child), e.kind->0, e.name@)),
                )
            } else {
                (before, items)
            }
        }
    }

    /// Lists a directory of the mount: the two dot entries, then what is shown of `entries`,
    /// in order. `layer` and `directory_shown` tell of the directory itself.
    pub fn list_directory(
        &mut self,
        path: &PathName,
        entries: &Vec<RawEntry>,
        layer: Option<Layer>,
        directory_shown: bool,
    ) -> (r: Vec<DirItem>)
        requires
            old(self).wf(),
            old(self).inodes@.next + entries@.len() <= u64::MAX,
        ensures
            final(self).wf(),
            final(self).same_but_inodes(*old(self)),
            final(self).inodes@ == old(self).listing(
                old(self).inodes@,
                path@,
                entries@,
                entries@.len(),
                layer,
                directory_shown,
            ).0,
            item_views(r@) == old(self).listing(
                old(self).inodes@,
                path@,
                entries@,
                entries@.len(),
                layer,
                directory_shown,
            ).1,
    {
        let dir = self.backend_path(path);
        let mut r: Vec<DirItem> = Vec::new();
        proof {
            assert(item_views(r@) =~= Seq::<(u64, Kind, Seq<char>)>::empty());
        }
        push_item(&mut r, 1, Kind::Directory, ".");
        push_item(&mut r, 1, Kind::Directory, "..");
        proof {
            assert(item_views(r@) =~= dot_entries());
        }
        let mut i: usize = 0;
        while i < entries.len()
            invariant
                i <= entries@.len(),
                self.wf(),
                self.same_but_inodes(*old(self)),
                dir@ == below(old(self).backend_path@, path@),
                self.inodes@.next <= old(self).inodes@.next + i,
                old(self).inodes@.next + entries@.len() <= u64::MAX,
                self.inodes@ == old(self).listing(
                    old(self).inodes@,
                    path@,
                    entries@,
                    i as nat,
                    layer,
                    directory_shown,
                ).0,
                item_views(r@) == old(self).listing(
                    old(self).inodes@,
                    path@,
                    entries@,
                    i as nat,
                    layer,
                    directory_shown,
                ).1,
            decreases entries@.len() - i,
        {
            let e = &entries[i];
            if self.entry_shown(&dir, e, layer, directory_shown) {
                let child = path.join(e.name.as_str());
                let ino: u64 = self.inodes.get_or_create_inode(child);
                if let Some(kind) = e.kind {
                    push_item(&mut r, ino, kind, e.name.as_str());
                }
            }
            i += 1;
        }
        r
    }
}

/// From which entry on a listing goes on after `offset` entries were handed out; a negative
/// offset lies past every end.
pub fn page_start(offset: i64, len: usize) -> (r: usize)
    ensures
        r == (if offset < 0 || offset > len {
            len as int
        } else {
            offset as int
        }),
{
    if offset < 0 {
        return len;
    }
    let wanted: u64 = offset as u64;
    if wanted > len as u64 {
        len
    } else {
        wanted as usize
    }
}

/// A listing starts with the two dot entries, which keep their places, whatever is shown.
pub proof fn listings_start_with_dots(
    fs: RarGateFs,
    v: InodeView,
    t: Seq<char>,
    entries: Seq<RawEntry>,
    n: nat,
    layer: Option<Layer>,
    directory_shown: bool,
)
    requires
        n <= entries.len(),
    ensures
        2 <= fs.listing(v, t, entries, n, layer, directory_shown).1.len() <= n + 2,
        fs.listing(v, t, entries, n, layer, directory_shown).1[0] == dot_entries()[0],
        fs.listing(v, t, entries, n, layer, directory_shown).1[1] == dot_entries()[1],
    decreases n,
{
    if n > 0 {
        listings_start_with_dots(fs, v, t, entries, (n - 1) as nat, layer, directory_shown);
    }
}

/// A file system that is read-only refuses every deletion, creation, change and renaming.
pub proof fn read_only_refuses_everything(
    fs: RarGateFs,
    ino: u64,
    name: Seq<char>,
    newparent: u64,
    newname: Seq<char>,
    p: ProtectionProbe,
)
    requires
        fs.filter_engine.read_only,
    ensures
        fs.deletion(ino, name, p) == Err::<Seq<char>, Errno>(Errno::ReadOnly),
        fs.creation(ino, name) == Err::<Seq<char>, Errno>(Errno::ReadOnly),
        fs.change(ino, p) == Err::<Seq<char>, Errno>(Errno::ReadOnly),
        fs.renaming(ino, name, newparent, newname, p) == Err::<(Seq<char>, Seq<char>), Errno>(
            Errno::ReadOnly,
        ),
{
}

/// Media that comes out of an archive is always protected: it is never deleted, changed or
/// renamed.
pub proof fn extracted_media_is_protected(
    fs: RarGateFs,
    parent: u64,
    name: Seq<char>,
    ino: u64,
    newparent: u64,
    newname: Seq<char>,
    p: ProtectionProbe,
)
    requires
        fs.child(parent, name) is Some,
        fs.inodes@.path_of(ino) == fs.child(parent, name),
        fs.extracted_media(fs.child(parent, name)->0, p),
    ensures
        fs.deletion(parent, name, p) is Err,
        fs.change(ino, p) == Err::<Seq<char>, Errno>(Errno::ReadOnly),
        fs.renaming(parent, name, newparent, newname, p) is Err,
{
}

/// A companion file that lies in the source and is not listed in the SFV file stays
/// writable.
pub proof fn companion_files_stay_writable(fs: RarGateFs, ino: u64, p: ProtectionProbe)
    requires
        !fs.filter_engine.read_only,
        fs.inodes@.path_of(ino) is Some,
        p.source_exists,
        !listed_beside(fs.inodes@.path_of(ino)->0, p.sfv_content),
    ensures
        fs.change(ino, p) == Ok::<Seq<char>, Errno>(
            below(fs.source_path@, fs.inodes@.path_of(ino)->0),
        ),
{
}

} // verus!
