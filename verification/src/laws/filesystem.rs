//! What the mount lists, and what it lets its users change.

use crate::filesystem;
use crate::filesystem::Errno;
use crate::filesystem::InodeView;
use crate::filesystem::Kind;
use crate::filesystem::ProtectionProbe;
use crate::filesystem::RarGateFs;
use crate::filesystem::RawEntry;
use crate::filtering::Layer;
use crate::laws;
use crate::path;
use crate::sfv::FileAge;
use crate::text;
use vstd::prelude::*;

verus! {

/// Listings are validated: validation is on and not lazy.
pub open spec fn validating(fs: RarGateFs) -> bool {
    fs.filter_engine.handle.0.sfv matches Some(rules) && rules.enabled && !rules.lazy_mode
}

/// One more entry either leaves a listing as it is or puts itself at the end, under its own
/// name and kind, and with the inode of its own path.
pub proof fn listings_grow_by_one_entry(
    fs: RarGateFs,
    v: InodeView,
    t: Seq<char>,
    entries: Seq<RawEntry>,
    n: nat,
    layer: Option<Layer>,
    shown: bool,
)
    requires
        0 < n <= entries.len(),
    ensures
        ({
            let (before, items) = fs.listing(v, t, entries, (n - 1) as nat, layer, shown);
            let (after, more) = fs.listing(v, t, entries, n, layer, shown);
            let e = entries[n - 1];
            let child = path::joined(t, e.name@);
            ||| after == before && more == items
            ||| {
                &&& !e.incomplete
                &&& e.kind is Some
                &&& more == items.push((before.inode_for(child), e.kind->0, e.name@))
                &&& after == before.assigned(child)
            }
        }),
        fs.listing(v, t, entries, 0, layer, shown) == (
            v,
            seq![(1u64, Kind::Directory, "."@), (1u64, Kind::Directory, ".."@)],
        ),
{
}

/// A directory that fails validation is not listed: where listings are validated, a listing
/// with the directory is the listing without it.
pub proof fn failing_directories_are_not_listed(
    fs: RarGateFs,
    v: InodeView,
    t: Seq<char>,
    entries: Seq<RawEntry>,
    n: nat,
    layer: Option<Layer>,
    shown: bool,
)
    requires
        0 < n <= entries.len(),
        validating(fs),
        entries[n - 1].kind == Some(Kind::Directory),
        !entries[n - 1].passes,
    ensures
        fs.listing(v, t, entries, n, layer, shown) == fs.listing(
            v,
            t,
            entries,
            (n - 1) as nat,
            layer,
            shown,
        ),
{
}

/// A directory whose name is allowed and whose download is finished is listed, with the inode
/// of its path, where it passes or listings are not validated.
pub proof fn passing_directories_are_listed(
    fs: RarGateFs,
    v: InodeView,
    t: Seq<char>,
    entries: Seq<RawEntry>,
    n: nat,
    layer: Option<Layer>,
    shown: bool,
)
    requires
        0 < n <= entries.len(),
        entries[n - 1].kind == Some(Kind::Directory),
        entries[n - 1].passes || !validating(fs),
        !entries[n - 1].incomplete,
        fs.filter_engine.name_allowed(
            filesystem::below(fs.backend_path@, t),
            entries[n - 1].name@,
        ),
    ensures
        fs.listing(v, t, entries, n, layer, shown).1 == fs.listing(
            v,
            t,
            entries,
            (n - 1) as nat,
            layer,
            shown,
        ).1.push(
            (
                fs.listing(v, t, entries, (n - 1) as nat, layer, shown).0.inode_for(
                    path::joined(t, entries[n - 1].name@),
                ),
                Kind::Directory,
                entries[n - 1].name@,
            ),
        ),
{
}

/// An entry is left out where its download is not finished, its kind cannot be told, or its
/// name is not allowed.
pub proof fn unfit_entries_are_not_listed(
    fs: RarGateFs,
    v: InodeView,
    t: Seq<char>,
    entries: Seq<RawEntry>,
    n: nat,
    layer: Option<Layer>,
    shown: bool,
)
    requires
        0 < n <= entries.len(),
        ({
            let e = entries[n - 1];
            let dir = filesystem::below(fs.backend_path@, t);
            ||| e.incomplete
            ||| e.kind is None
            ||| e.kind == Some(Kind::Directory) && !fs.filter_engine.name_allowed(dir, e.name@)
            ||| e.kind != Some(Kind::Directory) && fs.filter_engine.file_hidden_by_name(
                dir,
                e.name@,
            )
            ||| e.kind != Some(Kind::Directory) && !shown && fs.filter_engine.file_depends(
                dir,
                layer,
            )
        }),
    ensures
        fs.listing(v, t, entries, n, layer, shown) == fs.listing(
            v,
            t,
            entries,
            (n - 1) as nat,
            layer,
            shown,
        ),
{
}

/// A file is listed where its name does not hide it and its directory is shown or does not
/// matter.
pub proof fn other_files_are_listed(
    fs: RarGateFs,
    v: InodeView,
    t: Seq<char>,
    entries: Seq<RawEntry>,
    n: nat,
    layer: Option<Layer>,
    shown: bool,
)
    requires
        0 < n <= entries.len(),
        !entries[n - 1].incomplete,
        entries[n - 1].kind == Some(Kind::RegularFile) || entries[n - 1].kind == Some(
            Kind::Symlink,
        ),
        !fs.filter_engine.file_hidden_by_name(
            filesystem::below(fs.backend_path@, t),
            entries[n - 1].name@,
        ),
        shown || !fs.filter_engine.file_depends(filesystem::below(fs.backend_path@, t), layer),
    ensures
        fs.listing(v, t, entries, n, layer, shown).1 == fs.listing(
            v,
            t,
            entries,
            (n - 1) as nat,
            layer,
            shown,
        ).1.push(
            (
                fs.listing(v, t, entries, (n - 1) as nat, layer, shown).0.inode_for(
                    path::joined(t, entries[n - 1].name@),
                ),
                entries[n - 1].kind->0,
                entries[n - 1].name@,
            ),
        ),
{
}

/// Every item of a listing but the two dots comes from an entry of that name and kind whose
/// download is finished; a directory among them has passed, where listings are validated.
pub proof fn items_come_from_entries(
    fs: RarGateFs,
    v: InodeView,
    t: Seq<char>,
    entries: Seq<RawEntry>,
    n: nat,
    layer: Option<Layer>,
    shown: bool,
    i: int,
)
    requires
        n <= entries.len(),
        2 <= i < fs.listing(v, t, entries, n, layer, shown).1.len(),
    ensures
        exists|j: int|
            0 <= j < n && {
                let e = #[trigger] entries[j];
                let item = fs.listing(v, t, entries, n, layer, shown).1[i];
                &&& e.name@ == item.2
                &&& e.kind == Some(item.1)
                &&& !e.incomplete
                &&& item.1 == Kind::Directory && validating(fs) ==> e.passes
                &&& item.1 == Kind::Directory ==> fs.filter_engine.name_allowed(
                    filesystem::below(fs.backend_path@, t),
                    e.name@,
                )
                &&& item.1 != Kind::Directory ==> !fs.filter_engine.file_hidden_by_name(
                    filesystem::below(fs.backend_path@, t),
                    e.name@,
                )
            },
    decreases n,
{
    if n > 0 {
        let before = fs.listing(v, t, entries, (n - 1) as nat, layer, shown).1;
        listings_grow_by_one_entry(fs, v, t, entries, n, layer, shown);
        if i < before.len() {
            items_come_from_entries(fs, v, t, entries, (n - 1) as nat, layer, shown, i);
        } else {
            assert(entries[n - 1].name@ == fs.listing(v, t, entries, n, layer, shown).1[i].2);
        }
    }
}

/// An entry stays listed however many entries follow.
pub proof fn listed_entries_stay(
    fs: RarGateFs,
    v: InodeView,
    t: Seq<char>,
    entries: Seq<RawEntry>,
    m: nat,
    n: nat,
    layer: Option<Layer>,
    shown: bool,
)
    requires
        m <= n <= entries.len(),
    ensures
        fs.listing(v, t, entries, m, layer, shown).1.is_prefix_of(
            fs.listing(v, t, entries, n, layer, shown).1,
        ),
    decreases n,
{
    if m < n {
        listed_entries_stay(fs, v, t, entries, m, (n - 1) as nat, layer, shown);
        listings_grow_by_one_entry(fs, v, t, entries, n, layer, shown);
    }
}

/// A path of the mount lies at the same place below the root of the backend or the source.
pub proof fn paths_keep_their_place(root: Seq<char>, rel: Seq<char>)
    requires
        path::tidy(rel),
    ensures
        filesystem::below(root, seq!['/'] + rel) == path::joined(root, rel),
        path::relative(filesystem::below(root, seq!['/'] + rel), root) == Some(rel),
{
    assert((seq!['/'] + rel).skip(1) =~= rel);
    path::join_then_strip(root, rel);
}

/// Where nothing may be deleted, no deletion is allowed, whatever it is about.
pub proof fn no_delete_refuses_deletions(
    fs: RarGateFs,
    parent: u64,
    name: Seq<char>,
    p: ProtectionProbe,
)
    requires
        fs.filter_engine.no_delete,
    ensures
        fs.deletion(parent, name, p) is Err,
        !fs.filter_engine.read_only ==> fs.deletion(parent, name, p) == Err::<Seq<char>, Errno>(
            Errno::NotPermitted,
        ),
{
}

/// The path ends in a component that has one of the media extensions, whatever its case.
pub open spec fn is_media(fs: RarGateFs, t: Seq<char>) -> bool {
    path::file_name_of(t) matches Some(name) && exists|k: int|
        0 <= k < fs.filter_engine.handle.0.media_extensions@.len()
            && laws::filtering::has_extension(
            name,
            (#[trigger] fs.filter_engine.handle.0.media_extensions@[k])@,
        )
}

proof fn media_is_media(fs: RarGateFs, t: Seq<char>, p: ProtectionProbe)
    ensures
        fs.extracted_media(t, p) <==> !p.source_exists && p.backend_exists && is_media(fs, t),
{
    let exts = text::views(fs.filter_engine.handle.0.media_extensions@);
    let none = Seq::<char>::empty();
    assert forall|k: int|
        #![trigger exts[k]]
        #![trigger fs.filter_engine.handle.0.media_extensions@[k]]
        0 <= k < exts.len() implies exts[k]
        == fs.filter_engine.handle.0.media_extensions@[k]@ by {}
    match path::file_name_of(t) {
        Some(name) => {
            laws::filtering::media_is_told_by_its_extension(exts, name);
        },
        None => {
            laws::filtering::media_is_told_by_its_extension(exts, none);
            assert(text::lowered(none) =~= none);
        },
    }
}

/// What comes out of an archive and is a media file can be neither deleted, changed nor
/// renamed.
pub proof fn extracted_media_stays(
    fs: RarGateFs,
    parent: u64,
    name: Seq<char>,
    ino: u64,
    newparent: u64,
    newname: Seq<char>,
    t: Seq<char>,
    p: ProtectionProbe,
)
    requires
        fs.inodes@.path_of(parent) matches Some(d) && path::joined(d, name) == t,
        fs.inodes@.path_of(ino) == Some(t),
        fs.inodes@.path_of(newparent) is Some,
        !p.source_exists,
        p.backend_exists,
        is_media(fs, t),
    ensures
        fs.deletion(parent, name, p) is Err,
        fs.change(ino, p) == Err::<Seq<char>, Errno>(Errno::ReadOnly),
        fs.renaming(parent, name, newparent, newname, p) == Err::<(Seq<char>, Seq<char>), Errno>(
            Errno::ReadOnly,
        ),
{
    media_is_media(fs, t, p);
}

/// Content of the source can be changed, renamed and, where deletions are allowed, deleted, as
/// long as no SFV file beside it lists it.
pub proof fn own_files_can_be_changed(
    fs: RarGateFs,
    parent: u64,
    name: Seq<char>,
    ino: u64,
    newparent: u64,
    newname: Seq<char>,
    t: Seq<char>,
    p: ProtectionProbe,
)
    requires
        !fs.filter_engine.read_only,
        fs.inodes@.path_of(parent) matches Some(d) && path::joined(d, name) == t,
        fs.inodes@.path_of(ino) == Some(t),
        fs.inodes@.path_of(newparent) is Some,
        p.source_exists || !p.backend_exists || !is_media(fs, t),
        p.sfv_content is None,
    ensures
        !fs.filter_engine.no_delete ==> fs.deletion(parent, name, p) == Ok::<Seq<char>, Errno>(
            filesystem::below(fs.source_path@, t),
        ),
        fs.change(ino, p) == Ok::<Seq<char>, Errno>(filesystem::below(fs.source_path@, t)),
        fs.renaming(parent, name, newparent, newname, p) == Ok::<(Seq<char>, Seq<char>), Errno>(
            (t, path::joined(fs.inodes@.path_of(newparent)->0, newname)),
        ),
        fs.creation(parent, name) == Ok::<Seq<char>, Errno>(t),
{
    media_is_media(fs, t, p);
}

/// What the SFV file beside it lists can be neither changed nor renamed.
pub proof fn listed_files_stay(
    fs: RarGateFs,
    parent: u64,
    name: Seq<char>,
    ino: u64,
    newparent: u64,
    newname: Seq<char>,
    t: Seq<char>,
    p: ProtectionProbe,
    i: int,
)
    requires
        fs.inodes@.path_of(parent) matches Some(d) && path::joined(d, name) == t,
        fs.inodes@.path_of(ino) == Some(t),
        fs.inodes@.path_of(newparent) is Some,
        path::parent_of(t) is Some,
        path::file_name_of(t) is Some,
        p.sfv_content is Some,
        0 <= i < text::lines(p.sfv_content->0@).len(),
        filesystem::release_name(text::lines(p.sfv_content->0@)[i]) matches Some(n)
            && text::lowered(n) == text::lowered(path::file_name_of(t)->0),
    ensures
        fs.change(ino, p) == Err::<Seq<char>, Errno>(Errno::ReadOnly),
        fs.renaming(parent, name, newparent, newname, p) == Err::<(Seq<char>, Seq<char>), Errno>(
            Errno::ReadOnly,
        ),
{
    assert(filesystem::lists(p.sfv_content->0@, text::lowered(path::file_name_of(t)->0)));
}

/// An inode or a directory that is not known is not there for any change.
pub proof fn unknown_inodes_are_not_there(
    fs: RarGateFs,
    parent: u64,
    name: Seq<char>,
    newparent: u64,
    newname: Seq<char>,
    p: ProtectionProbe,
)
    requires
        !fs.filter_engine.read_only,
        fs.inodes@.path_of(parent) is None,
    ensures
        !fs.filter_engine.no_delete ==> fs.deletion(parent, name, p) == Err::<Seq<char>, Errno>(
            Errno::NoEntry,
        ),
        fs.creation(parent, name) == Err::<Seq<char>, Errno>(Errno::NoEntry),
        fs.change(parent, p) == Err::<Seq<char>, Errno>(Errno::NoEntry),
        fs.renaming(parent, name, newparent, newname, p) == Err::<(Seq<char>, Seq<char>), Errno>(
            Errno::NoEntry,
        ),
        fs.renaming(newparent, newname, parent, name, p) == Err::<(Seq<char>, Seq<char>), Errno>(
            Errno::NoEntry,
        ),
{
}

/// A directory is held back exactly while its SFV file is not served and it changed within the
/// last two minutes, or when it changed cannot be told.
pub proof fn settled_directories_are_not_held_back(age: FileAge, complete: Option<bool>, n: u64)
    ensures
        n >= 120 ==> !filesystem::unfinished(FileAge::Seconds(n), complete),
        n < 120 ==> filesystem::unfinished(FileAge::Seconds(n), Some(false)),
        !filesystem::unfinished(age, Some(true)),
        !filesystem::unfinished(age, None),
        filesystem::unfinished(FileAge::Unknown, Some(false)),
        filesystem::unfinished(FileAge::Unreadable, Some(false)),
{
}

/// To give a path an inode changes no other path's inode. Another path loses its inode only
/// where the table is full and the path is new, and then it is the path of the inode that was
/// not used for longest.
pub proof fn other_paths_keep_their_inodes(v: InodeView, t: Seq<char>, other: Seq<char>)
    requires
        v.wf(),
        v.room_for(t),
        path::parts(other) != path::parts(t),
        v.inodes.dom().contains(path::key(other)),
    ensures
        ({
            let after = v.assigned(t);
            let ino = v.inodes[path::key(other)];
            ||| after.inodes.dom().contains(path::key(other)) && after.inode_for(other) == ino
                && v.inode_for(other) == ino
            ||| {
                &&& !v.inodes.dom().contains(path::key(t))
                &&& v.paths.keys.len() == v.paths.limit
                &&& path::parts(v.paths.values[v.paths.keys.last()]) == path::parts(other)
            }
        }),
        v.inodes.dom().contains(path::key(t)) ==> v.assigned(t).next == v.next,
        !v.inodes.dom().contains(path::key(t)) ==> v.assigned(t).next == v.next + 1,
{
    path::key_identifies_path(other, t);
    path::key_identifies_path(v.paths.values[v.paths.keys.last()], other);
}

/// A renamed path hands its inode over, and no other path's inode changes but that of the path
/// it takes the place of.
pub proof fn renaming_moves_one_inode(v: InodeView, from: Seq<char>, to: Seq<char>, other: Seq<char>)
    requires
        v.wf(),
        path::parts(from) != path::parts(to),
        path::parts(other) != path::parts(from),
        path::parts(other) != path::parts(to),
    ensures
        ({
            let after = v.renamed(from, to);
            &&& after.inodes.dom().contains(path::key(other)) <==> v.inodes.dom().contains(
                path::key(other),
            )
            &&& v.inodes.dom().contains(path::key(other)) ==> after.inodes[path::key(other)]
                == v.inodes[path::key(other)]
            &&& v.inodes.dom().contains(path::key(from)) ==> {
                &&& after.inodes.dom().contains(path::key(to))
                &&& after.inodes[path::key(to)] == v.inodes[path::key(from)]
                &&& !after.inodes.dom().contains(path::key(from))
            }
            &&& !v.inodes.dom().contains(path::key(from)) ==> after == v
        }),
{
    path::key_identifies_path(other, from);
    path::key_identifies_path(other, to);
    path::key_identifies_path(from, to);
}

} // verus!
