use rargate::config::Config;
use rargate::config::FuseOptions;
use rargate::config::Rar2fsConfig;
use rargate::filesystem::creation_permissions;
use rargate::filesystem::is_listed_in_sfv;
use rargate::filesystem::kind_of;
use rargate::filesystem::page_start;
use rargate::filesystem::source_set_incomplete;
use rargate::filesystem::Errno;
use rargate::filesystem::InodeTable;
use rargate::filesystem::Kind;
use rargate::filesystem::ProtectionProbe;
use rargate::filesystem::RarGateFs;
use rargate::filesystem::RawEntry;
use rargate::filesystem::DEFAULT_INODE_CACHE_SIZE;
use rargate::path::PathName;
use rargate::sfv::FileAge;

fn settings() -> Config {
    Config {
        source: PathName::new("/src"),
        mountpoint: PathName::new("/mnt"),
        verbose: None,
        daemon: false,
        read_only: None,
        no_delete: Some(false),
        rar2fs: Rar2fsConfig {
            binary_path: None,
            backend_mount: None,
            seek_length: None,
            extra_options: None,
            max_concurrent_reads: None,
        },
        sfv_validation: None,
        filters: None,
        overlay_reference: None,
        unionfs_reference: None,
        notifications: None,
        crash_recovery: None,
        watcher: None,
        emby: None,
        jellyfin: None,
        plex: None,
        arr: None,
        fuse_options: None,
        logging: None,
        metrics: None,
        core_dumps: None,
    }
}

fn mount(c: &Config) -> RarGateFs {
    RarGateFs::new(PathName::new("/back"), PathName::new("/src"), c)
}

fn plain() -> ProtectionProbe {
    ProtectionProbe { source_exists: true, backend_exists: true, sfv_content: None }
}

fn extracted() -> ProtectionProbe {
    ProtectionProbe { source_exists: false, backend_exists: true, sfv_content: None }
}

fn entry(name: &str, kind: Option<Kind>) -> RawEntry {
    RawEntry { name: name.to_string(), incomplete: false, kind, passes: true }
}

#[test]
fn the_root_is_inode_one() {
    let t = InodeTable::new();
    assert_eq!(t.get_path_from_inode(1).unwrap().as_str(), "/");
    assert!(t.get_path_from_inode(2).is_none());
    assert_eq!(t.next_inode(), 2);
}

#[test]
fn inodes_are_stable_and_distinct() {
    let mut t = InodeTable::new();
    let a = t.get_or_create_inode(PathName::new("/a"));
    let b = t.get_or_create_inode(PathName::new("/b"));
    assert_eq!((a, b), (2, 3));
    assert_eq!(t.get_or_create_inode(PathName::new("//a/")), a);
    assert_eq!(t.get_or_create_inode(PathName::new("/")), 1);
    assert_eq!(t.get_path_from_inode(b).unwrap().as_str(), "/b");
}

#[test]
fn a_rename_moves_the_inode() {
    let mut t = InodeTable::new();
    let a = t.get_or_create_inode(PathName::new("/a"));
    t.rename(&PathName::new("/a"), PathName::new("/c"));
    assert_eq!(t.get_path_from_inode(a).unwrap().as_str(), "/c");
    assert_eq!(t.get_or_create_inode(PathName::new("/c")), a);
    assert_eq!(t.get_or_create_inode(PathName::new("/a")), 3);
    t.rename(&PathName::new("/unknown"), PathName::new("/x"));
    assert_eq!(t.get_or_create_inode(PathName::new("/x")), 4);
}

#[test]
fn the_inode_that_was_not_used_for_longest_leaves() {
    let mut t = InodeTable::new();
    let first = t.get_or_create_inode(PathName::new("/first"));
    for i in 0..(DEFAULT_INODE_CACHE_SIZE - 2) {
        t.get_or_create_inode(PathName::new(&format!("/f{i}")));
    }
    assert_eq!(t.get_or_create_inode(PathName::new("/first")), first);
    t.get_or_create_inode(PathName::new("/one.more"));
    assert!(t.get_path_from_inode(1).is_none());
    assert!(t.get_path_from_inode(first).is_some());
    t.get_or_create_inode(PathName::new("/two.more"));
    assert!(t.get_path_from_inode(3).is_none());
    let next = t.next_inode();
    assert_eq!(t.get_or_create_inode(PathName::new("/f0")), next);
    assert!(t.get_path_from_inode(3).is_none());
}

#[test]
fn paths_lie_below_both_roots() {
    let fs = mount(&settings());
    assert_eq!(fs.backend_path(&PathName::new("/a/b")).as_str(), "/back/a/b");
    assert_eq!(fs.source_path(&PathName::new("a")).as_str(), "/src/a");
    assert_eq!(fs.source_path(&PathName::new("/")).as_str(), "/src/");
}

#[test]
fn attributes_of_files() {
    let mut c = settings();
    let fs = mount(&c);
    let a = fs.build_file_attr(7, 1025, Kind::RegularFile, None);
    assert_eq!((a.ino, a.size, a.blocks), (7, 1025, 3));
    assert_eq!((a.perm, a.nlink), (0o777, 1));
    assert_eq!((a.uid, a.gid, a.blksize), (99, 100, 4096));
    let d = fs.build_file_attr(8, 1024, Kind::Directory, Some(0o700));
    assert_eq!((d.blocks, d.perm, d.nlink), (2, 0o700, 2));
    assert_eq!(fs.build_file_attr(9, 0, Kind::Symlink, None).blocks, 0);
    assert_eq!(fs.build_file_attr(9, u64::MAX, Kind::Symlink, None).blocks, 1 << 55);
    c.fuse_options = Some(FuseOptions {
        fsname: None,
        auto_unmount: None,
        allow_other: None,
        allow_root: None,
        default_permissions: None,
        ro: None,
        nonempty: None,
        attr_timeout: None,
        entry_timeout: None,
        permissions: Some(0o755),
        custom_options: None,
    });
    assert_eq!(mount(&c).build_file_attr(1, 0, Kind::Directory, None).perm, 0o755);
    assert_eq!(creation_permissions(0o100644), 0o644);
    assert_eq!(creation_permissions(0o107777), 0o7777);
    assert_eq!(kind_of(true, true), Kind::Directory);
    assert_eq!(kind_of(false, true), Kind::Symlink);
    assert_eq!(kind_of(false, false), Kind::RegularFile);
}

#[test]
fn deletions_are_refused_in_this_order() {
    let mut c = settings();
    let fs = mount(&c);
    assert_eq!(fs.check_delete_allowed(1, "a", &plain()).unwrap().as_str(), "/src/a");
    assert_eq!(fs.check_delete_allowed(9, "a", &plain()).err(), Some(Errno::NoEntry));
    assert_eq!(fs.check_delete_allowed(1, "a.mkv", &extracted()).err(), Some(Errno::ReadOnly));
    assert!(fs.check_delete_allowed(1, "a.txt", &extracted()).is_ok());
    c.no_delete = None;
    assert_eq!(mount(&c).check_delete_allowed(9, "a", &plain()).err(), Some(Errno::NotPermitted));
    c.read_only = Some(true);
    assert_eq!(mount(&c).check_delete_allowed(9, "a", &plain()).err(), Some(Errno::ReadOnly));
}

#[test]
fn release_files_may_be_deleted_but_not_changed() {
    let mut fs = mount(&settings());
    let ino = fs.inodes.get_or_create_inode(PathName::new("/rel/a.r00"));
    let probe = ProtectionProbe {
        source_exists: true,
        backend_exists: true,
        sfv_content: Some("; x\nA.R00 12345678\n".to_string()),
    };
    assert_eq!(fs.check_write_allowed(ino, &probe).err(), Some(Errno::ReadOnly));
    let dir = fs.inodes.get_or_create_inode(PathName::new("/rel"));
    assert!(fs.check_delete_allowed(dir, "a.r00", &probe).is_ok());
    assert_eq!(
        fs.check_rename_allowed(dir, "a.r00", dir, "b", &probe).err(),
        Some(Errno::ReadOnly)
    );
}

#[test]
fn companion_files_stay_writable() {
    let mut fs = mount(&settings());
    let ino = fs.inodes.get_or_create_inode(PathName::new("/rel/a.srt"));
    let probe = ProtectionProbe {
        source_exists: true,
        backend_exists: true,
        sfv_content: Some("a.r00 12345678\n".to_string()),
    };
    assert_eq!(fs.check_write_allowed(ino, &probe).unwrap().as_str(), "/src/rel/a.srt");
    assert_eq!(fs.check_write_allowed(99, &probe).err(), Some(Errno::NoEntry));
    assert!(!fs.is_write_protected(&PathName::new("/rel/a.srt"), &probe));
    assert!(fs.is_write_protected(&PathName::new("/rel/a.avi"), &extracted()));
}

#[test]
fn new_files_are_welcome_unless_read_only() {
    let mut c = settings();
    assert_eq!(mount(&c).check_create_allowed(1, "new").unwrap().as_str(), "/new");
    assert_eq!(mount(&c).check_create_allowed(5, "new").err(), Some(Errno::NoEntry));
    c.read_only = Some(true);
    assert_eq!(mount(&c).check_create_allowed(1, "new").err(), Some(Errno::ReadOnly));
    assert_eq!(
        mount(&c).check_rename_allowed(1, "a", 1, "b", &plain()).err(),
        Some(Errno::ReadOnly)
    );
    assert_eq!(mount(&c).check_write_allowed(1, &plain()).err(), Some(Errno::ReadOnly));
}

#[test]
fn renames_need_both_directories() {
    let fs = mount(&settings());
    let (from, to) = fs.check_rename_allowed(1, "a", 1, "b", &plain()).unwrap();
    assert_eq!((from.as_str(), to.as_str()), ("/a", "/b"));
    assert_eq!(fs.check_rename_allowed(1, "a", 7, "b", &plain()).err(), Some(Errno::NoEntry));
    assert_eq!(fs.check_rename_allowed(7, "a", 1, "b", &plain()).err(), Some(Errno::NoEntry));
}

#[test]
fn names_in_an_sfv_file() {
    let sfv = Some("A File.mkv 1234\n;b.r00 1\n".to_string());
    assert!(is_listed_in_sfv(&PathName::new("/x/a file.MKV"), &sfv));
    assert!(!is_listed_in_sfv(&PathName::new("/x/b.r00"), &sfv));
    assert!(!is_listed_in_sfv(&PathName::new("/"), &sfv));
    assert!(!is_listed_in_sfv(&PathName::new("/x/a file.mkv"), &None));
}

#[test]
fn unfinished_downloads() {
    assert!(source_set_incomplete(FileAge::Seconds(119), Some(false)));
    assert!(!source_set_incomplete(FileAge::Seconds(120), Some(false)));
    assert!(!source_set_incomplete(FileAge::Seconds(1), Some(true)));
    assert!(!source_set_incomplete(FileAge::Seconds(1), None));
    assert!(source_set_incomplete(FileAge::Unreadable, Some(false)));
    assert!(source_set_incomplete(FileAge::Unknown, Some(false)));
}

#[test]
fn handles_skip_zero() {
    let mut fs = mount(&settings());
    assert_eq!(fs.allocate_handle(), 1);
    assert_eq!(fs.allocate_handle(), 2);
    fs.next_fh = u64::MAX;
    assert_eq!(fs.allocate_handle(), u64::MAX);
    assert_eq!(fs.allocate_handle(), 1);
}

#[test]
fn lookups_of_hidden_and_unfinished_entries_fail() {
    let fs = mount(&settings());
    assert_eq!(fs.check_lookup(1, "a.mkv", None, true, false).unwrap().as_str(), "/a.mkv");
    assert_eq!(fs.check_lookup(1, "a.mkv", None, true, true).err(), Some(Errno::NoEntry));
    assert_eq!(fs.check_lookup(5, "a.mkv", None, true, false).err(), Some(Errno::NoEntry));
}

#[test]
fn listings_start_with_dots_and_skip_what_is_hidden() {
    let mut fs = mount(&settings());
    let entries = vec![
        entry("dir", Some(Kind::Directory)),
        RawEntry {
            name: "loading".to_string(),
            incomplete: true,
            kind: Some(Kind::Directory),
            passes: true,
        },
        entry("odd", None),
        entry("f.mkv", Some(Kind::RegularFile)),
    ];
    let l = fs.list_directory(&PathName::new("/"), &entries, None, true);
    let seen: Vec<(u64, Kind, &str)> = l.iter().map(|i| (i.ino, i.kind, i.name.as_str())).collect();
    assert_eq!(
        seen,
        vec![
            (1, Kind::Directory, "."),
            (1, Kind::Directory, ".."),
            (2, Kind::Directory, "dir"),
            (3, Kind::RegularFile, "f.mkv"),
        ]
    );
    assert_eq!(fs.inodes.get_path_from_inode(3).unwrap().as_str(), "/f.mkv");
    let again = fs.list_directory(&PathName::new("/"), &entries, None, true);
    assert_eq!(again[3].ino, 3);
}

#[test]
fn listings_go_on_where_they_stopped() {
    assert_eq!(page_start(0, 5), 0);
    assert_eq!(page_start(3, 5), 3);
    assert_eq!(page_start(9, 5), 5);
    assert_eq!(page_start(-1, 5), 5);
}
