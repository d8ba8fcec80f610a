//! What is decided before the mount: whether everything needed is there, which logs are
//! written, and how to mount.

use crate::backend::RAR2FS_LOG_PATH;
use crate::config::Config;
use crate::config::FuseOptions;
use crate::monitoring::RAR2FS_RESOURCES_LOG;
use crate::path::PathName;
use crate::text;
use vstd::prelude::*;
use vstd::string::*;

verus! {

broadcast use vstd::string::group_string_axioms;

/// What was found of the things that are needed.
#[derive(Debug)]
pub struct DependencyProbe {
    pub binary_exists: bool,
    pub fuse_exists: bool,
    /// Running as root.
    pub root: bool,
    /// The settings of FUSE, where they can be read.
    pub fuse_conf: Option<String>,
    /// rar2fs could be run.
    pub executable: bool,
}

/// What is missing.
#[derive(Debug, Clone, Copy, PartialEq, Eq, Structural)]
pub enum DependencyFault {
    NoBinary,
    NoFuse,
    NotExecutable,
}

/// The text of a fault.
pub open spec fn fault_text(f: DependencyFault) -> Seq<char> {
    match f {
        DependencyFault::NoBinary => "rar2fs not installed"@,
        DependencyFault::NoFuse => "FUSE module not loaded"@,
        DependencyFault::NotExecutable => "rar2fs not executable"@,
    }
}

impl DependencyFault {
    pub fn text(&self) -> (r: &'static str)
        ensures
            r@ == fault_text(*self),
    {
        match self {
            DependencyFault::NoBinary => "rar2fs not installed",
            DependencyFault::NoFuse => "FUSE module not loaded",
            DependencyFault::NotExecutable => "rar2fs not executable",
        }
    }
}

/// A line that lets users mount for others.
pub open spec fn allows_other(line: Seq<char>) -> bool {
    let l = text::trim(line);
    l == "user_allow_other"@ || text::starts(l, "user_allow_other "@)
}

/// One of the lines lets users mount for others.
pub open spec fn users_may_allow_other(content: Seq<char>) -> bool {
    let ls = text::lines(content);
    exists|i: int| 0 <= i < ls.len() && allows_other(#[trigger] ls[i])
}

/// Tests whether the settings of FUSE let users mount for others.
pub fn user_allow_other_set(content: &str) -> (r: bool)
    ensures
        r == users_may_allow_other(content@),
{
    let t = text::chars_of(content);
    let ls = text::lines_of(&t);
    let ghost all = text::lines(content@);
    let whole = text::chars_of("user_allow_other");
    let start = text::chars_of("user_allow_other ");
    proof {
        assert(text::rows(ls@).len() == ls@.len());
    }
    let mut i: usize = 0;
    while i < ls.len()
        invariant
            i <= ls@.len(),
            all == text::lines(content@),
            text::rows(ls@) == all,
            text::rows(ls@).len() == ls@.len(),
            whole@ == "user_allow_other"@,
            start@ == "user_allow_other "@,
            forall|j: int| 0 <= j < i ==> !allows_other(#[trigger] all[j]),
        decreases ls@.len() - i,
    {
        proof {
            assert(all[i as int] == ls@[i as int]@);
        }
        let l = text::trimmed(&ls[i]);
        if text::same_chars(&l, &whole) || text::starts_with(&l, &start) {
            return true;
        }
        i += 1;
    }
    false
}

/// The mount is meant for other users too; the default here is yes.
pub open spec fn meant_for_others(o: Option<FuseOptions>) -> bool {
    match o {
        Some(o) => o.allow_other != Some(false),
        None => true,
    }
}

/// The mount may fail, since it is meant for other users and FUSE does not let users mount for
/// others.
pub open spec fn mount_may_fail(config: Config, probe: DependencyProbe) -> bool {
    meant_for_others(config.fuse_options) && !probe.root && (probe.fuse_conf matches Some(c)
        && !users_may_allow_other(c@))
}

/// Tests that what is needed is there, and whether to warn that the mount may fail. The
/// warning stands before the last test, so it is due also where rar2fs cannot be run.
pub fn validate_dependencies(config: &Config, probe: &DependencyProbe) -> (r: (
    bool,
    Result<(), DependencyFault>,
))
    ensures
        r.0 == (probe.binary_exists && probe.fuse_exists && mount_may_fail(*config, *probe)),
        r.1 == (if !probe.binary_exists {
            Err::<(), DependencyFault>(DependencyFault::NoBinary)
        } else if !probe.fuse_exists {
            Err(DependencyFault::NoFuse)
        } else if !probe.executable {
            Err(DependencyFault::NotExecutable)
        } else {
            Ok(())
        }),
{
    if !probe.binary_exists {
        return (false, Err(DependencyFault::NoBinary));
    }
    if !probe.fuse_exists {
        return (false, Err(DependencyFault::NoFuse));
    }
    let allow_other = match &config.fuse_options {
        Some(o) => match o.allow_other {
            Some(b) => b,
            None => true,
        },
        None => true,
    };
    let warn = match &probe.fuse_conf {
        Some(c) => allow_other && !probe.root && !user_allow_other_set(c.as_str()),
        None => false,
    };
    if !probe.executable {
        return (warn, Err(DependencyFault::NotExecutable));
    }
    (warn, Ok(()))
}

/// A switch that is on unless it is turned off.
pub open spec fn on(b: Option<bool>) -> bool {
    b != Some(false)
}

fn is_on(b: Option<bool>) -> (r: bool)
    ensures
        r == on(b),
{
    match b {
        Some(b) => b,
        None => true,
    }
}

/// A setting, or its default.
pub open spec fn or_u64(n: Option<u64>, default: u64) -> u64 {
    match n {
        Some(n) => n,
        None => default,
    }
}

fn u64_or(n: Option<u64>, default: u64) -> (r: u64)
    ensures
        r == or_u64(n, default),
{
    match n {
        Some(n) => n,
        None => default,
    }
}

/// Which logs about rar2fs are written, where, and how large they may grow.
#[derive(Debug)]
pub struct Diagnostics {
    pub log_enabled: bool,
    pub log_path: PathName,
    pub log_max_mb: u64,
    pub resources_enabled: bool,
    pub resources_path: PathName,
    pub resources_max_mb: u64,
    pub resource_interval: u64,
}

/// Finds the settings of the logs about rar2fs. The master switch turns both off.
pub fn diagnostics(config: &Config) -> (r: Diagnostics)
    ensures
        match config.logging {
            Some(l) => {
                &&& r.log_enabled == (on(l.rar2fs_diagnostics_enabled) && on(l.rar2fs_log_enabled))
                &&& r.log_path@ == (match l.rar2fs_log_file {
                    Some(p) => p@,
                    None => RAR2FS_LOG_PATH@,
                })
                &&& r.log_max_mb == or_u64(l.rar2fs_log_max_size_mb, 50)
                &&& r.resources_enabled == (on(l.rar2fs_diagnostics_enabled) && on(
                    l.rar2fs_resources_enabled,
                ))
                &&& r.resources_path@ == (match l.rar2fs_resources_log_file {
                    Some(p) => p@,
                    None => RAR2FS_RESOURCES_LOG@,
                })
                &&& r.resources_max_mb == or_u64(l.rar2fs_resources_log_max_size_mb, 20)
                &&& r.resource_interval == or_u64(l.rar2fs_resource_interval_seconds, 300)
            },
            None => {
                &&& r.log_enabled
                &&& r.log_path@ == RAR2FS_LOG_PATH@
                &&& r.log_max_mb == 50
                &&& r.resources_enabled
                &&& r.resources_path@ == RAR2FS_RESOURCES_LOG@
                &&& r.resources_max_mb == 20
                &&& r.resource_interval == 300
            },
        },
{
    match &config.logging {
        Some(l) => {
            let master = is_on(l.rar2fs_diagnostics_enabled);
            Diagnostics {
                log_enabled: master && is_on(l.rar2fs_log_enabled),
                log_path: match &l.rar2fs_log_file {
                    Some(p) => p.clone(),
                    None => PathName::new(RAR2FS_LOG_PATH),
                },
                log_max_mb: u64_or(l.rar2fs_log_max_size_mb, 50),
                resources_enabled: master && is_on(l.rar2fs_resources_enabled),
                resources_path: match &l.rar2fs_resources_log_file {
                    Some(p) => p.clone(),
                    None => PathName::new(RAR2FS_RESOURCES_LOG),
                },
                resources_max_mb: u64_or(l.rar2fs_resources_log_max_size_mb, 20),
                resource_interval: u64_or(l.rar2fs_resource_interval_seconds, 300),
            }
        },
        None => Diagnostics {
            log_enabled: true,
            log_path: PathName::new(RAR2FS_LOG_PATH),
            log_max_mb: 50,
            resources_enabled: true,
            resources_path: PathName::new(RAR2FS_RESOURCES_LOG),
            resources_max_mb: 20,
            resource_interval: 300,
        },
    }
}

/// Debug lines are logged: asked for on the command line or in the configuration.
pub fn debug_enabled(asked: bool, config: &Config) -> (r: bool)
    ensures
        r == (asked || config.verbose == Some(true)),
{
    match config.verbose {
        Some(v) => asked || v,
        None => asked,
    }
}

/// How many megabytes the log may hold.
pub fn max_log_size_mb(config: &Config) -> (r: u64)
    ensures
        r == (match config.logging {
            Some(l) => or_u64(l.max_size_mb, 500),
            None => 500,
        }),
{
    match &config.logging {
        Some(l) => u64_or(l.max_size_mb, 500),
        None => 500,
    }
}

/// The mounts are watched.
pub fn monitor_wanted(config: &Config) -> (r: bool)
    ensures
        r == (config.notifications matches Some(n) && n.enabled),
{
    match &config.notifications {
        Some(n) => n.enabled,
        None => false,
    }
}

/// The layers of the overlay are watched for changes.
pub fn watcher_wanted(config: &Config) -> (r: bool)
    ensures
        r == (config.overlay_reference matches Some(o) && o.use_for_filtering == Some(true)),
{
    match &config.overlay_reference {
        Some(o) => match o.use_for_filtering {
            Some(b) => b,
            None => false,
        },
        None => false,
    }
}

/// How many walks over the backend may run at once.
pub fn permits(config: &Config) -> (r: usize)
    ensures
        r == (match config.rar2fs.max_concurrent_reads {
            Some(n) => n,
            None => 4,
        }),
{
    match config.rar2fs.max_concurrent_reads {
        Some(n) => n,
        None => 4,
    }
}

/// An option of the mount.
#[derive(Debug)]
pub enum MountOption {
    FsName(String),
    AutoUnmount,
    AllowOther,
    AllowRoot,
    DefaultPermissions,
    ReadOnly,
    ReadWrite,
    Custom(String),
}

/// An option of the mount, with its text as a sequence.
pub enum MountOptionView {
    FsName(Seq<char>),
    AutoUnmount,
    AllowOther,
    AllowRoot,
    DefaultPermissions,
    ReadOnly,
    ReadWrite,
    Custom(Seq<char>),
}

impl View for MountOption {
    type V = MountOptionView;

    open spec fn view(&self) -> MountOptionView {
        match self {
            MountOption::FsName(n) => MountOptionView::FsName(n@),
            MountOption::AutoUnmount => MountOptionView::AutoUnmount,
            MountOption::AllowOther => MountOptionView::AllowOther,
            MountOption::AllowRoot => MountOptionView::AllowRoot,
            MountOption::DefaultPermissions => MountOptionView::DefaultPermissions,
            MountOption::ReadOnly => MountOptionView::ReadOnly,
            MountOption::ReadWrite => MountOptionView::ReadWrite,
            MountOption::Custom(o) => MountOptionView::Custom(o@),
        }
    }
}

pub open spec fn option_views(v: Seq<MountOption>) -> Seq<MountOptionView> {
    Seq::new(v.len(), |i: int| v[i]@)
}

/// An option, where it is wanted.
pub open spec fn given(wanted: bool, o: MountOptionView) -> Seq<MountOptionView> {
    if wanted {
        seq![o]
    } else {
        Seq::empty()
    }
}

fn push_given(v: &mut Vec<MountOption>, wanted: bool, o: MountOption)
    ensures
        option_views(final(v)@) == option_views(old(v)@) + given(wanted, o@),
{
    let ghost before = option_views(v@);
    if wanted {
        v.push(o);
    }
    proof {
        assert(option_views(v@) =~= before + given(wanted, o@));
    }
}

fn flag(b: Option<bool>) -> (r: bool)
    ensures
        r == (b == Some(true)),
{
    match b {
        Some(b) => b,
        None => false,
    }
}

pub open spec fn customs(v: Seq<Seq<char>>) -> Seq<MountOptionView> {
    Seq::new(v.len(), |i: int| MountOptionView::Custom(v[i]))
}

/// The options that a configuration sets: no other ones are used.
pub open spec fn options_set(o: FuseOptions) -> Seq<MountOptionView> {
    (match o.fsname {
        Some(n) => seq![MountOptionView::FsName(n@)],
        None => Seq::empty(),
    }) + given(o.auto_unmount == Some(true), MountOptionView::AutoUnmount) + given(
        o.allow_other == Some(true),
        MountOptionView::AllowOther,
    ) + given(o.allow_root == Some(true), MountOptionView::AllowRoot) + given(
        o.default_permissions == Some(true),
        MountOptionView::DefaultPermissions,
    ) + given(
        true,
        if o.ro == Some(true) {
            MountOptionView::ReadOnly
        } else {
            MountOptionView::ReadWrite
        },
    ) + given(o.nonempty == Some(true), MountOptionView::Custom("nonempty"@)) + (
    match o.custom_options {
        Some(c) => customs(text::views(c@)),
        None => Seq::empty(),
    })
}

/// Finds the options of the mount.
pub fn mount_options(fuse_options: &Option<FuseOptions>) -> (r: Vec<MountOption>)
    ensures
        option_views(r@) == (match fuse_options {
            Some(o) => options_set(*o),
            None => Seq::empty(),
        }),
{
    let mut r: Vec<MountOption> = Vec::new();
    proof {
        assert(option_views(r@) =~= Seq::<MountOptionView>::empty());
    }
    match fuse_options {
        None => r,
        Some(o) => {
            if let Some(n) = &o.fsname {
                r.push(MountOption::FsName(n.clone()));
                proof {
                    assert(option_views(r@) =~= seq![MountOptionView::FsName(n@)]);
                }
            }
            push_given(&mut r, flag(o.auto_unmount), MountOption::AutoUnmount);
            push_given(&mut r, flag(o.allow_other), MountOption::AllowOther);
            push_given(&mut r, flag(o.allow_root), MountOption::AllowRoot);
            push_given(&mut r, flag(o.default_permissions), MountOption::DefaultPermissions);
            push_given(
                &mut r,
                true,
                if flag(o.ro) {
                    MountOption::ReadOnly
                } else {
                    MountOption::ReadWrite
                },
            );
            push_given(&mut r, flag(o.nonempty), MountOption::Custom("nonempty".to_owned()));
            let ghost before = option_views(r@);
            if let Some(c) = &o.custom_options {
                let ghost all = customs(text::views(c@));
                let mut i: usize = 0;
                proof {
                    assert(before + all.take(0) =~= before);
                }
                while i < c.len()
                    invariant
                        i <= c@.len(),
                        all == customs(text::views(c@)),
                        all.len() == c@.len(),
                        option_views(r@) == before + all.take(i as int),
                    decreases c@.len() - i,
                {
                    push_given(&mut r, true, MountOption::Custom(c[i].clone()));
                    proof {
                        assert(all[i as int] == MountOptionView::Custom(c@[i as int]@));
                        assert(before + all.take(i as int) + given(true, all[i as int]) =~= before
                            + all.take(i + 1));
                    }
                    i += 1;
                }
                proof {
                    assert(all.take(i as int) =~= all);
                }
            } else {
                proof {
                    assert(before + Seq::<MountOptionView>::empty() =~= before);
                }
            }
            r
        },
    }
}

} // verus!
