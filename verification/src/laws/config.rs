//! Which configurations are accepted.

use crate::config;
use crate::config::Config;
use crate::config::ConfigFault;
use crate::config::ConfigProbe;
use crate::config::Findings;
use crate::config::Notice;
use crate::config::PermissionFault;
use crate::laws;
use crate::path;
use crate::text;
use vstd::prelude::*;

verus! {

/// What the file system says of the paths is in order.
pub open spec fn paths_in_order(p: ConfigProbe) -> bool {
    &&& p.source_exists
    &&& p.mountpoint_exists
    &&& match (p.source_real, p.mountpoint_real) {
        (Some(s), Some(m)) => path::parts(s@) != path::parts(m@),
        (None, None) => false,
        _ => true,
    }
    &&& p.mounted == Some(false)
}

/// An address and a token are there, and the address is one that can be called.
pub open spec fn reachable(url: Seq<char>, token: Seq<char>) -> bool {
    url.len() > 0 && token.len() > 0 && config::url_fault(url) is None
}

/// Nothing in the configuration is a fault.
pub open spec fn faultless(c: Config, p: ConfigProbe) -> bool {
    &&& paths_in_order(p)
    &&& c.sfv_validation matches Some(s) ==> (s.enabled ==> s.default_mode@ == "strict"@
        || s.default_mode@ == "permissive"@)
    &&& c.rar2fs.backend_mount is Some ==> p.backend_exists
    &&& c.rar2fs.max_concurrent_reads != Some(0usize)
    &&& c.fuse_options matches Some(f) ==> (f.attr_timeout matches Some(t) ==> !t.negative) && (
    f.entry_timeout matches Some(t) ==> !t.negative)
    &&& c.emby matches Some(e) ==> (e.enabled ==> reachable(e.url@, e.api_token@))
    &&& c.jellyfin matches Some(j) ==> (j.enabled ==> reachable(j.url@, j.api_token@))
    &&& c.plex matches Some(x) ==> (x.enabled ==> reachable(x.url@, x.token@))
}

/// A configuration is accepted exactly where nothing in it is a fault; warnings never refuse
/// it.
pub proof fn faultless_configurations_are_accepted(c: Config, p: ConfigProbe)
    ensures
        c.findings(p).fault is None <==> faultless(c, p),
{
    assert(p.mounted is None || p.mounted == Some(true) || p.mounted == Some(false)) by {
        if let Some(m) = p.mounted {
            assert(m == true || m == false);
        }
    }
    assert(config::path_findings(p).fault is None <==> paths_in_order(p));
    assert(config::sfv_findings(c.sfv_validation).fault is None <==> (
    c.sfv_validation matches Some(s) ==> (s.enabled ==> s.default_mode@ == "strict"@
        || s.default_mode@ == "permissive"@)));
    assert(config::overlay_findings(c.overlay_reference, p).fault is None);
    assert(config::unionfs_findings(c.unionfs_reference, p).fault is None);
    assert(c.layer_findings(p).fault is None <==> paths_in_order(p) && config::sfv_findings(
        c.sfv_validation,
    ).fault is None);
    assert(config::rar2fs_findings(c.rar2fs, p).fault is None <==> (c.rar2fs.backend_mount is Some
        ==> p.backend_exists) && c.rar2fs.max_concurrent_reads != Some(0usize));
    assert(config::archive_findings(c.filters).fault is None);
    assert(config::monitoring_findings(c.notifications).fault is None);
    assert(config::permission_findings(c.fuse_options).fault is None);
}

/// Faults of the paths come before all others, the source before the mountpoint.
pub proof fn faults_of_paths_come_first(c: Config, p: ConfigProbe)
    ensures
        !p.source_exists ==> c.findings(p).fault == Some(ConfigFault::SourceMissing),
        p.source_exists && !p.mountpoint_exists ==> c.findings(p).fault == Some(
            ConfigFault::MountpointMissing,
        ),
        p.source_exists && p.mountpoint_exists && p.source_real is None && p.mountpoint_real
            is None ==> c.findings(p).fault == Some(ConfigFault::SameDirectory),
        p.source_exists && p.mountpoint_exists ==> (p.source_real matches Some(s) ==> (
        p.mountpoint_real matches Some(m) ==> (path::parts(s@) == path::parts(m@) ==> c.findings(
            p,
        ).fault == Some(ConfigFault::SameDirectory)))),
        p.source_exists && p.mountpoint_exists && p.source_real is Some && p.mountpoint_real is None
            && p.mounted is None ==> c.findings(p).fault == Some(ConfigFault::MountCheckFailed),
        p.source_exists && p.mountpoint_exists && p.source_real is Some && p.mountpoint_real is None
            && p.mounted == Some(true) ==> c.findings(p).fault == Some(ConfigFault::AlreadyMounted),
{
}

/// Each other fault is told as what it is, where it is the only one.
pub proof fn faults_are_told_apart(c: Config, p: ConfigProbe)
    requires
        paths_in_order(p),
        c.sfv_validation is None,
        c.fuse_options is None,
    ensures
        c.rar2fs.backend_mount is Some && !p.backend_exists ==> c.findings(p).fault == Some(
            ConfigFault::BackendMissing,
        ),
        p.backend_exists && c.rar2fs.max_concurrent_reads == Some(0usize) ==> c.findings(p).fault
            == Some(ConfigFault::NoConcurrentReads),
        p.backend_exists && c.rar2fs.max_concurrent_reads is None ==> {
            &&& c.emby matches Some(e) ==> (e.enabled ==> {
                &&& e.url@.len() == 0 ==> c.findings(p).fault == Some(ConfigFault::EmbyUrlEmpty)
                &&& e.url@.len() > 0 && e.api_token@.len() == 0 ==> c.findings(p).fault == Some(
                    ConfigFault::EmbyTokenEmpty,
                )
                &&& e.url@.len() > 0 && e.api_token@.len() > 0 && config::url_fault(e.url@) is Some
                    ==> c.findings(p).fault == Some(ConfigFault::EmbyUrlInvalid)
            })
            &&& c.emby is None ==> (c.jellyfin matches Some(j) ==> (j.enabled ==> {
                &&& j.url@.len() == 0 ==> c.findings(p).fault == Some(
                    ConfigFault::JellyfinUrlEmpty,
                )
                &&& j.url@.len() > 0 && j.api_token@.len() == 0 ==> c.findings(p).fault == Some(
                    ConfigFault::JellyfinTokenEmpty,
                )
                &&& j.url@.len() > 0 && j.api_token@.len() > 0 && config::url_fault(j.url@) is Some
                    ==> c.findings(p).fault == Some(ConfigFault::JellyfinUrlInvalid)
            }))
            &&& c.emby is None && c.jellyfin is None ==> (c.plex matches Some(x) ==> (x.enabled
                ==> {
                &&& x.url@.len() == 0 ==> c.findings(p).fault == Some(ConfigFault::PlexUrlEmpty)
                &&& x.url@.len() > 0 && x.token@.len() == 0 ==> c.findings(p).fault == Some(
                    ConfigFault::PlexTokenEmpty,
                )
                &&& x.url@.len() > 0 && x.token@.len() > 0 && config::url_fault(x.url@) is Some
                    ==> c.findings(p).fault == Some(ConfigFault::PlexUrlInvalid)
            }))
        },
{
}

/// The notice is among those of the findings.
pub open spec fn noticed(f: Findings, n: Notice) -> bool {
    exists|i: int| 0 <= i < f.notices.len() && #[trigger] f.notices[i] == n
}

proof fn noticed_in_either(a: Findings, b: Findings, n: Notice)
    ensures
        a.fault is None ==> (noticed(config::followed_by(a, b), n) <==> noticed(a, n) || noticed(
            b,
            n,
        )),
{
    let all = config::followed_by(a, b).notices;
    if a.fault is None {
        assert(all == a.notices + b.notices);
        if noticed(a, n) {
            let i = choose|i: int| 0 <= i < a.notices.len() && #[trigger] a.notices[i] == n;
            assert(all[i] == n);
        }
        if noticed(b, n) {
            let i = choose|i: int| 0 <= i < b.notices.len() && #[trigger] b.notices[i] == n;
            assert(all[a.notices.len() + i] == n);
        }
        if noticed(config::followed_by(a, b), n) {
            let i = choose|i: int| 0 <= i < all.len() && #[trigger] all[i] == n;
            if i < a.notices.len() {
                assert(a.notices[i] == n);
            } else {
                assert(b.notices[i - a.notices.len()] == n);
            }
        }
    }
}

proof fn noted_is_noticed(when: bool, m: Notice, n: Notice)
    ensures
        noticed(config::noted(when, m), n) <==> when && m == n,
        !noticed(config::clean(), n),
        forall|f: ConfigFault| !noticed(#[trigger] config::refused(when, f), n),
{
    if when {
        assert(config::noted(when, m).notices[0] == m);
    }
}

/// An overlap of two indicators is told, by their places, exactly where one contains the other.
pub proof fn overlaps_are_told(vs: Seq<Seq<char>>, us: Seq<Seq<char>>, n: nat, v: usize, u: usize)
    requires
        n <= vs.len() <= usize::MAX,
        us.len() <= usize::MAX,
    ensures
        config::overlaps(vs, us, n).contains(
            Notice::IndicatorOverlap { verified: v, unverified: u },
        ) <==> v < n && u < us.len() && (text::contains(vs[v as int], us[u as int])
            || text::contains(us[u as int], vs[v as int])),
    decreases n,
{
    let wanted = Notice::IndicatorOverlap { verified: v, unverified: u };
    if n > 0 {
        let before = config::overlaps(vs, us, (n - 1) as nat);
        let own = config::overlaps_with(vs, us, (n - 1) as nat, us.len());
        overlaps_are_told(vs, us, (n - 1) as nat, v, u);
        overlaps_of_one(vs, us, (n - 1) as nat, us.len(), v, u);
        let all = config::overlaps(vs, us, n);
        if before.contains(wanted) {
            let i = choose|i: int| 0 <= i < before.len() && before[i] == wanted;
            assert(all[i] == wanted);
        }
        if own.contains(wanted) {
            let i = choose|i: int| 0 <= i < own.len() && own[i] == wanted;
            assert(all[before.len() + i] == wanted);
        }
        if all.contains(wanted) {
            let i = choose|i: int| 0 <= i < all.len() && all[i] == wanted;
            if i < before.len() {
                assert(before[i] == wanted);
            } else {
                assert(own[i - before.len()] == wanted);
            }
        }
    }
}

proof fn overlaps_of_one(
    vs: Seq<Seq<char>>,
    us: Seq<Seq<char>>,
    i: nat,
    n: nat,
    v: usize,
    u: usize,
)
    requires
        i < vs.len() <= usize::MAX,
        n <= us.len() <= usize::MAX,
    ensures
        config::overlaps_with(vs, us, i, n).contains(
            Notice::IndicatorOverlap { verified: v, unverified: u },
        ) <==> v == i && u < n && (text::contains(vs[i as int], us[u as int]) || text::contains(
            us[u as int],
            vs[i as int],
        )),
    decreases n,
{
    let wanted = Notice::IndicatorOverlap { verified: v, unverified: u };
    if n > 0 {
        let before = config::overlaps_with(vs, us, i, (n - 1) as nat);
        let all = config::overlaps_with(vs, us, i, n);
        overlaps_of_one(vs, us, i, (n - 1) as nat, v, u);
        let own = Notice::IndicatorOverlap { verified: i as usize, unverified: (n - 1) as usize };
        if vs[i as int] == us[n - 1] {
            let t = vs[i as int];
            assert(t.subrange(0, (0 + t.len()) as int) =~= t);
            assert(text::contains(t, t));
        }
        if before.contains(wanted) {
            let j = choose|j: int| 0 <= j < before.len() && before[j] == wanted;
            assert(all[j] == wanted);
        }
        if config::overlapping(vs[i as int], us[n - 1]) {
            assert(all[before.len() as int] == own);
        }
        if all.contains(wanted) {
            let j = choose|j: int| 0 <= j < all.len() && all[j] == wanted;
            if j < before.len() {
                assert(before[j] == wanted);
            }
        }
    }
}

/// Warnings about the layers come exactly where the layers take part and one is missing.
pub proof fn missing_layers_are_told(c: Config, p: ConfigProbe)
    ensures
        noticed(
            config::overlay_findings(c.overlay_reference, p),
            Notice::OverlayVerifiedMissing,
        ) <==> (c.overlay_reference matches Some(o) && o.use_for_filtering == Some(true)
            && !p.overlay_verified_exists),
        noticed(
            config::overlay_findings(c.overlay_reference, p),
            Notice::OverlayUnverifiedMissing,
        ) <==> (c.overlay_reference matches Some(o) && o.use_for_filtering == Some(true)
            && !p.overlay_unverified_exists),
        noticed(
            config::unionfs_findings(c.unionfs_reference, p),
            Notice::UnionfsVerifiedMissing,
        ) <==> (c.unionfs_reference matches Some(u) && u.use_for_filtering == Some(true)
            && !p.unionfs_verified_exists),
        noticed(
            config::unionfs_findings(c.unionfs_reference, p),
            Notice::UnionfsUnverifiedMissing,
        ) <==> (c.unionfs_reference matches Some(u) && u.use_for_filtering == Some(true)
            && !p.unionfs_unverified_exists),
        noticed(
            config::unionfs_findings(c.unionfs_reference, p),
            Notice::UnionfsMergedMissing,
        ) <==> (c.unionfs_reference matches Some(u) && u.use_for_filtering == Some(true)
            && !p.unionfs_merged_exists),
{
    let a = config::noted(!p.overlay_verified_exists, Notice::OverlayVerifiedMissing);
    let b = config::noted(!p.overlay_unverified_exists, Notice::OverlayUnverifiedMissing);
    let x = config::noted(!p.unionfs_verified_exists, Notice::UnionfsVerifiedMissing);
    let y = config::noted(!p.unionfs_unverified_exists, Notice::UnionfsUnverifiedMissing);
    let z = config::noted(!p.unionfs_merged_exists, Notice::UnionfsMergedMissing);
    let xy = config::followed_by(x, y);
    noted_in_pair(a, b, p, Notice::OverlayVerifiedMissing);
    noted_in_pair(a, b, p, Notice::OverlayUnverifiedMissing);
    noted_in_pair(x, y, p, Notice::UnionfsVerifiedMissing);
    noted_in_pair(x, y, p, Notice::UnionfsUnverifiedMissing);
    noted_in_pair(x, y, p, Notice::UnionfsMergedMissing);
    noted_in_pair(xy, z, p, Notice::UnionfsVerifiedMissing);
    noted_in_pair(xy, z, p, Notice::UnionfsUnverifiedMissing);
    noted_in_pair(xy, z, p, Notice::UnionfsMergedMissing);
}

proof fn noted_in_pair(a: Findings, b: Findings, p: ConfigProbe, n: Notice)
    requires
        a.fault is None,
    ensures
        noticed(config::followed_by(a, b), n) <==> noticed(a, n) || noticed(b, n),
        noticed(config::noted(!p.overlay_verified_exists, Notice::OverlayVerifiedMissing), n)
            <==> !p.overlay_verified_exists && n == Notice::OverlayVerifiedMissing,
        noticed(config::noted(!p.overlay_unverified_exists, Notice::OverlayUnverifiedMissing), n)
            <==> !p.overlay_unverified_exists && n == Notice::OverlayUnverifiedMissing,
        noticed(config::noted(!p.unionfs_verified_exists, Notice::UnionfsVerifiedMissing), n)
            <==> !p.unionfs_verified_exists && n == Notice::UnionfsVerifiedMissing,
        noticed(config::noted(!p.unionfs_unverified_exists, Notice::UnionfsUnverifiedMissing), n)
            <==> !p.unionfs_unverified_exists && n == Notice::UnionfsUnverifiedMissing,
        noticed(config::noted(!p.unionfs_merged_exists, Notice::UnionfsMergedMissing), n)
            <==> !p.unionfs_merged_exists && n == Notice::UnionfsMergedMissing,
        !noticed(config::clean(), n),
{
    noticed_in_either(a, b, n);
    noted_is_noticed(!p.overlay_verified_exists, Notice::OverlayVerifiedMissing, n);
    noted_is_noticed(!p.overlay_unverified_exists, Notice::OverlayUnverifiedMissing, n);
    noted_is_noticed(!p.unionfs_verified_exists, Notice::UnionfsVerifiedMissing, n);
    noted_is_noticed(!p.unionfs_unverified_exists, Notice::UnionfsUnverifiedMissing, n);
    noted_is_noticed(!p.unionfs_merged_exists, Notice::UnionfsMergedMissing, n);
}

/// Each warning has its cause.
pub proof fn warnings_have_their_causes(c: Config, p: ConfigProbe, n: i32, secs: u64, perms: u16)
    requires
        faultless(c, p),
    ensures
        noticed(config::sfv_findings(c.sfv_validation), Notice::LazyModeWithoutSfv) <==> (
        c.sfv_validation matches Some(s) && !s.enabled && s.lazy_mode == Some(true)),
        noticed(config::sfv_findings(c.sfv_validation), Notice::NoShareIndicators) <==> (
        c.sfv_validation matches Some(s) && s.enabled && s.verified_share_indicators@.len() == 0
            && s.unverified_share_indicators@.len() == 0),
        noticed(config::rar2fs_findings(c.rar2fs, p), Notice::UnusualSeekLength(n)) <==> n != 0 && n
            != 1 && c.rar2fs.seek_length == Some(n),
        noticed(config::timeouts_findings(c.fuse_options), Notice::LongAttrTimeout) <==> (
        c.fuse_options matches Some(f) && f.attr_timeout matches Some(t) && t.over_a_day),
        noticed(config::timeouts_findings(c.fuse_options), Notice::LongEntryTimeout) <==> (
        c.fuse_options matches Some(f) && f.entry_timeout matches Some(t) && t.over_a_day),
        noticed(config::archive_findings(c.filters), Notice::HideArchivesWithoutRar) <==> (
        c.filters matches Some(f) && f.rar_archives matches Some(rar) && !rar.enabled
            && rar.hide_archives == Some(true)),
        noticed(config::monitoring_findings(c.notifications), Notice::ShortCheckInterval(secs))
            <==> (c.notifications matches Some(m) && m.enabled && m.check_interval == Some(secs)
            && secs < 30),
        noticed(config::emby_findings(c.emby), Notice::NoEmbyPathMapping) <==> (
        c.emby matches Some(e) && e.enabled && e.path_mapping is None),
        noticed(config::emby_findings(c.emby), Notice::ShortEmbyDebounce(0)) <==> (
        c.emby matches Some(e) && e.enabled && e.debounce_seconds == Some(0u64)),
        noticed(config::permission_findings(c.fuse_options), Notice::WorldWritable(perms)) <==> (
        c.fuse_options matches Some(f) && f.permissions == Some(perms) && perms & 0o002 != 0),
{
    warnings_about_content(c);
    warnings_about_the_backend(c, p, n);
    warnings_about_timeouts(c);
    warnings_about_services(c, secs, perms);
}

proof fn warnings_about_content(c: Config)
    requires
        config::sfv_findings(c.sfv_validation).fault is None,
    ensures
        noticed(config::sfv_findings(c.sfv_validation), Notice::LazyModeWithoutSfv) <==> (
        c.sfv_validation matches Some(s) && !s.enabled && s.lazy_mode == Some(true)),
        noticed(config::sfv_findings(c.sfv_validation), Notice::NoShareIndicators) <==> (
        c.sfv_validation matches Some(s) && s.enabled && s.verified_share_indicators@.len() == 0
            && s.unverified_share_indicators@.len() == 0),
{
    if let Some(s) = c.sfv_validation {
        let vs = text::views(s.verified_share_indicators@);
        let us = text::views(s.unverified_share_indicators@);
        let lone = vs.len() == 0 && us.len() == 0;
        let first = config::noted(lone, Notice::NoShareIndicators);
        let rest = Findings { notices: config::overlaps(vs, us, vs.len()), fault: None };
        let lazy = s.lazy_mode == Some(true);
        noted_is_noticed(lone, Notice::NoShareIndicators, Notice::NoShareIndicators);
        noted_is_noticed(lone, Notice::NoShareIndicators, Notice::LazyModeWithoutSfv);
        noted_is_noticed(lazy, Notice::LazyModeWithoutSfv, Notice::NoShareIndicators);
        noted_is_noticed(lazy, Notice::LazyModeWithoutSfv, Notice::LazyModeWithoutSfv);
        noticed_in_either(first, rest, Notice::NoShareIndicators);
        noticed_in_either(first, rest, Notice::LazyModeWithoutSfv);
        overlaps_are_overlaps(vs, us, vs.len());
    } else {
        noted_is_noticed(true, Notice::NoShareIndicators, Notice::NoShareIndicators);
        noted_is_noticed(true, Notice::NoShareIndicators, Notice::LazyModeWithoutSfv);
    }
}

proof fn overlaps_are_overlaps(vs: Seq<Seq<char>>, us: Seq<Seq<char>>, n: nat)
    ensures
        forall|i: int|
            0 <= i < config::overlaps(vs, us, n).len() ==> (#[trigger] config::overlaps(
                vs,
                us,
                n,
            )[i]) is IndicatorOverlap,
    decreases n,
{
    if n > 0 {
        overlaps_are_overlaps(vs, us, (n - 1) as nat);
        overlaps_of_one_are(vs, us, (n - 1) as nat, us.len());
        let before = config::overlaps(vs, us, (n - 1) as nat);
        let own = config::overlaps_with(vs, us, (n - 1) as nat, us.len());
        assert forall|i: int| 0 <= i < config::overlaps(vs, us, n).len() implies (
        #[trigger] config::overlaps(vs, us, n)[i]) is IndicatorOverlap by {
            if i < before.len() {
                assert(config::overlaps(vs, us, n)[i] == before[i]);
            } else {
                assert(config::overlaps(vs, us, n)[i] == own[i - before.len()]);
            }
        }
    }
}

proof fn overlaps_of_one_are(vs: Seq<Seq<char>>, us: Seq<Seq<char>>, i: nat, n: nat)
    ensures
        forall|j: int|
            0 <= j < config::overlaps_with(vs, us, i, n).len() ==> (
            #[trigger] config::overlaps_with(vs, us, i, n)[j]) is IndicatorOverlap,
    decreases n,
{
    if n > 0 {
        overlaps_of_one_are(vs, us, i, (n - 1) as nat);
        let before = config::overlaps_with(vs, us, i, (n - 1) as nat);
        assert forall|j: int| 0 <= j < config::overlaps_with(vs, us, i, n).len() implies (
        #[trigger] config::overlaps_with(vs, us, i, n)[j]) is IndicatorOverlap by {
            if j < before.len() {
                assert(config::overlaps_with(vs, us, i, n)[j] == before[j]);
            }
        }
    }
}

proof fn warnings_about_the_backend(c: Config, p: ConfigProbe, n: i32)
    ensures
        noticed(config::rar2fs_findings(c.rar2fs, p), Notice::UnusualSeekLength(n)) <==> n != 0 && n
            != 1 && c.rar2fs.seek_length == Some(n),
{
    let wanted = Notice::UnusualSeekLength(n);
    let missing = c.rar2fs.backend_mount is Some && !p.backend_exists;
    let a = config::refused(missing, ConfigFault::BackendMissing);
    let b = config::refused(
        c.rar2fs.max_concurrent_reads == Some(0usize),
        ConfigFault::NoConcurrentReads,
    );
    let ab = config::followed_by(a, b);
    assert(ab.notices =~= Seq::<Notice>::empty());
    assert(!noticed(ab, wanted));
    match c.rar2fs.seek_length {
        Some(m) => {
            noted_is_noticed(m != 0 && m != 1, Notice::UnusualSeekLength(m), wanted);
            noticed_in_either(
                config::noted(m != 0 && m != 1, Notice::UnusualSeekLength(m)),
                ab,
                wanted,
            );
        },
        None => {
            noted_is_noticed(true, wanted, wanted);
            noticed_in_either(config::clean(), ab, wanted);
        },
    }
}

proof fn warnings_about_timeouts(c: Config)
    requires
        config::timeouts_findings(c.fuse_options).fault is None,
    ensures
        noticed(config::timeouts_findings(c.fuse_options), Notice::LongAttrTimeout) <==> (
        c.fuse_options matches Some(f) && f.attr_timeout matches Some(t) && t.over_a_day),
        noticed(config::timeouts_findings(c.fuse_options), Notice::LongEntryTimeout) <==> (
        c.fuse_options matches Some(f) && f.entry_timeout matches Some(t) && t.over_a_day),
{
    noted_is_noticed(true, Notice::LongAttrTimeout, Notice::LongEntryTimeout);
    noted_is_noticed(true, Notice::LongEntryTimeout, Notice::LongAttrTimeout);
    if let Some(f) = c.fuse_options {
        let a = config::timeout_findings(
            f.attr_timeout,
            ConfigFault::NegativeAttrTimeout,
            Notice::LongAttrTimeout,
        );
        let b = config::timeout_findings(
            f.entry_timeout,
            ConfigFault::NegativeEntryTimeout,
            Notice::LongEntryTimeout,
        );
        noticed_in_either(a, b, Notice::LongAttrTimeout);
        noticed_in_either(a, b, Notice::LongEntryTimeout);
        if let Some(t) = f.attr_timeout {
            assert(a.notices =~= config::noted(t.over_a_day, Notice::LongAttrTimeout).notices);
            noted_is_noticed(t.over_a_day, Notice::LongAttrTimeout, Notice::LongAttrTimeout);
            noted_is_noticed(t.over_a_day, Notice::LongAttrTimeout, Notice::LongEntryTimeout);
        }
        if let Some(t) = f.entry_timeout {
            assert(b.notices =~= config::noted(t.over_a_day, Notice::LongEntryTimeout).notices);
            noted_is_noticed(t.over_a_day, Notice::LongEntryTimeout, Notice::LongAttrTimeout);
            noted_is_noticed(t.over_a_day, Notice::LongEntryTimeout, Notice::LongEntryTimeout);
        }
    }
}

proof fn warnings_about_services(c: Config, secs: u64, perms: u16)
    requires
        config::emby_findings(c.emby).fault is None,
    ensures
        noticed(config::archive_findings(c.filters), Notice::HideArchivesWithoutRar) <==> (
        c.filters matches Some(f) && f.rar_archives matches Some(rar) && !rar.enabled
            && rar.hide_archives == Some(true)),
        noticed(config::monitoring_findings(c.notifications), Notice::ShortCheckInterval(secs))
            <==> (c.notifications matches Some(m) && m.enabled && m.check_interval == Some(secs)
            && secs < 30),
        noticed(config::emby_findings(c.emby), Notice::NoEmbyPathMapping) <==> (
        c.emby matches Some(e) && e.enabled && e.path_mapping is None),
        noticed(config::emby_findings(c.emby), Notice::ShortEmbyDebounce(0)) <==> (
        c.emby matches Some(e) && e.enabled && e.debounce_seconds == Some(0u64)),
        noticed(config::permission_findings(c.fuse_options), Notice::WorldWritable(perms)) <==> (
        c.fuse_options matches Some(f) && f.permissions == Some(perms) && perms & 0o002 != 0),
{
    let archives = Notice::HideArchivesWithoutRar;
    let interval = Notice::ShortCheckInterval(secs);
    let mapping = Notice::NoEmbyPathMapping;
    let debounce = Notice::ShortEmbyDebounce(0);
    let writable = Notice::WorldWritable(perms);
    noted_is_noticed(true, archives, archives);
    noted_is_noticed(true, archives, interval);
    noted_is_noticed(true, archives, mapping);
    noted_is_noticed(true, archives, debounce);
    noted_is_noticed(true, archives, writable);
    if let Some(f) = c.filters {
        if let Some(rar) = f.rar_archives {
            noted_is_noticed(!rar.enabled && rar.hide_archives == Some(true), archives, archives);
        }
    }
    if let Some(m) = c.notifications {
        let own = match m.check_interval {
            Some(i) => i,
            None => 60u64,
        };
        noted_is_noticed(own < 30, Notice::ShortCheckInterval(own), interval);
    }
    if let Some(e) = c.emby {
        if e.enabled {
            let server = config::server_findings(
                e.url@,
                e.api_token@,
                ConfigFault::EmbyUrlEmpty,
                ConfigFault::EmbyTokenEmpty,
                ConfigFault::EmbyUrlInvalid,
            );
            let a = config::noted(e.debounce_seconds == Some(0u64), debounce);
            let b = config::noted(e.path_mapping is None, mapping);
            let ab = config::followed_by(a, b);
            noted_is_noticed(e.debounce_seconds == Some(0u64), debounce, debounce);
            noted_is_noticed(e.debounce_seconds == Some(0u64), debounce, mapping);
            noted_is_noticed(e.path_mapping is None, mapping, mapping);
            noted_is_noticed(e.path_mapping is None, mapping, debounce);
            noticed_in_either(a, b, mapping);
            noticed_in_either(a, b, debounce);
            noticed_in_either(server, ab, mapping);
            noticed_in_either(server, ab, debounce);
            assert(server.notices =~= Seq::<Notice>::empty());
        }
    }
    if let Some(f) = c.fuse_options {
        if let Some(own) = f.permissions {
            noted_is_noticed(own & 0o002 != 0, Notice::WorldWritable(own), writable);
        }
    }
}

/// Of an accepted configuration every warning of each of its parts is given.
pub proof fn no_warning_is_lost(c: Config, p: ConfigProbe, n: Notice)
    requires
        faultless(c, p),
    ensures
        noticed(c.findings(p), n) <==> {
            ||| noticed(config::sfv_findings(c.sfv_validation), n)
            ||| noticed(config::overlay_findings(c.overlay_reference, p), n)
            ||| noticed(config::unionfs_findings(c.unionfs_reference, p), n)
            ||| noticed(config::rar2fs_findings(c.rar2fs, p), n)
            ||| noticed(config::timeouts_findings(c.fuse_options), n)
            ||| noticed(config::archive_findings(c.filters), n)
            ||| noticed(config::monitoring_findings(c.notifications), n)
            ||| noticed(config::emby_findings(c.emby), n)
            ||| noticed(config::permission_findings(c.fuse_options), n)
        },
{
    faultless_configurations_are_accepted(c, p);
    let paths = config::path_findings(p);
    let sfv = config::sfv_findings(c.sfv_validation);
    let overlay = config::overlay_findings(c.overlay_reference, p);
    let unionfs = config::unionfs_findings(c.unionfs_reference, p);
    let rar2fs = config::rar2fs_findings(c.rar2fs, p);
    let timeouts = config::timeouts_findings(c.fuse_options);
    let archives = config::archive_findings(c.filters);
    let monitoring = config::monitoring_findings(c.notifications);
    let emby = config::emby_findings(c.emby);
    let jellyfin = config::jellyfin_findings(c.jellyfin);
    let plex = config::plex_findings(c.plex);
    let permissions = config::permission_findings(c.fuse_options);
    let l1 = config::followed_by(overlay, unionfs);
    let l2 = config::followed_by(sfv, l1);
    let b1 = config::followed_by(archives, monitoring);
    let b2 = config::followed_by(timeouts, b1);
    let s1 = config::followed_by(plex, permissions);
    let s2 = config::followed_by(jellyfin, s1);
    noticed_in_either(overlay, unionfs, n);
    noticed_in_either(sfv, l1, n);
    noticed_in_either(paths, l2, n);
    noticed_in_either(archives, monitoring, n);
    noticed_in_either(timeouts, b1, n);
    noticed_in_either(rar2fs, b2, n);
    noticed_in_either(plex, permissions, n);
    noticed_in_either(jellyfin, s1, n);
    noticed_in_either(emby, s2, n);
    noticed_in_either(c.backend_findings(p), c.service_findings(), n);
    noticed_in_either(
        c.layer_findings(p),
        config::followed_by(c.backend_findings(p), c.service_findings()),
        n,
    );
    assert(!noticed(paths, n));
    assert(!noticed(jellyfin, n));
    assert(!noticed(plex, n));
}

/// An address can be called where it names a scheme and a host.
pub proof fn plain_addresses_can_be_called(host: Seq<char>)
    requires
        host.len() > 0,
        !host.contains('/'),
        !host.contains(':'),
    ensures
        config::url_fault("http://"@ + host) is None,
        config::url_fault("https://"@ + host) is None,
        config::url_fault("http://"@) is Some,
{
    let http = "http://"@;
    let https = "https://"@;
    schemes_differ(host);
    no_last(host, ':');
    assert forall|i: int| 0 <= i < host.len() implies host[i] != '/' by {
        assert(host.contains(host[i]));
    }
    stops_at_end(host, '/');
    assert(host.take(host.len() as int) =~= host);
    assert(http.skip(http.len() as int) =~= Seq::<char>::empty());
    assert(http.subrange(0, http.len() as int) =~= http);
}

/// A port has to be one that there is.
pub proof fn ports_are_numbers(host: Seq<char>, port: nat)
    requires
        host.len() > 0,
        !host.contains('/'),
        !host.contains(':'),
    ensures
        config::url_fault("http://"@ + (host.push(':') + text::decimal(port))) is None <==> port
            <= 65535,
{
    let full = host.push(':') + text::decimal(port);
    schemes_differ(full);
    decimal_has_digits(port);
    assert forall|i: int| 0 <= i < full.len() implies full[i] != '/' by {
        if i < host.len() {
            assert(host.contains(host[i]));
        } else if i > host.len() {
            assert(full[i] == text::decimal(port)[i - host.len() - 1]);
        }
    }
    stops_at_end(full, '/');
    assert(full.take(full.len() as int) =~= full);
    last_is(full, ':', host.len() as int, text::decimal(port));
    assert(full.skip((host.len() + 1) as int) =~= text::decimal(port));
    laws::text::numbers_are_read_back(port, 65535);
}

/// An address without a scheme cannot be called.
pub proof fn addresses_name_a_scheme(t: Seq<char>)
    requires
        !t.contains(':'),
    ensures
        config::url_fault(t) is Some,
{
    let http = "http://"@;
    let https = "https://"@;
    reveal_strlit("http://");
    reveal_strlit("https://");
    assert(http[4] == ':' && https[5] == ':');
    if text::starts(t, http) {
        assert(t.subrange(0, http.len() as int)[4] == ':');
        assert(t.contains(t[4]));
    }
    if text::starts(t, https) {
        assert(t.subrange(0, https.len() as int)[5] == ':');
        assert(t.contains(t[5]));
    }
}

proof fn schemes_differ(rest: Seq<char>)
    ensures
        "http://"@.len() == 7,
        "https://"@.len() == 8,
        text::starts("http://"@ + rest, "http://"@),
        text::starts("https://"@ + rest, "https://"@),
        !text::starts("https://"@ + rest, "http://"@),
        ("http://"@ + rest).skip("http://"@.len() as int) == rest,
        ("https://"@ + rest).skip("https://"@.len() as int) == rest,
{
    let http = "http://"@;
    let https = "https://"@;
    reveal_strlit("http://");
    reveal_strlit("https://");
    assert(http[4] == ':' && https[4] == 's');
    assert((http + rest).subrange(0, http.len() as int) =~= http);
    assert((https + rest).subrange(0, https.len() as int) =~= https);
    assert((https + rest).subrange(0, http.len() as int)[4] == 's');
    assert((http + rest).skip(http.len() as int) =~= rest);
    assert((https + rest).skip(https.len() as int) =~= rest);
}

proof fn stops_at_end(t: Seq<char>, c: char)
    requires
        forall|i: int| 0 <= i < t.len() ==> #[trigger] t[i] != c,
    ensures
        text::until(t, c) == t.len(),
{
    text::until_bounds(t, c);
}

proof fn no_last(t: Seq<char>, c: char)
    requires
        !t.contains(c),
    ensures
        text::last_index(t, c) == -1,
    decreases t.len(),
{
    if t.len() > 0 {
        assert(t.contains(t.last()));
        if t.drop_last().contains(c) {
            let i = choose|i: int| 0 <= i < t.drop_last().len() && t.drop_last()[i] == c;
            assert(t[i] == c);
        }
        no_last(t.drop_last(), c);
    }
}

proof fn last_is(t: Seq<char>, c: char, at: int, tail: Seq<char>)
    requires
        0 <= at < t.len(),
        t[at] == c,
        t.len() == at + 1 + tail.len(),
        forall|j: int| 0 <= j < tail.len() ==> t[at + 1 + j] == #[trigger] tail[j],
        forall|j: int| 0 <= j < tail.len() ==> #[trigger] tail[j] != c,
    ensures
        text::last_index(t, c) == at,
    decreases tail.len(),
{
    if tail.len() > 0 {
        let rest = tail.drop_last();
        assert(tail[tail.len() - 1] != c);
        assert(t.last() == tail.last());
        assert forall|j: int| 0 <= j < rest.len() implies t.drop_last()[at + 1 + j]
            == #[trigger] rest[j] by {
            assert(tail[j] == rest[j]);
        }
        assert forall|j: int| 0 <= j < rest.len() implies #[trigger] rest[j] != c by {
            assert(tail[j] == rest[j]);
        }
        last_is(t.drop_last(), c, at, rest);
    }
}

proof fn decimal_has_digits(n: nat)
    ensures
        forall|i: int|
            0 <= i < text::decimal(n).len() ==> 0x30 <= (#[trigger] text::decimal(n)[i] as u32)
                <= 0x39,
    decreases n,
{
    if n >= 10 {
        decimal_has_digits(n / 10);
        let before = text::decimal(n / 10);
        assert forall|i: int| 0 <= i < text::decimal(n).len() implies 0x30 <= (
        #[trigger] text::decimal(n)[i] as u32) <= 0x39 by {
            if i < before.len() {
                assert(text::decimal(n)[i] == before[i]);
            }
        }
    }
}

/// Permissions are read in base eight, with or without a mark before them; anything else is
/// refused.
pub proof fn permissions_are_octal(a: char, b: char, c: char)
    requires
        0x30 <= (a as u32) <= 0x37,
        0x30 <= (b as u32) <= 0x37,
        0x30 <= (c as u32) <= 0x37,
    ensures
        ({
            let n = 64 * ((a as u32) - 0x30) + 8 * ((b as u32) - 0x30) + ((c as u32) - 0x30);
            &&& config::permissions_stated(seq!['0', 'o', a, b, c]) == Ok::<int, PermissionFault>(n)
            &&& config::permissions_stated(seq![a, b, c]) == Ok::<int, PermissionFault>(n)
        }),
        config::permissions_stated(seq!['x', a, b]) == Err::<int, PermissionFault>(
            PermissionFault::InvalidFormat,
        ),
{
    let mark = "0o"@;
    let body = seq![a, b, c];
    let t = seq!['0', 'o', a, b, c];
    reveal_strlit("0o");
    assert(mark =~= seq!['0', 'o']);
    assert(t.subrange(0, 2) =~= mark);
    assert(t.skip(2) =~= body);
    reveal_with_fuel(text::digits_value, 4);
    assert(body.drop_last() =~= seq![a, b]);
    assert(seq![a, b].drop_last() =~= seq![a]);
    assert(seq![a].drop_last() =~= Seq::<char>::empty());
    assert(body[0] == a && body[1] == b && body[2] == c);
    if text::starts(body, mark) {
        assert(body.subrange(0, 2)[1] == 'o');
    }
    assert(text::all_digits(body));
    let wrong = seq!['x', a, b];
    if text::starts(wrong, mark) {
        assert(wrong.subrange(0, 2)[0] == 'x');
    }
    assert(wrong[0] == 'x');
}

} // verus!
