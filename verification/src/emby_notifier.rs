//! The notifier for Emby and Jellyfin: which items, libraries or paths are refreshed when
//! files change.

use crate::config::EmbyConfig;
use crate::config::PathMappingConfig;
use crate::media_notifier_common;
use crate::media_notifier_common::BatchProcessor;
use crate::media_notifier_common::ItemCache;
use crate::media_notifier_common::PathProbe;
use crate::metrics::Counter;
use crate::metrics::MetricsCollector;
use crate::path;
use crate::path::PathName;
use crate::path_set::PathSet;
use crate::text;
use vstd::prelude::*;
use vstd::string::*;

verus! {

broadcast use vstd::string::group_string_axioms;

/// Minimum seconds between two full library scans.
pub const DEFAULT_FULL_REFRESH_COOLDOWN_SECS: u64 = 600;

/// An item of the server.
#[derive(Debug)]
pub struct EmbyItem {
    pub id: String,
    pub name: Option<String>,
    pub path: Option<String>,
    pub item_type: Option<String>,
}

/// An item, with texts in place of strings.
pub struct ItemView {
    pub id: Seq<char>,
    pub name: Option<Seq<char>>,
    pub path: Option<Seq<char>>,
    pub item_type: Option<Seq<char>>,
}

impl View for EmbyItem {
    type V = ItemView;

    open spec fn view(&self) -> ItemView {
        ItemView {
            id: self.id@,
            name: text::maybe(self.name),
            path: text::maybe(self.path),
            item_type: text::maybe(self.item_type),
        }
    }
}

impl Clone for EmbyItem {
    fn clone(&self) -> (r: Self)
        ensures
            r@ == self@,
    {
        EmbyItem {
            id: self.id.clone(),
            name: text::clone_maybe(&self.name),
            path: text::clone_maybe(&self.path),
            item_type: text::clone_maybe(&self.item_type),
        }
    }
}

pub open spec fn item_views(v: Seq<EmbyItem>) -> Seq<ItemView> {
    Seq::new(v.len(), |i: int| v[i]@)
}

/// Items of this type take part in library scans. The plain folders that the server lists
/// beside them do not: refreshing one finds nothing.
pub open spec fn scannable(item_type: Option<Seq<char>>) -> bool {
    item_type != Some("Folder"@)
}

/// Tests whether items of a type take part in library scans.
pub fn is_scannable_item_type(item_type: Option<&str>) -> (r: bool)
    ensures
        r == scannable(match item_type {
            Some(t) => Some(t@),
            None => None,
        }),
{
    match item_type {
        Some(t) => !text::same_text(t, "Folder"),
        None => true,
    }
}

/// The items that have a path and take part in library scans.
pub open spec fn usable_items(items: Seq<ItemView>) -> Seq<ItemView>
    decreases items.len(),
{
    if items.len() == 0 {
        Seq::empty()
    } else {
        let before = usable_items(items.drop_last());
        if items.last().path is Some && scannable(items.last().item_type) {
            before.push(items.last())
        } else {
            before
        }
    }
}

/// The items that have a path and take part in library scans.
pub fn keep_usable_items(items: &Vec<EmbyItem>) -> (r: Vec<EmbyItem>)
    ensures
        item_views(r@) == usable_items(item_views(items@)),
{
    let ghost all = item_views(items@);
    let mut r: Vec<EmbyItem> = Vec::new();
    let mut i: usize = 0;
    proof {
        assert(all.take(0) =~= Seq::<ItemView>::empty());
        assert(item_views(r@) =~= Seq::<ItemView>::empty());
    }
    while i < items.len()
        invariant
            i <= items@.len(),
            all == item_views(items@),
            item_views(r@) == usable_items(all.take(i as int)),
        decreases items@.len() - i,
    {
        let item = &items[i];
        proof {
            assert(all.take(i + 1).drop_last() =~= all.take(i as int));
            assert(all.take(i + 1).last() == item@);
        }
        let kind = match &item.item_type {
            Some(t) => Some(t.as_str()),
            None => None,
        };
        if item.path.is_some() && is_scannable_item_type(kind) {
            let ghost before = r@;
            let copy = item.clone();
            r.push(copy);
            proof {
                assert(item_views(r@) =~= item_views(before).push(item@));
            }
        }
        i += 1;
    }
    proof {
        assert(all.take(i as int) =~= all);
    }
    r
}

/// The settings of a library that count here.
#[derive(Debug, Clone, Copy, PartialEq, Eq, Structural)]
pub struct LibraryOptions {
    pub enable_realtime_monitor: bool,
}

/// A library of the server, with the places that it covers.
#[derive(Debug)]
pub struct VirtualFolder {
    pub item_id: String,
    pub locations: Vec<String>,
    pub library_options: Option<LibraryOptions>,
}

impl VirtualFolder {
    /// The library is monitored in real time; without settings it is not.
    pub open spec fn monitored(&self) -> bool {
        self.library_options matches Some(o) && o.enable_realtime_monitor
    }

    pub fn realtime_monitor_enabled(&self) -> (r: bool)
        ensures
            r == self.monitored(),
    {
        match &self.library_options {
            Some(o) => o.enable_realtime_monitor,
            None => false,
        }
    }
}

/// The rank of a location: how deep it lies, and how long its text is.
pub open spec fn location_rank(location: Seq<char>) -> (nat, nat) {
    (path::parts(location).len(), text::byte_len(location))
}

/// The rank of the best of some locations that cover a path: the deepest one, and among
/// equally deep ones that with the longest text.
pub open spec fn best_rank(t: Seq<char>, locations: Seq<Seq<char>>) -> Option<(nat, nat)>
    decreases locations.len(),
{
    if locations.len() == 0 {
        None
    } else {
        let before = best_rank(t, locations.drop_last());
        let own = location_rank(locations.last());
        if !path::under(t, locations.last()) {
            before
        } else {
            match before {
                Some(n) => if path::outranks(n, own) {
                    Some(n)
                } else {
                    Some(own)
                },
                None => Some(own),
            }
        }
    }
}

/// The rank is that of a location that covers the path, and no other one that covers it ranks
/// above it.
proof fn best_rank_is_there(t: Seq<char>, locations: Seq<Seq<char>>, k: int)
    requires
        0 <= k < locations.len(),
    ensures
        path::under(t, locations[k]) ==> (best_rank(t, locations) matches Some(n)
            && !path::outranks(location_rank(locations[k]), n)),
        best_rank(t, locations) matches Some(n) ==> exists|m: int|
            0 <= m < locations.len() && path::under(t, #[trigger] locations[m])
                && location_rank(locations[m]) == n,
    decreases locations.len(),
{
    let rest = locations.drop_last();
    if rest.len() > 0 {
        let j = if k < rest.len() {
            k
        } else {
            0
        };
        best_rank_is_there(t, rest, j);
        assert(rest[j] == locations[j]);
        if let Some(n) = best_rank(t, rest) {
            let m = choose|m: int|
                0 <= m < rest.len() && path::under(t, #[trigger] rest[m]) && location_rank(rest[m])
                    == n;
            assert(locations[m] == rest[m]);
        }
    }
    assert(locations[locations.len() - 1] == locations.last());
}

/// A rank that may be missing.
pub open spec fn rank(n: Option<(usize, usize)>) -> Option<(nat, nat)> {
    match n {
        Some((depth, length)) => Some((depth as nat, length as nat)),
        None => None,
    }
}

fn best_location(p: &PathName, locations: &Vec<String>) -> (r: Option<(usize, usize)>)
    ensures
        rank(r) == best_rank(p@, text::views(locations@)),
{
    let ghost all = text::views(locations@);
    let mut r: Option<(usize, usize)> = None;
    let mut i: usize = 0;
    proof {
        assert(all.take(0) =~= Seq::<Seq<char>>::empty());
    }
    while i < locations.len()
        invariant
            i <= locations@.len(),
            all == text::views(locations@),
            rank(r) == best_rank(p@, all.take(i as int)),
        decreases locations@.len() - i,
    {
        proof {
            assert(all.take(i + 1).drop_last() =~= all.take(i as int));
            assert(all.take(i + 1).last() == locations@[i as int]@);
        }
        let loc = PathName::new(locations[i].as_str());
        if p.starts_with(&loc) {
            let own: (usize, usize) = (
                loc.component_count(),
                text::byte_len_of(locations[i].as_str()),
            );
            r = match r {
                Some(n) => if path::is_above(n, own) {
                    Some(n)
                } else {
                    Some(own)
                },
                None => Some(own),
            };
        }
        i += 1;
    }
    proof {
        assert(all.take(i as int) =~= all);
    }
    r
}

/// The rank of the best location and the position of the library that owns a path: the
/// deepest location counts, among equally deep ones that with the longest text, and among
/// equally long ones the last library.
pub open spec fn owning_library(t: Seq<char>, folders: Seq<VirtualFolder>) -> Option<
    ((nat, nat), int),
>
    decreases folders.len(),
{
    if folders.len() == 0 {
        None
    } else {
        let before = owning_library(t, folders.drop_last());
        match best_rank(t, text::views(folders.last().locations@)) {
            None => before,
            Some(own) => match before {
                Some((n, i)) => if path::outranks(n, own) {
                    Some((n, i))
                } else {
                    Some((own, folders.len() - 1))
                },
                None => Some((own, folders.len() - 1)),
            },
        }
    }
}

/// The id of the library that owns a path, and whether it is monitored in real time.
pub open spec fn library_of(t: Seq<char>, folders: Seq<VirtualFolder>) -> Option<(Seq<char>, bool)> {
    match owning_library(t, folders) {
        Some((_, i)) => Some((folders[i].item_id@, folders[i].monitored())),
        None => None,
    }
}

proof fn owning_library_is_there(t: Seq<char>, folders: Seq<VirtualFolder>)
    ensures
        owning_library(t, folders) matches Some((n, i)) ==> 0 <= i < folders.len() && best_rank(
            t,
            text::views(folders[i].locations@),
        ) == Some(n),
    decreases folders.len(),
{
    if folders.len() > 0 {
        owning_library_is_there(t, folders.drop_last());
    }
}

/// The library that owns a path covers it, with a location that lies in every location, of
/// whatever library, that covers the path. Of those that lie as deep, none has a longer text.
pub proof fn most_specific_library_owns(t: Seq<char>, folders: Seq<VirtualFolder>, j: int, k: int)
    requires
        0 <= j < folders.len(),
        0 <= k < folders[j].locations@.len(),
        path::under(t, folders[j].locations@[k]@),
    ensures
        owning_library(t, folders) matches Some((_, i)) && 0 <= i < folders.len() && exists|m: int|
            0 <= m < folders[i].locations@.len() && path::under(
                t,
                #[trigger] folders[i].locations@[m]@,
            ) && path::under(folders[i].locations@[m]@, folders[j].locations@[k]@)
                && !path::outranks(
                location_rank(folders[j].locations@[k]@),
                location_rank(folders[i].locations@[m]@),
            ),
{
    let locations = text::views(folders[j].locations@);
    assert(locations[k] == folders[j].locations@[k]@);
    best_rank_is_there(t, locations, k);
    no_library_ranks_above(t, folders, j);
    owning_library_is_there(t, folders);
    let (n, i) = owning_library(t, folders)->0;
    let own = text::views(folders[i].locations@);
    if own.len() == 0 {
        assert(best_rank(t, own) is None);
    }
    best_rank_is_there(t, own, 0);
    let m = choose|m: int|
        0 <= m < own.len() && path::under(t, #[trigger] own[m]) && location_rank(own[m]) == n;
    assert(own[m] == folders[i].locations@[m]@);
    path::deeper_prefix_lies_under(t, own[m], locations[k]);
}

/// Among libraries whose best locations have the same rank, the last one owns the path.
pub proof fn among_equal_libraries_the_last_owns(t: Seq<char>, folders: Seq<VirtualFolder>, j: int)
    requires
        0 <= j < folders.len(),
        owning_library(t, folders) matches Some((n, _)) && best_rank(
            t,
            text::views(folders[j].locations@),
        ) == Some(n),
    ensures
        owning_library(t, folders) matches Some((_, i)) && j <= i < folders.len(),
    decreases folders.len(),
{
    owning_library_is_there(t, folders);
    if j < folders.len() - 1 {
        let rest = folders.drop_last();
        assert(rest[j] == folders[j]);
        no_library_ranks_above(t, rest, j);
        let (n, i) = owning_library(t, folders)->0;
        if i < folders.len() - 1 {
            among_equal_libraries_the_last_owns(t, rest, j);
        }
    }
}

proof fn no_library_ranks_above(t: Seq<char>, folders: Seq<VirtualFolder>, j: int)
    requires
        0 <= j < folders.len(),
    ensures
        best_rank(t, text::views(folders[j].locations@)) matches Some(m) ==> (owning_library(
            t,
            folders,
        ) matches Some((n, _)) && !path::outranks(m, n)),
    decreases folders.len(),
{
    if j < folders.len() - 1 {
        no_library_ranks_above(t, folders.drop_last(), j);
        assert(folders.drop_last()[j] == folders[j]);
    }
}

/// Finds the library that owns a path.
pub fn find_library_for_path(path: &PathName, folders: &Vec<VirtualFolder>) -> (r: Option<
    (String, bool),
>)
    ensures
        match r {
            Some((id, monitor)) => library_of(path@, folders@) == Some((id@, monitor)),
            None => library_of(path@, folders@) is None,
        },
{
    let mut best: Option<((usize, usize), usize)> = None;
    let mut i: usize = 0;
    proof {
        assert(folders@.take(0) =~= Seq::<VirtualFolder>::empty());
    }
    while i < folders.len()
        invariant
            i <= folders@.len(),
            match best {
                Some((n, k)) => owning_library(path@, folders@.take(i as int)) == Some(
                    ((n.0 as nat, n.1 as nat), k as int),
                ),
                None => owning_library(path@, folders@.take(i as int)) is None,
            },
        decreases folders@.len() - i,
    {
        proof {
            assert(folders@.take(i + 1).drop_last() =~= folders@.take(i as int));
            assert(folders@.take(i + 1).last() == folders@[i as int]);
        }
        match best_location(path, &folders[i].locations) {
            Some(own) => {
                best = match best {
                    Some((n, k)) => if path::is_above(n, own) {
                        Some((n, k))
                    } else {
                        Some((own, i))
                    },
                    None => Some((own, i)),
                };
            },
            None => {},
        }
        i += 1;
    }
    proof {
        assert(folders@.take(i as int) =~= folders@);
        owning_library_is_there(path@, folders@);
    }
    match best {
        Some((_, k)) => Some((folders[k].item_id.clone(), folders[k].realtime_monitor_enabled())),
        None => None,
    }
}

/// The settings of a notifier, with the addresses that it calls.
pub struct NotifierConfig {
    pub debounce_seconds: u64,
    pub cache_minutes: u64,
    pub fallback_full_refresh: bool,
    pub path_mapping: Option<PathMappingConfig>,
    pub server_name: &'static str,
    pub max_retries: u32,
    pub retry_delay_ms: u64,
    /// Lists the items.
    pub fetch_items_url: String,
    /// Lists the libraries.
    pub virtual_folders_url: String,
    /// Takes paths that changed.
    pub notify_path_url: String,
    /// Scans everything.
    pub full_library_url: String,
    pub item_refresh_base: String,
    pub item_refresh_suffix: String,
    pub full_refresh_cooldown_secs: u64,
}

/// The notifier for Emby, and for Jellyfin, which speaks the same language.
pub struct EmbyNotifier {
    pub config: NotifierConfig,
    pub items_cache: ItemCache<EmbyItem>,
    pub virtual_folders_cache: ItemCache<VirtualFolder>,
    /// When everything was last scanned.
    pub last_full_refresh: Option<u64>,
}

/// What was set, or the default.
pub open spec fn set_or<T>(v: Option<T>, d: T) -> T {
    match v {
        Some(x) => x,
        None => d,
    }
}

impl EmbyNotifier {
    /// The notifier has the settings of a configuration, with the defaults for what is not
    /// set, and calls the server below its address and the prefix.
    pub open spec fn set_up(&self, c: EmbyConfig, name: Seq<char>, prefix: Seq<char>) -> bool {
        let base = c.url@ + prefix;
        let token = c.api_token@;
        &&& self.config.debounce_seconds == set_or(c.debounce_seconds, 5)
        &&& self.config.cache_minutes == set_or(c.cache_minutes, 15)
        &&& self.config.fallback_full_refresh == (c.fallback_full_refresh == Some(true))
        &&& self.config.path_mapping == c.path_mapping
        &&& self.config.server_name@ == name
        &&& self.config.max_retries == set_or(
            c.max_retries,
            media_notifier_common::DEFAULT_MAX_RETRIES,
        )
        &&& self.config.retry_delay_ms == set_or(
            c.retry_delay_ms,
            media_notifier_common::DEFAULT_RETRY_DELAY_MS,
        )
        &&& self.config.fetch_items_url@ == base
            + "/Items?Recursive=true&Fields=Path,Name&api_key="@ + token
        &&& self.config.virtual_folders_url@ == base + "/Library/VirtualFolders?api_key="@ + token
        &&& self.config.notify_path_url@ == base + "/Library/Media/Updated?api_key="@ + token
        &&& self.config.full_library_url@ == base + "/Library/Refresh?api_key="@ + token
        &&& self.config.item_refresh_base@ == base + "/Items/"@
        &&& self.config.item_refresh_suffix@ == "/Refresh?Recursive=true&api_key="@ + token
        &&& self.config.full_refresh_cooldown_secs == set_or(
            c.full_refresh_cooldown_seconds,
            DEFAULT_FULL_REFRESH_COOLDOWN_SECS,
        )
    }

    /// Nothing has been fetched or scanned yet.
    pub open spec fn idle(&self) -> bool {
        &&& self.items_cache.held() is None
        &&& self.items_cache.ttl() == self.config.cache_minutes * 60
        &&& self.virtual_folders_cache.held() is None
        &&& self.virtual_folders_cache.ttl() == self.config.cache_minutes * 60
        &&& self.last_full_refresh is None
    }

    pub fn new(config: EmbyConfig) -> (r: Self)
        requires
            set_or(config.cache_minutes, 15) * 60 <= u64::MAX,
        ensures
            r.set_up(config, "Emby"@, "/emby"@),
            r.idle(),
    {
        Self::new_internal(config, "Emby", "/emby")
    }

    /// A notifier for the server of the given name, whose interface lies below the prefix.
    pub fn new_internal(
        config: EmbyConfig,
        server_name: &'static str,
        api_prefix: &'static str,
    ) -> (r: Self)
        requires
            set_or(config.cache_minutes, 15) * 60 <= u64::MAX,
        ensures
            r.set_up(config, server_name@, api_prefix@),
            r.idle(),
    {
        let cache_minutes: u64 = match config.cache_minutes {
            Some(n) => n,
            None => 15,
        };
        let base = text::concat(config.url.as_str(), api_prefix);
        let b = base.as_str();
        let token = config.api_token.as_str();
        let fetch_items_url = text::concat3(
            b,
            "/Items?Recursive=true&Fields=Path,Name&api_key=",
            token,
        );
        let virtual_folders_url = text::concat3(b, "/Library/VirtualFolders?api_key=", token);
        let notify_path_url = text::concat3(b, "/Library/Media/Updated?api_key=", token);
        let full_library_url = text::concat3(b, "/Library/Refresh?api_key=", token);
        let item_refresh_base = text::concat(b, "/Items/");
        let item_refresh_suffix = text::concat("/Refresh?Recursive=true&api_key=", token);
        let own = NotifierConfig {
            debounce_seconds: match config.debounce_seconds {
                Some(n) => n,
                None => 5,
            },
            cache_minutes,
            fallback_full_refresh: config.fallback_full_refresh == Some(true),
            path_mapping: config.path_mapping,
            server_name,
            max_retries: match config.max_retries {
                Some(n) => n,
                None => media_notifier_common::DEFAULT_MAX_RETRIES,
            },
            retry_delay_ms: match config.retry_delay_ms {
                Some(n) => n,
                None => media_notifier_common::DEFAULT_RETRY_DELAY_MS,
            },
            fetch_items_url,
            virtual_folders_url,
            notify_path_url,
            full_library_url,
            item_refresh_base,
            item_refresh_suffix,
            full_refresh_cooldown_secs: match config.full_refresh_cooldown_seconds {
                Some(n) => n,
                None => DEFAULT_FULL_REFRESH_COOLDOWN_SECS,
            },
        };
        EmbyNotifier {
            config: own,
            items_cache: ItemCache::new(cache_minutes),
            virtual_folders_cache: ItemCache::new(cache_minutes),
            last_full_refresh: None,
        }
    }

    /// The address that refreshes an item.
    pub fn item_refresh_url(&self, item_id: &str) -> (r: String)
        ensures
            r@ == self.config.item_refresh_base@ + item_id@ + self.config.item_refresh_suffix@,
    {
        text::concat3(
            self.config.item_refresh_base.as_str(),
            item_id,
            self.config.item_refresh_suffix.as_str(),
        )
    }
}

/// An item lies in one of the changed directories, as the server sees them.
pub open spec fn item_matches(
    item: ItemView,
    dirs: Seq<Seq<char>>,
    mapping: Option<PathMappingConfig>,
) -> bool {
    match item.path {
        Some(p) => exists|d: int|
            0 <= d < dirs.len() && path::under(
                p,
                media_notifier_common::translated(#[trigger] dirs[d], mapping),
            ),
        None => false,
    }
}

fn item_in_dirs(item: &EmbyItem, containers: &Vec<PathName>) -> (r: bool)
    ensures
        r == (match item@.path {
            Some(p) => exists|d: int|
                0 <= d < containers@.len() && path::under(
                    p,
                    #[trigger] path::path_views(containers@)[d],
                ),
            None => false,
        }),
{
    let p = match &item.path {
        Some(s) => PathName::new(s.as_str()),
        None => {
            return false;
        },
    };
    let ghost all = path::path_views(containers@);
    let mut i: usize = 0;
    while i < containers.len()
        invariant
            i <= containers@.len(),
            all == path::path_views(containers@),
            item@.path == Some(p@),
            forall|d: int| 0 <= d < i ==> !path::under(p@, #[trigger] all[d]),
        decreases containers@.len() - i,
    {
        proof {
            assert(all[i as int] == containers@[i as int]@);
        }
        if p.starts_with(&containers[i]) {
            return true;
        }
        i += 1;
    }
    false
}

/// The paths as the server sees them.
pub open spec fn all_translated(
    paths: Seq<Seq<char>>,
    mapping: Option<PathMappingConfig>,
) -> Seq<Seq<char>> {
    Seq::new(paths.len(), |i: int| media_notifier_common::translated(paths[i], mapping))
}

/// Translates some paths to those that the server sees.
pub fn translate_all(paths: &Vec<PathName>, mapping: &Option<PathMappingConfig>, name: &str) -> (r:
    Vec<PathName>)
    ensures
        path::path_views(r@) == all_translated(path::path_views(paths@), *mapping),
{
    let ghost all = all_translated(path::path_views(paths@), *mapping);
    let mut r: Vec<PathName> = Vec::new();
    let mut i: usize = 0;
    proof {
        assert(path::path_views(r@) =~= all.take(0));
    }
    while i < paths.len()
        invariant
            i <= paths@.len(),
            all == all_translated(path::path_views(paths@), *mapping),
            path::path_views(r@) == all.take(i as int),
        decreases paths@.len() - i,
    {
        let ghost before = r@;
        let t = media_notifier_common::translate_path(&paths[i], mapping, name);
        r.push(t);
        proof {
            assert(path::path_views(r@) =~= path::path_views(before).push(t@));
            assert(all.take(i + 1) =~= all.take(i as int).push(t@));
        }
        i += 1;
    }
    proof {
        assert(all.take(i as int) =~= all);
    }
    r
}

/// The ids of the items, among the first `n`, that lie in one of the changed directories,
/// each once.
pub open spec fn matching_ids(
    items: Seq<ItemView>,
    dirs: Seq<Seq<char>>,
    mapping: Option<PathMappingConfig>,
    n: nat,
) -> Seq<Seq<char>>
    decreases n,
{
    if n == 0 {
        Seq::empty()
    } else {
        let before = matching_ids(items, dirs, mapping, (n - 1) as nat);
        if item_matches(items[n - 1], dirs, mapping) {
            text::with_text(before, items[n - 1].id)
        } else {
            before
        }
    }
}

/// The ids of the items to refresh for a batch of changed paths: those that lie in a changed
/// directory. `probes` tells of each path in turn.
pub fn process_batch_emby_style(
    paths: &Vec<PathName>,
    probes: &Vec<PathProbe>,
    path_mapping: &Option<PathMappingConfig>,
    items: &Vec<EmbyItem>,
    server_name: &str,
) -> (r: Vec<String>)
    requires
        probes@.len() == paths@.len(),
    ensures
        text::views(r@) == matching_ids(
            item_views(items@),
            media_notifier_common::refresh_targets(path::path_views(paths@), probes@),
            *path_mapping,
            items@.len(),
        ),
{
    let dirs = media_notifier_common::batch_targets(paths, probes);
    let containers = translate_all(dirs.items(), path_mapping, server_name);
    let ghost all = item_views(items@);
    let ghost seen = path::path_views(containers@);
    let mut r: Vec<String> = Vec::new();
    let mut i: usize = 0;
    proof {
        assert(text::views(r@) =~= Seq::<Seq<char>>::empty());
    }
    while i < items.len()
        invariant
            i <= items@.len(),
            all == item_views(items@),
            seen == path::path_views(containers@),
            seen == all_translated(dirs@, *path_mapping),
            text::views(r@) == matching_ids(all, dirs@, *path_mapping, i as nat),
        decreases items@.len() - i,
    {
        proof {
            assert(all[i as int] == items@[i as int]@);
            assert(path::path_views(containers@).len() == containers@.len());
            assert(seen.len() == dirs@.len());
            match all[i as int].path {
                Some(p) => {
                    assert forall|d: int| 0 <= d < dirs@.len() implies #[trigger] seen[d]
                        == media_notifier_common::translated(dirs@[d], *path_mapping) by {}
                    if item_matches(all[i as int], dirs@, *path_mapping) {
                        let d = choose|d: int|
                            0 <= d < dirs@.len() && path::under(
                                p,
                                media_notifier_common::translated(
                                    #[trigger] dirs@[d],
                                    *path_mapping,
                                ),
                            );
                        assert(path::under(p, seen[d]));
                    }
                    if exists|d: int|
                        0 <= d < containers@.len() && path::under(p, #[trigger] seen[d]) {
                        let d = choose|d: int|
                            0 <= d < containers@.len() && path::under(p, #[trigger] seen[d]);
                        assert(path::under(
                            p,
                            media_notifier_common::translated(dirs@[d], *path_mapping),
                        ));
                    }
                },
                None => {},
            }
        }
        if item_in_dirs(&items[i], &containers) {
            text::add_once(&mut r, items[i].id.clone());
        }
        i += 1;
    }
    r
}

/// The id of the first item at a path.
pub open spec fn item_at(items: Seq<ItemView>, t: Seq<char>) -> Option<Seq<char>>
    decreases items.len(),
{
    if items.len() == 0 {
        None
    } else if items[0].path matches Some(p) && path::parts(p) == path::parts(t) {
        Some(items[0].id)
    } else {
        item_at(items.drop_first(), t)
    }
}

fn find_item_at(items: &Vec<EmbyItem>, t: &PathName) -> (r: Option<String>)
    ensures
        match r {
            Some(id) => item_at(item_views(items@), t@) == Some(id@),
            None => item_at(item_views(items@), t@) is None,
        },
{
    let ghost all = item_views(items@);
    let mut i: usize = 0;
    proof {
        assert(all.skip(0) =~= all);
    }
    while i < items.len()
        invariant
            i <= items@.len(),
            all == item_views(items@),
            item_at(all.skip(i as int), t@) == item_at(all, t@),
        decreases items@.len() - i,
    {
        proof {
            assert(all.skip(i as int)[0] == items@[i as int]@);
            assert(all.skip(i as int).drop_first() =~= all.skip(i + 1));
        }
        if let Some(s) = &items[i].path {
            let p = PathName::new(s.as_str());
            if p.same(t) {
                return Some(items[i].id.clone());
            }
        }
        i += 1;
    }
    None
}

/// The item of the nearest directory above a path, below the root.
pub open spec fn nearest_parent(items: Seq<ItemView>, t: Seq<char>) -> Option<Seq<char>>
    decreases t.len(),
{
    match path::parent_of(t) {
        Some(p) => {
            proof {
                path::parent_is_shorter(t);
            }
            if path::parts(p).len() <= 1 {
                None
            } else {
                match item_at(items, p) {
                    Some(id) => Some(id),
                    None => nearest_parent(items, p),
                }
            }
        },
        None => None,
    }
}

fn find_nearest_parent(items: &Vec<EmbyItem>, t: &PathName) -> (r: Option<String>)
    ensures
        match r {
            Some(id) => nearest_parent(item_views(items@), t@) == Some(id@),
            None => nearest_parent(item_views(items@), t@) is None,
        },
    decreases t@.len(),
{
    match t.parent() {
        Some(p) => {
            proof {
                path::parent_is_shorter(t@);
            }
            if p.component_count() <= 1 {
                return None;
            }
            match find_item_at(items, &p) {
                Some(id) => Some(id),
                None => find_nearest_parent(items, &p),
            }
        },
        None => None,
    }
}

/// The ids of the nearest items above the first `n` changed directories, each once.
pub open spec fn parent_ids(
    items: Seq<ItemView>,
    dirs: Seq<Seq<char>>,
    mapping: Option<PathMappingConfig>,
    n: nat,
) -> Seq<Seq<char>>
    decreases n,
{
    if n == 0 {
        Seq::empty()
    } else {
        let before = parent_ids(items, dirs, mapping, (n - 1) as nat);
        match nearest_parent(items, media_notifier_common::translated(dirs[n - 1], mapping)) {
            Some(id) => text::with_text(before, id),
            None => before,
        }
    }
}

/// What becomes of new content that no item covers.
pub struct NewContent {
    /// Paths in libraries that are monitored, and those libraries, in turn.
    pub monitored: Vec<PathName>,
    pub monitored_libraries: Vec<String>,
    /// Libraries to refresh, each once.
    pub libraries: Vec<String>,
    /// Paths that no library covers.
    pub unmatched: Vec<PathName>,
}

/// What becomes of new content, with texts in place of paths and strings.
#[verifier::ext_equal]
pub struct NewContentView {
    pub monitored: Seq<Seq<char>>,
    pub monitored_libraries: Seq<Seq<char>>,
    pub libraries: Seq<Seq<char>>,
    pub unmatched: Seq<Seq<char>>,
}

impl View for NewContent {
    type V = NewContentView;

    open spec fn view(&self) -> NewContentView {
        NewContentView {
            monitored: path::path_views(self.monitored@),
            monitored_libraries: text::views(self.monitored_libraries@),
            libraries: text::views(self.libraries@),
            unmatched: path::path_views(self.unmatched@),
        }
    }
}

/// The first `n` changed directories, sorted by the library that owns them: the paths of
/// monitored libraries are told one by one, other libraries are refreshed as a whole.
pub open spec fn sorted_by_library(
    dirs: Seq<Seq<char>>,
    mapping: Option<PathMappingConfig>,
    folders: Seq<VirtualFolder>,
    n: nat,
) -> NewContentView
    decreases n,
{
    if n == 0 {
        NewContentView {
            monitored: Seq::empty(),
            monitored_libraries: Seq::empty(),
            libraries: Seq::empty(),
            unmatched: Seq::empty(),
        }
    } else {
        let before = sorted_by_library(dirs, mapping, folders, (n - 1) as nat);
        let t = media_notifier_common::translated(dirs[n - 1], mapping);
        match library_of(t, folders) {
            Some((id, true)) => NewContentView {
                monitored: before.monitored.push(t),
                monitored_libraries: before.monitored_libraries.push(id),
                ..before
            },
            Some((id, false)) => NewContentView {
                libraries: text::with_text(before.libraries, id),
                ..before
            },
            None => NewContentView { unmatched: before.unmatched.push(t), ..before },
        }
    }
}

/// Some texts put in one after the other, each once.
pub open spec fn with_texts(s: Seq<Seq<char>>, more: Seq<Seq<char>>) -> Seq<Seq<char>>
    decreases more.len(),
{
    if more.len() == 0 {
        s
    } else {
        text::with_text(with_texts(s, more.drop_last()), more.last())
    }
}

impl NewContent {
    /// The paths of monitored libraries could not be told: their libraries are refreshed too.
    pub fn monitored_failed(&mut self)
        ensures
            final(self)@ == (NewContentView {
                libraries: with_texts(old(self)@.libraries, old(self)@.monitored_libraries),
                ..old(self)@
            }),
    {
        let ghost start = self@;
        let mut i: usize = 0;
        proof {
            assert(start.monitored_libraries.take(0) =~= Seq::<Seq<char>>::empty());
        }
        while i < self.monitored_libraries.len()
            invariant
                i <= self.monitored_libraries@.len(),
                text::views(self.monitored_libraries@) == start.monitored_libraries,
                self@.monitored == start.monitored,
                self@.unmatched == start.unmatched,
                self@.libraries == with_texts(
                    start.libraries,
                    start.monitored_libraries.take(i as int),
                ),
            decreases self.monitored_libraries@.len() - i,
        {
            proof {
                let all = start.monitored_libraries;
                assert(all.take(i + 1).drop_last() =~= all.take(i as int));
                assert(all.take(i + 1).last() == self.monitored_libraries@[i as int]@);
            }
            let id = self.monitored_libraries[i].clone();
            text::add_once(&mut self.libraries, id);
            i += 1;
        }
        proof {
            let all = start.monitored_libraries;
            assert(all.take(i as int) =~= all);
            assert(self@ =~= (NewContentView {
                libraries: with_texts(start.libraries, start.monitored_libraries),
                ..start
            }));
        }
    }
}

/// What a batch of changed paths calls for.
pub enum CreatedPlan {
    /// Nothing of it is there any more.
    Nothing,
    /// Refresh the items with these ids.
    RefreshItems(Vec<String>),
    /// No item covers these directories.
    NewContent(PathSet),
}

/// What a batch calls for, with texts in place of paths and strings.
pub enum CreatedPlanView {
    Nothing,
    RefreshItems(Seq<Seq<char>>),
    NewContent(Seq<Seq<char>>),
}

impl View for CreatedPlan {
    type V = CreatedPlanView;

    open spec fn view(&self) -> CreatedPlanView {
        match self {
            CreatedPlan::Nothing => CreatedPlanView::Nothing,
            CreatedPlan::RefreshItems(ids) => CreatedPlanView::RefreshItems(text::views(ids@)),
            CreatedPlan::NewContent(dirs) => CreatedPlanView::NewContent(dirs@),
        }
    }
}

/// What to do when paths could not be told at all.
#[derive(Debug, Clone, Copy, PartialEq, Eq, Structural)]
pub enum Fallback {
    /// Nothing: the server finds the content at its next scan.
    Skip,
    /// Scan everything.
    FullRefresh,
    /// Everything was scanned a moment ago; so many seconds are left until it may be again.
    CoolingDown(u64),
}

impl EmbyNotifier {
    /// The ids of the nearest items above some changed directories, each once.
    pub fn find_parent_items(&self, target_dirs: &PathSet, items: &Vec<EmbyItem>) -> (r: Vec<
        String,
    >)
        ensures
            text::views(r@) == parent_ids(
                item_views(items@),
                target_dirs@,
                self.config.path_mapping,
                target_dirs@.len(),
            ),
    {
        let ghost all = item_views(items@);
        let mut r: Vec<String> = Vec::new();
        let mut i: usize = 0;
        proof {
            assert(text::views(r@) =~= Seq::<Seq<char>>::empty());
        }
        while i < target_dirs.len()
            invariant
                i <= target_dirs@.len(),
                all == item_views(items@),
                text::views(r@) == parent_ids(
                    all,
                    target_dirs@,
                    self.config.path_mapping,
                    i as nat,
                ),
            decreases target_dirs@.len() - i,
        {
            let t = media_notifier_common::translate_path(
                target_dirs.get(i),
                &self.config.path_mapping,
                self.config.server_name,
            );
            match find_nearest_parent(items, &t) {
                Some(id) => {
                    text::add_once(&mut r, id);
                },
                None => {},
            }
            i += 1;
        }
        r
    }

    /// What a batch of changed paths calls for, given the items of the server.
    pub open spec fn plan(
        &self,
        paths: Seq<Seq<char>>,
        probes: Seq<PathProbe>,
        items: Seq<ItemView>,
    ) -> CreatedPlanView {
        let dirs = media_notifier_common::refresh_targets(paths, probes);
        let direct = matching_ids(items, dirs, self.config.path_mapping, items.len());
        let above = parent_ids(items, dirs, self.config.path_mapping, dirs.len());
        if direct.len() > 0 {
            CreatedPlanView::RefreshItems(direct)
        } else if dirs.len() == 0 {
            CreatedPlanView::Nothing
        } else if above.len() > 0 {
            CreatedPlanView::RefreshItems(above)
        } else {
            CreatedPlanView::NewContent(dirs)
        }
    }

    /// Says what a batch of changed paths calls for: the items in the changed directories are
    /// refreshed; where there are none, the nearest items above them; where there are none
    /// either, the content is new.
    pub fn plan_created(
        &self,
        paths: &Vec<PathName>,
        probes: &Vec<PathProbe>,
        items: &Vec<EmbyItem>,
    ) -> (r: CreatedPlan)
        requires
            probes@.len() == paths@.len(),
        ensures
            r@ == self.plan(path::path_views(paths@), probes@, item_views(items@)),
            r matches CreatedPlan::NewContent(dirs) ==> dirs.wf(),
    {
        let direct = process_batch_emby_style(
            paths,
            probes,
            &self.config.path_mapping,
            items,
            self.config.server_name,
        );
        proof {
            assert(text::views(direct@).len() == direct@.len());
            assert(item_views(items@).len() == items@.len());
        }
        if direct.len() > 0 {
            return CreatedPlan::RefreshItems(direct);
        }
        let dirs = media_notifier_common::batch_targets(paths, probes);
        if dirs.len() == 0 {
            return CreatedPlan::Nothing;
        }
        let above = self.find_parent_items(&dirs, items);
        proof {
            assert(text::views(above@).len() == above@.len());
        }
        if above.len() > 0 {
            CreatedPlan::RefreshItems(above)
        } else {
            CreatedPlan::NewContent(dirs)
        }
    }

    /// Sorts new content by the libraries that own it.
    pub fn sort_new_content(&self, target_dirs: &PathSet, folders: &Vec<VirtualFolder>) -> (r:
        NewContent)
        ensures
            r@ == sorted_by_library(
                target_dirs@,
                self.config.path_mapping,
                folders@,
                target_dirs@.len(),
            ),
    {
        let mut r = NewContent {
            monitored: Vec::new(),
            monitored_libraries: Vec::new(),
            libraries: Vec::new(),
            unmatched: Vec::new(),
        };
        let mut i: usize = 0;
        proof {
            assert(r@ =~= sorted_by_library(
                target_dirs@,
                self.config.path_mapping,
                folders@,
                0,
            ));
        }
        while i < target_dirs.len()
            invariant
                i <= target_dirs@.len(),
                r@ == sorted_by_library(
                    target_dirs@,
                    self.config.path_mapping,
                    folders@,
                    i as nat,
                ),
            decreases target_dirs@.len() - i,
        {
            let ghost before = r@;
            let t = media_notifier_common::translate_path(
                target_dirs.get(i),
                &self.config.path_mapping,
                self.config.server_name,
            );
            let ghost text = t@;
            match find_library_for_path(&t, folders) {
                Some((id, true)) => {
                    let ghost known = id@;
                    r.monitored.push(t);
                    r.monitored_libraries.push(id);
                    proof {
                        assert(r@.monitored =~= before.monitored.push(text));
                        assert(r@.monitored_libraries =~= before.monitored_libraries.push(known));
                        assert(r@.libraries =~= before.libraries);
                        assert(r@.unmatched =~= before.unmatched);
                    }
                },
                Some((id, false)) => {
                    text::add_once(&mut r.libraries, id);
                },
                None => {
                    r.unmatched.push(t);
                    proof {
                        assert(r@.unmatched =~= before.unmatched.push(text));
                    }
                },
            }
            proof {
                assert(r@ =~= sorted_by_library(
                    target_dirs@,
                    self.config.path_mapping,
                    folders@,
                    (i + 1) as nat,
                ));
            }
            i += 1;
        }
        r
    }

    /// What to do at an instant when paths could not be told.
    pub open spec fn fallback_at(&self, now: u64) -> Fallback {
        let cooldown = self.config.full_refresh_cooldown_secs;
        if !self.config.fallback_full_refresh {
            Fallback::Skip
        } else {
            match self.last_full_refresh {
                Some(t) => if media_notifier_common::seconds_since(now, t) >= cooldown {
                    Fallback::FullRefresh
                } else {
                    Fallback::CoolingDown(
                        (cooldown - media_notifier_common::seconds_since(now, t)) as u64,
                    )
                },
                None => Fallback::FullRefresh,
            }
        }
    }

    /// Says what to do when paths could not be told; a scan that is put off is counted.
    pub fn fallback(&self, now: u64, metrics: &mut MetricsCollector) -> (r: Fallback)
        ensures
            r == self.fallback_at(now),
            final(metrics).stuck() == old(metrics).stuck(),
            final(metrics).start() == old(metrics).start(),
            final(metrics).inotify_watches == old(metrics).inotify_watches,
            forall|c: Counter| #[trigger]
                final(metrics).count(c) == (if r is CoolingDown && c
                    == Counter::FullRefreshCooldownSkips {
                    old(metrics).count(c).wrapping_add(1)
                } else {
                    old(metrics).count(c)
                }),
    {
        if !self.config.fallback_full_refresh {
            return Fallback::Skip;
        }
        let cooldown: u64 = self.config.full_refresh_cooldown_secs;
        match self.last_full_refresh {
            Some(t) => {
                let since: u64 = media_notifier_common::elapsed_secs(now, t);
                if since >= cooldown {
                    Fallback::FullRefresh
                } else {
                    metrics.bump(Counter::FullRefreshCooldownSkips, 1);
                    Fallback::CoolingDown(cooldown - since)
                }
            },
            None => Fallback::FullRefresh,
        }
    }

    /// The notifier works for Jellyfin.
    pub open spec fn is_jellyfin(&self) -> bool {
        self.config.server_name@ == "Jellyfin"@
    }

    /// Takes the news that everything was scanned.
    pub fn full_refresh_done(&mut self, now: u64, metrics: &mut MetricsCollector)
        ensures
            final(self).last_full_refresh == Some(now),
            final(self).config == old(self).config,
            final(self).items_cache == old(self).items_cache,
            final(self).virtual_folders_cache == old(self).virtual_folders_cache,
            final(metrics).stuck() == old(metrics).stuck(),
            final(metrics).start() == old(metrics).start(),
            final(metrics).inotify_watches == old(metrics).inotify_watches,
            forall|c: Counter| #[trigger]
                final(metrics).count(c) == (if c == (if old(self).is_jellyfin() {
                    Counter::JellyfinFullRefreshes
                } else {
                    Counter::EmbyFullRefreshes
                }) {
                    old(metrics).count(c).wrapping_add(1)
                } else {
                    old(metrics).count(c)
                }),
    {
        self.last_full_refresh = Some(now);
        if text::same_text(self.config.server_name, "Jellyfin") {
            metrics.bump(Counter::JellyfinFullRefreshes, 1);
        } else {
            metrics.bump(Counter::EmbyFullRefreshes, 1);
        }
    }

    /// Takes the replies to the refreshes of some items, one for each: whether it worked. The
    /// list of items is out of date once one did.
    pub fn items_refreshed(&mut self, replies: &Vec<bool>)
        ensures
            final(self).config == old(self).config,
            final(self).virtual_folders_cache == old(self).virtual_folders_cache,
            final(self).last_full_refresh == old(self).last_full_refresh,
            final(self).items_cache.ttl() == old(self).items_cache.ttl(),
            final(self).items_cache.held() == (if replies@.contains(true) {
                None
            } else {
                old(self).items_cache.held()
            }),
    {
        let mut i: usize = 0;
        while i < replies.len()
            invariant
                i <= replies@.len(),
                *self == *old(self),
                forall|j: int| 0 <= j < i ==> !replies@[j],
            decreases replies@.len() - i,
        {
            if replies[i] {
                self.items_cache.invalidate();
                return;
            }
            i += 1;
        }
    }

    /// The deleted paths of a batch as the server sees them; they need not exist.
    pub fn deleted_paths(&self, paths: &Vec<PathName>) -> (r: Vec<PathName>)
        ensures
            path::path_views(r@) == all_translated(
                path::path_views(paths@),
                self.config.path_mapping,
            ),
    {
        translate_all(paths, &self.config.path_mapping, self.config.server_name)
    }
}

/// What the announcement of new content waits for.
#[derive(Debug, Clone, Copy, PartialEq, Eq, Structural)]
pub enum EmbyStage {
    /// That the paths of monitored libraries are told.
    Monitored,
    /// That the library at this place is refreshed.
    Library(usize),
    /// That the paths which no library covers are told.
    Unmatched,
    /// That everything is scanned.
    Scan,
    /// Nothing any more.
    Done,
}

/// The announcement of new content: what there is to tell, and how far it has come.
pub struct EmbyBatch {
    pub content: NewContent,
    pub stage: EmbyStage,
}

/// An announcement, with texts in place of paths and strings.
#[verifier::ext_equal]
pub struct EmbyBatchView {
    pub content: NewContentView,
    pub stage: EmbyStage,
}

/// What an announcement wants done next.
#[derive(Debug)]
pub enum EmbyAction<'a> {
    /// Tell the server that these paths are new.
    Tell(&'a Vec<PathName>),
    /// Refresh the library with this id.
    Refresh(&'a String),
    /// Scan everything.
    ScanAll,
    /// All is announced.
    Done,
}

/// What an announcement wants done next, with texts in place of paths and strings.
pub enum EmbyActionView {
    Tell(Seq<Seq<char>>),
    Refresh(Seq<char>),
    ScanAll,
    Done,
}

impl<'a> View for EmbyAction<'a> {
    type V = EmbyActionView;

    open spec fn view(&self) -> EmbyActionView {
        match self {
            EmbyAction::Tell(paths) => EmbyActionView::Tell(path::path_views(paths@)),
            EmbyAction::Refresh(id) => EmbyActionView::Refresh(id@),
            EmbyAction::ScanAll => EmbyActionView::ScanAll,
            EmbyAction::Done => EmbyActionView::Done,
        }
    }
}

/// Where an announcement stands once the libraries are behind it.
pub open spec fn stage_past_libraries(c: NewContentView) -> EmbyStage {
    if c.unmatched.len() > 0 {
        EmbyStage::Unmatched
    } else {
        EmbyStage::Done
    }
}

/// Where an announcement stands once the monitored libraries are behind it.
pub open spec fn stage_past_monitored(c: NewContentView) -> EmbyStage {
    if c.libraries.len() > 0 {
        EmbyStage::Library(0)
    } else {
        stage_past_libraries(c)
    }
}

impl EmbyBatchView {
    /// The announcement of some content, with nothing told yet.
    pub open spec fn start(content: NewContentView) -> Self {
        EmbyBatchView {
            content,
            stage: if content.monitored.len() > 0 {
                EmbyStage::Monitored
            } else {
                stage_past_monitored(content)
            },
        }
    }

    /// What is waited for is there.
    pub open spec fn wf(self) -> bool {
        match self.stage {
            EmbyStage::Monitored => self.content.monitored.len() > 0,
            EmbyStage::Library(i) => i < self.content.libraries.len(),
            EmbyStage::Unmatched => self.content.unmatched.len() > 0,
            EmbyStage::Scan => true,
            EmbyStage::Done => true,
        }
    }

    pub open spec fn action(self) -> EmbyActionView {
        match self.stage {
            EmbyStage::Monitored => EmbyActionView::Tell(self.content.monitored),
            EmbyStage::Library(i) => EmbyActionView::Refresh(self.content.libraries[i as int]),
            EmbyStage::Unmatched => EmbyActionView::Tell(self.content.unmatched),
            EmbyStage::Scan => EmbyActionView::ScanAll,
            EmbyStage::Done => EmbyActionView::Done,
        }
    }

    /// The library that is waited for is the last one.
    pub open spec fn at_last_library(self) -> bool {
        self.stage matches EmbyStage::Library(i) && i + 1 >= self.content.libraries.len()
    }

    /// The announcement after the reply to what it wanted done. `fallback` is what to do if
    /// paths that no library covers could not be told.
    pub open spec fn after(self, ok: bool, fallback: Fallback) -> Self {
        match self.stage {
            EmbyStage::Monitored => {
                let content = if ok {
                    self.content
                } else {
                    NewContentView {
                        libraries: with_texts(
                            self.content.libraries,
                            self.content.monitored_libraries,
                        ),
                        ..self.content
                    }
                };
                EmbyBatchView { content, stage: stage_past_monitored(content) }
            },
            EmbyStage::Library(i) => EmbyBatchView {
                stage: if self.at_last_library() {
                    stage_past_libraries(self.content)
                } else {
                    EmbyStage::Library((i + 1) as usize)
                },
                ..self
            },
            EmbyStage::Unmatched => EmbyBatchView {
                stage: if !ok && fallback is FullRefresh {
                    EmbyStage::Scan
                } else {
                    EmbyStage::Done
                },
                ..self
            },
            _ => EmbyBatchView { stage: EmbyStage::Done, ..self },
        }
    }

    /// The reply makes the list of items out of date.
    pub open spec fn outdates_items(self, ok: bool) -> bool {
        self.stage == EmbyStage::Monitored && ok || self.at_last_library()
    }

    /// What the reply adds to a counter.
    pub open spec fn counted(self, ok: bool, fallback: Fallback, jellyfin: bool, c: Counter) -> u64 {
        let full = if jellyfin {
            Counter::JellyfinFullRefreshes
        } else {
            Counter::EmbyFullRefreshes
        };
        match self.stage {
            EmbyStage::Monitored => if ok && c == Counter::EmbyTargetedNewContent {
                self.content.monitored.len() as u64
            } else {
                0
            },
            EmbyStage::Unmatched => if !ok && fallback is CoolingDown && c
                == Counter::FullRefreshCooldownSkips {
                1
            } else {
                0
            },
            EmbyStage::Scan => if ok && c == full {
                1
            } else {
                0
            },
            _ => 0,
        }
    }
}

impl View for EmbyBatch {
    type V = EmbyBatchView;

    open spec fn view(&self) -> EmbyBatchView {
        EmbyBatchView { content: self.content@, stage: self.stage }
    }
}

impl EmbyBatch {
    fn past_libraries(content: &NewContent) -> (r: EmbyStage)
        ensures
            r == stage_past_libraries(content@),
    {
        if content.unmatched.len() > 0 {
            EmbyStage::Unmatched
        } else {
            EmbyStage::Done
        }
    }

    fn past_monitored(content: &NewContent) -> (r: EmbyStage)
        ensures
            r == stage_past_monitored(content@),
    {
        if content.libraries.len() > 0 {
            EmbyStage::Library(0)
        } else {
            Self::past_libraries(content)
        }
    }

    /// Starts to announce some content.
    pub fn new(content: NewContent) -> (r: Self)
        ensures
            r@ == EmbyBatchView::start(content@),
            r@.wf(),
    {
        let stage = if content.monitored.len() > 0 {
            EmbyStage::Monitored
        } else {
            Self::past_monitored(&content)
        };
        EmbyBatch { content, stage }
    }

    /// What to do next.
    pub fn next(&self) -> (r: EmbyAction<'_>)
        requires
            self@.wf(),
        ensures
            r@ == self@.action(),
    {
        match self.stage {
            EmbyStage::Monitored => EmbyAction::Tell(&self.content.monitored),
            EmbyStage::Library(i) => EmbyAction::Refresh(&self.content.libraries[i]),
            EmbyStage::Unmatched => EmbyAction::Tell(&self.content.unmatched),
            EmbyStage::Scan => EmbyAction::ScanAll,
            EmbyStage::Done => EmbyAction::Done,
        }
    }

    /// Takes the reply to what was to be done: whether it worked. Returns what was decided
    /// where paths that no library covers could not be told.
    pub fn on_reply(
        &mut self,
        ok: bool,
        now: u64,
        notifier: &mut EmbyNotifier,
        metrics: &mut MetricsCollector,
    ) -> (r: Option<Fallback>)
        requires
            old(self)@.wf(),
        ensures
            final(self)@ == old(self)@.after(ok, old(notifier).fallback_at(now)),
            final(self)@.wf(),
            r == (if old(self)@.stage == EmbyStage::Unmatched && !ok {
                Some(old(notifier).fallback_at(now))
            } else {
                None
            }),
            final(notifier).config == old(notifier).config,
            final(notifier).virtual_folders_cache == old(notifier).virtual_folders_cache,
            final(notifier).last_full_refresh == (if old(self)@.stage == EmbyStage::Scan && ok {
                Some(now)
            } else {
                old(notifier).last_full_refresh
            }),
            final(notifier).items_cache.ttl() == old(notifier).items_cache.ttl(),
            final(notifier).items_cache.held() == (if old(self)@.outdates_items(ok) {
                None
            } else {
                old(notifier).items_cache.held()
            }),
            final(metrics).stuck() == old(metrics).stuck(),
            final(metrics).start() == old(metrics).start(),
            final(metrics).inotify_watches == old(metrics).inotify_watches,
            forall|c: Counter| #[trigger]
                final(metrics).count(c) == old(metrics).count(c).wrapping_add(
                    old(self)@.counted(
                        ok,
                        old(notifier).fallback_at(now),
                        old(notifier).is_jellyfin(),
                        c,
                    ),
                ),
    {
        let mut decided: Option<Fallback> = None;
        match self.stage {
            EmbyStage::Monitored => {
                if ok {
                    notifier.items_cache.invalidate();
                    metrics.bump(
                        Counter::EmbyTargetedNewContent,
                        self.content.monitored.len() as u64,
                    );
                } else {
                    self.content.monitored_failed();
                }
                self.stage = Self::past_monitored(&self.content);
            },
            EmbyStage::Library(i) => {
                let count: usize = self.content.libraries.len();
                if i + 1 < count {
                    self.stage = EmbyStage::Library(i + 1);
                } else {
                    notifier.items_cache.invalidate();
                    self.stage = Self::past_libraries(&self.content);
                }
            },
            EmbyStage::Unmatched => {
                self.stage = EmbyStage::Done;
                if !ok {
                    let choice = notifier.fallback(now, metrics);
                    match choice {
                        Fallback::FullRefresh => {
                            self.stage = EmbyStage::Scan;
                        },
                        _ => {},
                    }
                    decided = Some(choice);
                }
            },
            EmbyStage::Scan => {
                if ok {
                    notifier.full_refresh_done(now, metrics);
                }
                self.stage = EmbyStage::Done;
            },
            EmbyStage::Done => {},
        }
        decided
    }
}

impl BatchProcessor for EmbyNotifier {
    open spec fn name(&self) -> Seq<char> {
        self.config.server_name@
    }

    open spec fn counter(&self) -> Counter {
        if self.is_jellyfin() {
            Counter::Jellyfin
        } else {
            Counter::Emby
        }
    }

    fn server_name(&self) -> (r: &str) {
        self.config.server_name
    }

    fn increment_notification_counter(&self, metrics: &mut MetricsCollector) {
        if text::same_text(self.config.server_name, "Jellyfin") {
            metrics.bump(Counter::Jellyfin, 1);
        } else {
            metrics.bump(Counter::Emby, 1);
        }
    }
}

/// Everything is scanned only after paths that no library covers could not be told, and then
/// only where the notifier falls back to that.
pub proof fn scans_come_after_a_failure(b: EmbyBatchView, ok: bool, fallback: Fallback)
    requires
        b.after(ok, fallback).stage == EmbyStage::Scan,
    ensures
        b.stage == EmbyStage::Unmatched,
        !ok,
        fallback == Fallback::FullRefresh,
{
}

proof fn texts_put_in_are_there(s: Seq<Seq<char>>, more: Seq<Seq<char>>, j: int)
    requires
        0 <= j < more.len(),
    ensures
        with_texts(s, more).contains(more[j]),
    decreases more.len(),
{
    let before = with_texts(s, more.drop_last());
    if j < more.len() - 1 {
        texts_put_in_are_there(s, more.drop_last(), j);
        let k = choose|k: int| 0 <= k < before.len() && before[k] == more[j];
        assert(with_texts(s, more)[k] == more[j]);
    } else if !before.contains(more.last()) {
        assert(with_texts(s, more)[before.len() as int] == more[j]);
    }
}

/// Where the paths of monitored libraries could not be told, the libraries are refreshed next,
/// and that of each of these paths is among them.
pub proof fn untold_paths_refresh_their_library(b: EmbyBatchView, fallback: Fallback, j: int)
    requires
        b.stage == EmbyStage::Monitored,
        0 <= j < b.content.monitored_libraries.len(),
    ensures
        b.after(false, fallback).stage == EmbyStage::Library(0),
        b.after(false, fallback).content.libraries.contains(b.content.monitored_libraries[j]),
{
    texts_put_in_are_there(b.content.libraries, b.content.monitored_libraries, j);
}

/// The announcement after some replies, one for each thing that it wanted done.
pub open spec fn after_replies(b: EmbyBatchView, replies: Seq<(bool, Fallback)>) -> EmbyBatchView
    decreases replies.len(),
{
    if replies.len() == 0 {
        b
    } else {
        let (ok, fallback) = replies.last();
        after_replies(b, replies.drop_last()).after(ok, fallback)
    }
}

/// Whatever the server replies, every library is refreshed in its turn.
pub proof fn every_library_has_its_turn(b: EmbyBatchView, replies: Seq<(bool, Fallback)>)
    requires
        b.stage == EmbyStage::Library(0),
        replies.len() < b.content.libraries.len() <= usize::MAX,
    ensures
        after_replies(b, replies).action() == EmbyActionView::Refresh(
            b.content.libraries[replies.len() as int],
        ),
        after_replies(b, replies) == (EmbyBatchView {
            stage: EmbyStage::Library(replies.len() as usize),
            ..b
        }),
    decreases replies.len(),
{
    if replies.len() > 0 {
        every_library_has_its_turn(b, replies.drop_last());
    }
}

proof fn texts_put_in_are_few(s: Seq<Seq<char>>, more: Seq<Seq<char>>)
    ensures
        with_texts(s, more).len() <= s.len() + more.len(),
    decreases more.len(),
{
    if more.len() > 0 {
        texts_put_in_are_few(s, more.drop_last());
    }
}

/// At most so many replies are still to come.
pub open spec fn replies_left(b: EmbyBatchView) -> int {
    match b.stage {
        EmbyStage::Monitored => 3int + b.content.libraries.len()
            + b.content.monitored_libraries.len(),
        EmbyStage::Library(i) => 2 + b.content.libraries.len() - i,
        EmbyStage::Unmatched => 2,
        EmbyStage::Scan => 1,
        EmbyStage::Done => 0,
    }
}

/// Every announcement comes to its end, whatever the server replies.
pub proof fn every_reply_brings_the_end_nearer(b: EmbyBatchView, ok: bool, fallback: Fallback)
    requires
        b.wf(),
        b.stage != EmbyStage::Done,
        b.content.libraries.len() <= usize::MAX,
    ensures
        0 <= replies_left(b.after(ok, fallback)) < replies_left(b),
{
    texts_put_in_are_few(b.content.libraries, b.content.monitored_libraries);
}

/// Full scans lie at least the cooldown apart.
pub proof fn full_scans_are_rate_limited(n: EmbyNotifier, now: u64, later: u64)
    requires
        n.last_full_refresh == Some(now),
        now <= later,
        later - now < n.config.full_refresh_cooldown_secs * 1_000_000_000,
    ensures
        n.fallback_at(later) != Fallback::FullRefresh,
{
}

} // verus!
