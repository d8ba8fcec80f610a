//! Which files and directories the mount shows: archives, patterns, excluded names, and
//! whether a release is complete.

use crate::config::Config;
use crate::config::FiltersConfig;
use crate::config::OverlayConfig;
use crate::config::SfvConfig;
use crate::config::UnionfsConfig;
use crate::media_notifier_common;
use crate::metrics::Counter;
use crate::metrics::MetricsCollector;
use crate::path;
use crate::path::PathName;
use crate::sfv;
use crate::sfv::DirEntry;
use crate::sfv::FileAge;
use crate::sfv::FileEntry;
use crate::sfv::FileNames;
use crate::text;
use dashmap::DashMap;
use vstd::prelude::*;
use vstd::string::*;

verus! {

broadcast use vstd::string::group_string_axioms;

/// Whether a release needs an SFV file to be shown.
#[derive(Debug, Clone, Copy, PartialEq, Eq, Structural)]
pub enum SfvMode {
    Strict,
    Permissive,
}

/// The layer that a path comes from.
#[derive(Debug, Clone, Copy, PartialEq, Eq, Structural)]
pub enum Layer {
    Verified,
    Unverified,
}

/// A decision about a directory, and when it was made (wall clock).
#[derive(Debug, Clone, Copy, PartialEq, Eq, Structural)]
pub struct DirectoryInfo {
    pub should_show: bool,
    pub timestamp: u64,
}

/// Files changed within so many seconds count as still downloading.
pub const DEFAULT_DOWNLOAD_THRESHOLD_SECS: u64 = 60;

/// Seconds for which a decision about a directory holds.
pub const DEFAULT_CACHE_TTL_SECS: u64 = 300;

/// The map type of the `dashmap` crate.
#[verifier::external_type_specification]
#[verifier::external_body]
#[verifier::reject_recursive_types(K)]
#[verifier::reject_recursive_types(V)]
#[verifier::reject_recursive_types(S)]
pub struct ExDashMap<K, V, S>(DashMap<K, V, S>);

/// What a map of decisions holds: for each path whether it is shown, and since when.
pub uninterp spec fn cache_entries(c: DashMap<String, (bool, u64)>) -> Map<Seq<char>, (bool, u64)>;

/// No decision at all.
pub open spec fn no_entries() -> Map<Seq<char>, (bool, u64)> {
    Map::empty()
}

/// `DashMap::new` makes an empty map.
#[verifier::external_body]
fn cache_new() -> (c: DashMap<String, (bool, u64)>)
    ensures
        cache_entries(c) == no_entries(),
{
    DashMap::new()
}

/// `DashMap::insert` sets the value of a key.
#[verifier::external_body]
fn cache_insert(c: &mut DashMap<String, (bool, u64)>, k: String, v: (bool, u64))
    ensures
        cache_entries(*final(c)) == cache_entries(*old(c)).insert(k@, v),
{
    c.insert(k, v);
}

/// `DashMap::get` finds the value of a key.
#[verifier::external_body]
fn cache_get(c: &DashMap<String, (bool, u64)>, k: &str) -> (r: Option<(bool, u64)>)
    ensures
        match r {
            Some(v) => cache_entries(*c).dom().contains(k@) && cache_entries(*c)[k@] == v,
            None => !cache_entries(*c).dom().contains(k@),
        },
{
    c.get(k).map(|e| *e.value())
}

/// `DashMap::remove` takes a key out and tells whether it was there.
#[verifier::external_body]
fn cache_remove(c: &mut DashMap<String, (bool, u64)>, k: &str) -> (r: bool)
    ensures
        cache_entries(*final(c)) == cache_entries(*old(c)).remove(k@),
        r == cache_entries(*old(c)).dom().contains(k@),
{
    c.remove(k).is_some()
}

/// A text fits a pattern: `*` stands for any run of characters, `?` for one character, and
/// every other character for itself.
pub open spec fn fits(pattern: Seq<char>, t: Seq<char>) -> bool
    decreases pattern.len() + t.len(),
{
    if pattern.len() == 0 {
        t.len() == 0
    } else if pattern[0] == '*' {
        fits(pattern.drop_first(), t) || (t.len() > 0 && fits(pattern, t.drop_first()))
    } else {
        t.len() > 0 && (pattern[0] == '?' || pattern[0] == t[0]) && fits(
            pattern.drop_first(),
            t.drop_first(),
        )
    }
}

/// `WildMatch::new` and `WildMatch::matches`: tests whether the whole text fits the pattern.
#[verifier::external_body]
fn wild_match(pattern: &str, t: &str) -> (r: bool)
    ensures
        r == fits(pattern@, t@),
{
    wildmatch::WildMatch::new(pattern).matches(t)
}

/// The text fits one of the patterns.
pub open spec fn fits_any(patterns: Seq<Seq<char>>, t: Seq<char>) -> bool {
    exists|i: int| 0 <= i < patterns.len() && fits(#[trigger] patterns[i], t)
}

fn matches_any(patterns: &Vec<String>, t: &str) -> (r: bool)
    ensures
        r == fits_any(text::views(patterns@), t@),
{
    let ghost all = text::views(patterns@);
    let mut i: usize = 0;
    while i < patterns.len()
        invariant
            i <= patterns@.len(),
            all == text::views(patterns@),
            forall|j: int| 0 <= j < i ==> !fits(#[trigger] all[j], t@),
        decreases patterns@.len() - i,
    {
        proof {
            assert(all[i as int] == patterns@[i as int]@);
        }
        if wild_match(patterns[i].as_str(), t) {
            return true;
        }
        i += 1;
    }
    false
}

/// The rules of validation.
pub struct SfvRules {
    pub enabled: bool,
    /// Directories are validated when their files are looked at, not while listing.
    pub lazy_mode: bool,
    /// Permissive directories that hold an SFV file are validated too.
    pub permissive_validates: bool,
    pub verified_indicators: Vec<String>,
    pub unverified_indicators: Vec<String>,
    /// The mode of paths that nothing else decides.
    pub default_mode: SfvMode,
    pub log_failures: bool,
    pub log_file: Option<PathName>,
}

/// What a reload replaces.
pub struct HotConfig {
    pub sfv: Option<SfvRules>,
    pub hide_archives: bool,
    pub download_threshold_secs: u64,
    /// In small letters, with the dot.
    pub media_extensions: Vec<String>,
    /// In small letters.
    pub exclude_file_patterns: Vec<String>,
    /// In small letters.
    pub exclude_dirs: Vec<String>,
    /// In small letters; where there are none, every directory may stand at the root.
    pub include_dirs: Vec<String>,
}

/// The text after a dot.
pub open spec fn dotted(e: Seq<char>) -> Seq<char> {
    seq!['.'] + e
}

pub open spec fn all_dotted(v: Seq<Seq<char>>) -> Seq<Seq<char>> {
    Seq::new(v.len(), |i: int| dotted(v[i]))
}

fn dot_strings(v: &Vec<String>) -> (r: Vec<String>)
    ensures
        text::views(r@) == all_dotted(text::views(v@)),
{
    let mut r: Vec<String> = Vec::new();
    let ghost all = all_dotted(text::views(v@));
    let mut i: usize = 0;
    proof {
        assert(text::views(r@) =~= all.take(0));
    }
    while i < v.len()
        invariant
            i <= v@.len(),
            all == all_dotted(text::views(v@)),
            text::views(r@) == all.take(i as int),
        decreases v@.len() - i,
    {
        let mut s = String::new();
        s.push('.');
        s.append(v[i].as_str());
        proof {
            assert(s@ =~= dotted(v@[i as int]@));
            assert(all.take(i + 1) =~= all.take(i as int).push(s@));
        }
        media_notifier_common::push_text(&mut r, s.as_str());
        i += 1;
    }
    proof {
        assert(all.take(i as int) =~= all);
    }
    r
}

/// The list that is set, in small letters; nothing where none is set.
pub open spec fn lowered_list(v: Option<Vec<String>>) -> Seq<Seq<char>> {
    match v {
        Some(v) => text::all_lowered(text::views(v@)),
        None => Seq::empty(),
    }
}

fn lowered_or_none(v: &Option<Vec<String>>) -> (r: Vec<String>)
    ensures
        text::views(r@) == lowered_list(*v),
{
    match v {
        Some(v) => text::lowered_strings(v),
        None => {
            let none: Vec<String> = Vec::new();
            proof {
                assert(text::views(none@) =~= Seq::<Seq<char>>::empty());
            }
            none
        },
    }
}

/// Filters of which nothing is set.
pub open spec fn filter_lists(f: Option<FiltersConfig>) -> (
    Seq<Seq<char>>,
    Seq<Seq<char>>,
    Seq<Seq<char>>,
    Seq<Seq<char>>,
) {
    match f {
        Some(f) => (
            all_dotted(
                match f.media_extensions {
                    Some(v) => text::all_lowered(text::views(v@)),
                    None => media_notifier_common::default_extensions(),
                },
            ),
            lowered_list(f.exclude_files),
            lowered_list(f.exclude_dirs),
            lowered_list(f.include_dirs),
        ),
        None => (
            all_dotted(media_notifier_common::default_extensions()),
            Seq::empty(),
            Seq::empty(),
            Seq::empty(),
        ),
    }
}

/// Archives are hidden where their filter is on and hiding is not switched off.
pub open spec fn archives_hidden(f: Option<FiltersConfig>) -> bool {
    match f {
        Some(FiltersConfig { rar_archives: Some(rar), .. }) => rar.enabled && rar.hide_archives
            != Some(false),
        _ => false,
    }
}

/// The rules are those of the settings, with the defaults for what is not set.
pub open spec fn rules_match(r: SfvRules, c: SfvConfig) -> bool {
    &&& r.enabled == c.enabled
    &&& r.lazy_mode == (c.lazy_mode == Some(true))
    &&& r.permissive_validates == (c.permissive_validates_sfv == Some(true))
    &&& text::views(r.verified_indicators@) == text::views(c.verified_share_indicators@)
    &&& text::views(r.unverified_indicators@) == text::views(c.unverified_share_indicators@)
    &&& r.default_mode == (if c.default_mode@ == "strict"@ {
        SfvMode::Strict
    } else {
        SfvMode::Permissive
    })
    &&& r.log_failures == (c.log_failures != Some(false))
    &&& r.log_file is Some == c.log_file is Some
    &&& c.log_file matches Some(f) ==> r.log_file->0@ == f@
}

impl SfvRules {
    pub fn from_config(c: &SfvConfig) -> (r: Self)
        ensures
            rules_match(r, *c),
    {
        SfvRules {
            enabled: c.enabled,
            lazy_mode: c.lazy_mode == Some(true),
            permissive_validates: c.permissive_validates_sfv == Some(true),
            verified_indicators: text::clone_strings(&c.verified_share_indicators),
            unverified_indicators: text::clone_strings(&c.unverified_share_indicators),
            default_mode: if text::same_text(c.default_mode.as_str(), "strict") {
                SfvMode::Strict
            } else {
                SfvMode::Permissive
            },
            log_failures: c.log_failures != Some(false),
            log_file: match &c.log_file {
                Some(f) => Some(f.clone()),
                None => None,
            },
        }
    }
}

impl HotConfig {
    /// These are the settings of a configuration, with the defaults for what is not set.
    pub open spec fn matches(&self, c: Config) -> bool {
        &&& self.sfv is Some == c.sfv_validation is Some
        &&& c.sfv_validation matches Some(s) ==> rules_match(self.sfv->0, s)
        &&& self.hide_archives == archives_hidden(c.filters)
        &&& self.download_threshold_secs == (match c.sfv_validation {
            Some(SfvConfig { download_threshold_seconds: Some(n), .. }) => n,
            _ => DEFAULT_DOWNLOAD_THRESHOLD_SECS,
        })
        &&& text::views(self.media_extensions@) == filter_lists(c.filters).0
        &&& text::views(self.exclude_file_patterns@) == filter_lists(c.filters).1
        &&& text::views(self.exclude_dirs@) == filter_lists(c.filters).2
        &&& text::views(self.include_dirs@) == filter_lists(c.filters).3
    }

    pub fn from_config(config: &Config) -> (r: Self)
        ensures
            r.matches(*config),
    {
        let sfv = match &config.sfv_validation {
            Some(c) => Some(SfvRules::from_config(c)),
            None => None,
        };
        let threshold: u64 = match &config.sfv_validation {
            Some(c) => match c.download_threshold_seconds {
                Some(n) => n,
                None => DEFAULT_DOWNLOAD_THRESHOLD_SECS,
            },
            None => DEFAULT_DOWNLOAD_THRESHOLD_SECS,
        };
        let hide = match &config.filters {
            Some(f) => match &f.rar_archives {
                Some(rar) => rar.enabled && rar.hide_archives != Some(false),
                None => false,
            },
            None => false,
        };
        let extensions = match &config.filters {
            Some(f) => match &f.media_extensions {
                Some(v) => text::lowered_strings(v),
                None => media_notifier_common::default_media_extensions(),
            },
            None => media_notifier_common::default_media_extensions(),
        };
        let no_list: Option<Vec<String>> = None;
        let (files, dirs, only) = match &config.filters {
            Some(f) => (
                lowered_or_none(&f.exclude_files),
                lowered_or_none(&f.exclude_dirs),
                lowered_or_none(&f.include_dirs),
            ),
            None => (
                lowered_or_none(&no_list),
                lowered_or_none(&no_list),
                lowered_or_none(&no_list),
            ),
        };
        HotConfig {
            sfv,
            hide_archives: hide,
            download_threshold_secs: threshold,
            media_extensions: dot_strings(&extensions),
            exclude_file_patterns: files,
            exclude_dirs: dirs,
            include_dirs: only,
        }
    }
}

/// The part of the engine that a reload replaces.
pub struct FilterReloadHandle(pub HotConfig);

impl FilterReloadHandle {
    /// Takes the settings of a configuration that was read anew.
    pub fn reload(&mut self, config: &Config)
        ensures
            final(self).0.matches(*config),
    {
        self.0 = HotConfig::from_config(config);
    }
}

/// The name, in small letters, is that of an archive or of a part of one: `.rar`, or `.r`
/// and two digits.
pub open spec fn archive_named(low: Seq<char>) -> bool {
    ||| text::ends(low, ".rar"@)
    ||| {
        let n = low.len();
        &&& n >= 4
        &&& low[n - 4] == '.'
        &&& low[n - 3] == 'r'
        &&& text::all_digits(low.skip(n - 2))
    }
}

/// Tests whether a file is an archive or a part of one.
pub fn is_rar_archive(filename: &str) -> (r: bool)
    ensures
        r == archive_named(text::lowered(filename@)),
{
    let low = text::lowered_text(filename);
    if text::text_ends_with(low.as_str(), ".rar") {
        return true;
    }
    let t = text::chars_of(low.as_str());
    let n: usize = t.len();
    if n < 4 || t[n - 4] != '.' || t[n - 3] != 'r' {
        return false;
    }
    let tail = text::copy_range(&t, n - 2, n);
    proof {
        assert(tail@ =~= low@.skip(n - 2));
    }
    text::is_all_digits(&tail)
}

/// The last dot of the name and what follows it, in small letters, is one of the extensions.
pub open spec fn media_named(extensions: Seq<Seq<char>>, name: Seq<char>) -> bool {
    let low = text::lowered(name);
    let dot = text::last_index(low, '.');
    dot >= 0 && extensions.contains(low.skip(dot))
}

fn has_media_extension(extensions: &Vec<String>, filename: &str) -> (r: bool)
    ensures
        r == media_named(text::views(extensions@), filename@),
{
    let low = text::lowered_text(filename);
    let t = text::chars_of(low.as_str());
    match text::find_last_char(&t, '.') {
        Some(dot) => {
            let ext = text::copy_range(&t, dot, t.len());
            proof {
                assert(ext@ =~= low@.skip(dot as int));
            }
            let e = text::text_of(&ext);
            text::has_text(extensions, e.as_str())
        },
        None => false,
    }
}

/// One of the files is a media file.
pub open spec fn any_media(extensions: Seq<Seq<char>>, files: Seq<Seq<char>>) -> bool {
    exists|i: int| 0 <= i < files.len() && media_named(extensions, #[trigger] files[i])
}

fn has_media_file(extensions: &Vec<String>, files: &Vec<String>) -> (r: bool)
    ensures
        r == any_media(text::views(extensions@), text::views(files@)),
{
    let ghost all = text::views(files@);
    let mut i: usize = 0;
    while i < files.len()
        invariant
            i <= files@.len(),
            all == text::views(files@),
            forall|j: int|
                0 <= j < i ==> !media_named(text::views(extensions@), #[trigger] all[j]),
        decreases files@.len() - i,
    {
        proof {
            assert(all[i as int] == files@[i as int]@);
        }
        if has_media_extension(extensions, files[i].as_str()) {
            return true;
        }
        i += 1;
    }
    false
}

/// The names of some files, in small letters.
pub open spec fn file_names(files: Seq<FileEntry>) -> Set<Seq<char>>
    decreases files.len(),
{
    if files.len() == 0 {
        Set::empty()
    } else {
        file_names(files.drop_last()).insert(text::lowered(files.last().name@))
    }
}

/// The names of the files in a directory and in its subfolders, in small letters.
pub open spec fn names_in(entries: Seq<DirEntry>) -> Set<Seq<char>>
    decreases entries.len(),
{
    if entries.len() == 0 {
        Set::empty()
    } else {
        match entries.last() {
            DirEntry::File(f) => names_in(entries.drop_last()).insert(text::lowered(f.name@)),
            DirEntry::Dir(files) => names_in(entries.drop_last()).union(file_names(files@)),
        }
    }
}

/// The SFV file of a directory: the last one that is listed.
pub open spec fn sfv_in(entries: Seq<DirEntry>) -> Option<Seq<char>>
    decreases entries.len(),
{
    if entries.len() == 0 {
        None
    } else {
        match entries.last() {
            DirEntry::File(f) => if text::ends(text::lowered(f.name@), ".sfv"@) {
                Some(f.name@)
            } else {
                sfv_in(entries.drop_last())
            },
            DirEntry::Dir(_) => sfv_in(entries.drop_last()),
        }
    }
}

fn add_names(names: &mut FileNames, files: &Vec<FileEntry>)
    ensures
        final(names)@ == old(names)@.union(file_names(files@)),
{
    let ghost before = names@;
    let mut i: usize = 0;
    proof {
        assert(files@.take(0) =~= Seq::<FileEntry>::empty());
        assert(before =~= before.union(file_names(files@.take(0))));
    }
    while i < files.len()
        invariant
            i <= files@.len(),
            names@ == before.union(file_names(files@.take(i as int))),
        decreases files@.len() - i,
    {
        proof {
            assert(files@.take(i + 1).drop_last() =~= files@.take(i as int));
        }
        let low = text::lowered_text(files[i].name.as_str());
        names.insert_new(low, files[i].name.clone());
        proof {
            assert(names@ =~= before.union(file_names(files@.take(i + 1))));
        }
        i += 1;
    }
    proof {
        assert(files@.take(i as int) =~= files@);
    }
}

/// The files of a directory and of its subfolders, by their names in small letters.
fn collect_names(entries: &Vec<DirEntry>) -> (names: FileNames)
    ensures
        names@ == names_in(entries@),
{
    let mut names = FileNames::new();
    let mut i: usize = 0;
    proof {
        assert(entries@.take(0) =~= Seq::<DirEntry>::empty());
    }
    while i < entries.len()
        invariant
            i <= entries@.len(),
            names@ == names_in(entries@.take(i as int)),
        decreases entries@.len() - i,
    {
        proof {
            assert(entries@.take(i + 1).drop_last() =~= entries@.take(i as int));
        }
        match &entries[i] {
            DirEntry::File(f) => {
                let low = text::lowered_text(f.name.as_str());
                names.insert(low, f.name.clone());
            },
            DirEntry::Dir(files) => {
                add_names(&mut names, files);
            },
        }
        i += 1;
    }
    proof {
        assert(entries@.take(i as int) =~= entries@);
    }
    names
}

/// The name of the SFV file of a directory.
pub fn find_sfv_name(entries: &Vec<DirEntry>) -> (r: Option<String>)
    ensures
        match r {
            Some(n) => sfv_in(entries@) == Some(n@),
            None => sfv_in(entries@) is None,
        },
{
    let mut i: usize = entries.len();
    proof {
        assert(entries@.take(i as int) =~= entries@);
    }
    while i > 0
        invariant
            i <= entries@.len(),
            sfv_in(entries@.take(i as int)) == sfv_in(entries@),
        decreases i,
    {
        proof {
            assert(entries@.take(i as int).drop_last() =~= entries@.take(i - 1));
            assert(entries@.take(i as int).last() == entries@[i - 1]);
        }
        if let DirEntry::File(f) = &entries[i - 1] {
            let low = text::lowered_text(f.name.as_str());
            if text::text_ends_with(low.as_str(), ".sfv") {
                return Some(f.name.clone());
            }
        }
        i -= 1;
    }
    None
}

/// The two layers of a merged tree.
pub struct LayerPaths {
    pub verified: PathName,
    pub unverified: PathName,
}

/// Decides what the mount shows.
pub struct FilterEngine {
    pub handle: FilterReloadHandle,
    /// The overlay, where it takes part in filtering.
    pub overlay: Option<LayerPaths>,
    /// The union mount, where it takes part in filtering.
    pub unionfs: Option<LayerPaths>,
    pub read_only: bool,
    pub no_delete: bool,
    pub backend_path: PathName,
    pub dir_cache: DashMap<String, (bool, u64)>,
    pub cache_ttl_secs: u64,
}

/// The layers are the given ones.
pub open spec fn layers_are(l: Option<LayerPaths>, on: bool, v: Seq<char>, u: Seq<char>) -> bool {
    match l {
        Some(p) => on && p.verified@ == v && p.unverified@ == u,
        None => !on,
    }
}

/// Where a path may lie in the layers: the unverified layer goes before the verified one.
pub open spec fn layer_places(l: Option<LayerPaths>, rel: Seq<char>) -> Seq<(Seq<char>, Layer)> {
    match l {
        Some(p) => seq![
            (path::joined(p.unverified@, rel), Layer::Unverified),
            (path::joined(p.verified@, rel), Layer::Verified),
        ],
        None => Seq::empty(),
    }
}

/// The first place that exists.
pub open spec fn first_existing(
    places: Seq<(Seq<char>, Layer)>,
    exists_there: Seq<bool>,
) -> Option<(Seq<char>, Layer)>
    decreases places.len(),
{
    if places.len() == 0 {
        None
    } else if exists_there[0] {
        Some(places[0])
    } else {
        first_existing(places.drop_first(), exists_there.drop_first())
    }
}

pub open spec fn place_views(v: Seq<(PathName, Layer)>) -> Seq<(Seq<char>, Layer)> {
    Seq::new(v.len(), |i: int| (v[i].0@, v[i].1))
}

/// The text contains one of the indicators.
pub open spec fn indicated(indicators: Seq<Seq<char>>, t: Seq<char>) -> bool {
    exists|i: int| 0 <= i < indicators.len() && text::contains(t, #[trigger] indicators[i])
}

fn contains_indicator(indicators: &Vec<String>, t: &str) -> (r: bool)
    ensures
        r == indicated(text::views(indicators@), t@),
{
    let ghost all = text::views(indicators@);
    let mut i: usize = 0;
    while i < indicators.len()
        invariant
            i <= indicators@.len(),
            all == text::views(indicators@),
            forall|j: int| 0 <= j < i ==> !text::contains(t@, #[trigger] all[j]),
        decreases indicators@.len() - i,
    {
        proof {
            assert(all[i as int] == indicators@[i as int]@);
        }
        if text::text_contains(t, indicators[i].as_str()) {
            return true;
        }
        i += 1;
    }
    false
}

/// The mode of a path: that of its layer, where it has one; otherwise what the indicators
/// say, and after them the default.
pub open spec fn mode_of(sfv: Option<SfvRules>, layer: Option<Layer>, t: Seq<char>) -> SfvMode {
    match sfv {
        None => SfvMode::Permissive,
        Some(rules) => match layer {
            Some(Layer::Verified) => SfvMode::Strict,
            Some(Layer::Unverified) => SfvMode::Permissive,
            None => if indicated(text::views(rules.verified_indicators@), t) {
                SfvMode::Strict
            } else if indicated(text::views(rules.unverified_indicators@), t) {
                SfvMode::Permissive
            } else {
                rules.default_mode
            },
        },
    }
}

/// The mode in which a release is judged: its layer decides alone, where it has one.
pub open spec fn release_mode(sfv: Option<SfvRules>, layer: Option<Layer>, t: Seq<char>) -> SfvMode {
    match layer {
        Some(Layer::Verified) => SfvMode::Strict,
        Some(Layer::Unverified) => SfvMode::Permissive,
        None => mode_of(sfv, None, t),
    }
}

/// Why a directory is hidden.
#[derive(Debug, Clone, Copy, PartialEq, Eq, Structural)]
pub enum HiddenReason {
    StrictWithoutSfv,
    StrictInvalid,
    PermissiveInvalid,
}

impl HiddenReason {
    pub open spec fn words(self) -> Seq<char> {
        match self {
            HiddenReason::StrictWithoutSfv => "strict mode, no SFV file"@,
            HiddenReason::StrictInvalid => "strict mode, SFV validation failed"@,
            HiddenReason::PermissiveInvalid => "permissive mode, SFV validation failed"@,
        }
    }

    pub fn text(self) -> (r: &'static str)
        ensures
            r@ == self.words(),
    {
        match self {
            HiddenReason::StrictWithoutSfv => "strict mode, no SFV file",
            HiddenReason::StrictInvalid => "strict mode, SFV validation failed",
            HiddenReason::PermissiveInvalid => "permissive mode, SFV validation failed",
        }
    }
}

/// What the file system says of a directory.
pub struct DirectoryProbe {
    /// The layer that the directory comes from.
    pub layer: Option<Layer>,
    /// The files that the backend lists; `None` where it cannot be read.
    pub backend_files: Option<Vec<String>>,
    /// What the source lists; `None` where it cannot be read.
    pub source_entries: Option<Vec<DirEntry>>,
    /// What the SFV file holds; `None` where it cannot be read.
    pub sfv_content: Option<String>,
}

/// The directory is a release to validate: the backend shows media files, and the source can
/// be read.
pub open spec fn is_release(hot: HotConfig, p: DirectoryProbe) -> bool {
    &&& p.backend_files is Some
    &&& any_media(text::views(hot.media_extensions@), text::views(p.backend_files->0@))
    &&& p.source_entries is Some
}

/// The files of a release are all there, as far as its SFV file can be read.
pub open spec fn sfv_passes(p: DirectoryProbe) -> bool {
    match p.sfv_content {
        Some(c) => sfv::all_present(c@, names_in(p.source_entries->0@)),
        None => true,
    }
}

/// Why a directory is hidden, if it is: only releases are, in strict mode without a valid
/// SFV file, in permissive mode with an invalid one where those are validated.
pub open spec fn hidden(hot: HotConfig, t: Seq<char>, p: DirectoryProbe) -> Option<HiddenReason> {
    if !is_release(hot, p) {
        None
    } else {
        let has_sfv = sfv_in(p.source_entries->0@) is Some;
        let validates = hot.sfv matches Some(rules) && rules.permissive_validates;
        match release_mode(hot.sfv, p.layer, t) {
            SfvMode::Permissive => if validates && has_sfv && !sfv_passes(p) {
                Some(HiddenReason::PermissiveInvalid)
            } else {
                None
            },
            SfvMode::Strict => if !has_sfv {
                Some(HiddenReason::StrictWithoutSfv)
            } else if !sfv_passes(p) {
                Some(HiddenReason::StrictInvalid)
            } else {
                None
            },
        }
    }
}

impl FilterEngine {
    /// The settings that a reload replaces.
    pub open spec fn hot(&self) -> HotConfig {
        self.handle.0
    }

    pub open spec fn cache(&self) -> Map<Seq<char>, (bool, u64)> {
        cache_entries(self.dir_cache)
    }

    /// Nothing but the decisions differs.
    pub open spec fn same_rules(&self, other: FilterEngine) -> bool {
        &&& self.handle == other.handle
        &&& self.overlay == other.overlay
        &&& self.unionfs == other.unionfs
        &&& self.read_only == other.read_only
        &&& self.no_delete == other.no_delete
        &&& self.backend_path == other.backend_path
        &&& self.cache_ttl_secs == other.cache_ttl_secs
    }

    pub fn new(backend_path: PathName, config: &Config) -> (r: Self)
        ensures
            r.hot().matches(*config),
            match config.overlay_reference {
                Some(o) => layers_are(
                    r.overlay,
                    o.use_for_filtering == Some(true),
                    o.verified_share_path@,
                    o.unverified_share_path@,
                ),
                None => r.overlay is None,
            },
            match config.unionfs_reference {
                Some(u) => layers_are(
                    r.unionfs,
                    u.use_for_filtering == Some(true),
                    u.verified_share_path@,
                    u.unverified_share_path@,
                ),
                None => r.unionfs is None,
            },
            r.read_only == (config.read_only == Some(true)),
            r.no_delete == (config.no_delete != Some(false)),
            r.backend_path@ == backend_path@,
            r.cache() == no_entries(),
            r.cache_ttl_secs == (match config.filters {
                Some(FiltersConfig { rar_archives: Some(rar), .. }) => match rar.cache_timeout {
                    Some(n) => n,
                    None => DEFAULT_CACHE_TTL_SECS,
                },
                _ => DEFAULT_CACHE_TTL_SECS,
            }),
    {
        let overlay = match &config.overlay_reference {
            Some(o) => if o.use_for_filtering == Some(true) {
                Some(
                    LayerPaths {
                        verified: o.verified_share_path.clone(),
                        unverified: o.unverified_share_path.clone(),
                    },
                )
            } else {
                None
            },
            None => None,
        };
        let unionfs = match &config.unionfs_reference {
            Some(u) => if u.use_for_filtering == Some(true) {
                Some(
                    LayerPaths {
                        verified: u.verified_share_path.clone(),
                        unverified: u.unverified_share_path.clone(),
                    },
                )
            } else {
                None
            },
            None => None,
        };
        let ttl: u64 = match &config.filters {
            Some(f) => match &f.rar_archives {
                Some(rar) => match rar.cache_timeout {
                    Some(n) => n,
                    None => DEFAULT_CACHE_TTL_SECS,
                },
                None => DEFAULT_CACHE_TTL_SECS,
            },
            None => DEFAULT_CACHE_TTL_SECS,
        };
        FilterEngine {
            handle: FilterReloadHandle(HotConfig::from_config(config)),
            overlay,
            unionfs,
            read_only: config.read_only == Some(true),
            no_delete: config.no_delete != Some(false),
            backend_path,
            dir_cache: cache_new(),
            cache_ttl_secs: ttl,
        }
    }

    /// Takes the settings of a configuration that was read anew; layers, protection and
    /// earlier decisions stay.
    pub fn reload(&mut self, config: &Config)
        ensures
            final(self).hot().matches(*config),
            final(self).overlay == old(self).overlay,
            final(self).unionfs == old(self).unionfs,
            final(self).read_only == old(self).read_only,
            final(self).no_delete == old(self).no_delete,
            final(self).backend_path == old(self).backend_path,
            final(self).cache_ttl_secs == old(self).cache_ttl_secs,
            final(self).cache() == old(self).cache(),
    {
        self.handle.reload(config);
    }

    pub fn read_only_enabled(&self) -> (r: bool)
        ensures
            r == self.read_only,
    {
        self.read_only
    }

    pub fn no_delete_enabled(&self) -> (r: bool)
        ensures
            r == self.no_delete,
    {
        self.no_delete
    }

    /// Tests whether a file has a media extension.
    pub fn is_media_file(&self, filename: &str) -> (r: bool)
        ensures
            r == media_named(text::views(self.hot().media_extensions@), filename@),
    {
        has_media_extension(&self.handle.0.media_extensions, filename)
    }

    /// The path is the root of the mount.
    pub open spec fn at_root(&self, t: Seq<char>) -> bool {
        path::parts(t) == path::parts(self.backend_path@)
    }

    /// A directory is not excluded by name, and at the root it is on the list of those to
    /// show, where there is one.
    pub open spec fn name_allowed(&self, parent: Seq<char>, name: Seq<char>) -> bool {
        &&& !text::views(self.hot().exclude_dirs@).contains(text::lowered(name))
        &&& self.at_root(parent) && self.hot().include_dirs@.len() > 0 ==> text::views(
            self.hot().include_dirs@,
        ).contains(text::lowered(name))
    }

    /// Tests whether the name of a directory lets it be shown.
    pub fn should_show_directory_basic_filter(&self, parent_path: &PathName, dirname: &str) -> (r:
        bool)
        ensures
            r == self.name_allowed(parent_path@, dirname@),
    {
        let low = text::lowered_text(dirname);
        if text::has_text(&self.handle.0.exclude_dirs, low.as_str()) {
            return false;
        }
        if self.handle.0.include_dirs.len() > 0 && parent_path.same(&self.backend_path) {
            return text::has_text(&self.handle.0.include_dirs, low.as_str());
        }
        true
    }

    /// Directories are validated while they are listed.
    pub open spec fn validates_listings(&self) -> bool {
        self.hot().sfv matches Some(rules) && rules.enabled && !rules.lazy_mode
    }

    /// Tests whether the decision about a directory depends on its content.
    pub fn needs_validation(&self, parent_path: &PathName, dirname: &str) -> (r: bool)
        ensures
            r == (self.validates_listings() && self.name_allowed(parent_path@, dirname@)),
    {
        let on = match &self.handle.0.sfv {
            Some(rules) => rules.enabled && !rules.lazy_mode,
            None => false,
        };
        on && self.should_show_directory_basic_filter(parent_path, dirname)
    }

    /// A directory of a listing is shown: its name is allowed, and it passes where listings
    /// are validated.
    pub open spec fn lists_directory(&self, parent: Seq<char>, name: Seq<char>, passes: bool) -> bool {
        self.name_allowed(parent, name) && (self.validates_listings() ==> passes)
    }

    /// Which directories of a listing are shown. `infos` holds the decision about each
    /// directory that `needs_validation` names; the others do not count.
    pub fn should_show_directories_parallel(
        &self,
        parent_path: &PathName,
        dirnames: &Vec<String>,
        infos: &Vec<bool>,
    ) -> (r: Vec<bool>)
        requires
            infos@.len() == dirnames@.len(),
        ensures
            r@.len() == dirnames@.len(),
            forall|i: int|
                0 <= i < r@.len() ==> #[trigger] r@[i] == self.lists_directory(
                    parent_path@,
                    dirnames@[i]@,
                    infos@[i],
                ),
    {
        let on = match &self.handle.0.sfv {
            Some(rules) => rules.enabled && !rules.lazy_mode,
            None => false,
        };
        let mut r: Vec<bool> = Vec::new();
        let mut i: usize = 0;
        while i < dirnames.len()
            invariant
                i <= dirnames@.len(),
                infos@.len() == dirnames@.len(),
                on == self.validates_listings(),
                r@.len() == i,
                forall|j: int|
                    0 <= j < i ==> #[trigger] r@[j] == self.lists_directory(
                        parent_path@,
                        dirnames@[j]@,
                        infos@[j],
                    ),
            decreases dirnames@.len() - i,
        {
            let allowed = self.should_show_directory_basic_filter(
                parent_path,
                dirnames[i].as_str(),
            );
            r.push(allowed && (!on || infos[i]));
            i += 1;
        }
        r
    }

    /// The places in the layers where a backend path may lie.
    pub open spec fn places(&self, t: Seq<char>) -> Seq<(Seq<char>, Layer)> {
        match path::relative(t, self.backend_path@) {
            Some(rel) => layer_places(self.overlay, rel) + layer_places(self.unionfs, rel),
            None => Seq::empty(),
        }
    }

    /// The places in the layers where a backend path may lie, in the order in which they are
    /// tried.
    pub fn source_layer_candidates(&self, backend_path: &PathName) -> (r: Vec<(PathName, Layer)>)
        ensures
            place_views(r@) == self.places(backend_path@),
    {
        let mut r: Vec<(PathName, Layer)> = Vec::new();
        proof {
            assert(place_views(r@) =~= Seq::<(Seq<char>, Layer)>::empty());
        }
        match backend_path.strip_prefix(&self.backend_path) {
            Some(rel) => {
                push_places(&mut r, &self.overlay, &rel);
                push_places(&mut r, &self.unionfs, &rel);
                proof {
                    assert(place_views(r@) =~= self.places(backend_path@));
                }
            },
            None => {},
        }
        r
    }

    /// The place of a backend path in the layers; `exists_there` tells of each candidate in
    /// turn whether it exists. Content in the unverified layer counts as unverified.
    pub fn get_source_layer_path(&self, backend_path: &PathName, exists_there: &Vec<bool>) -> (r:
        Option<(PathName, Layer)>)
        requires
            exists_there@.len() == self.places(backend_path@).len(),
        ensures
            match r {
                Some((p, l)) => first_existing(self.places(backend_path@), exists_there@) == Some(
                    (p@, l),
                ),
                None => first_existing(self.places(backend_path@), exists_there@) is None,
            },
    {
        let places = self.source_layer_candidates(backend_path);
        let ghost all = self.places(backend_path@);
        let mut i: usize = 0;
        proof {
            assert(place_views(places@).len() == places@.len());
            assert(all.skip(0) =~= all);
            assert(exists_there@.skip(0) =~= exists_there@);
        }
        while i < places.len()
            invariant
                i <= places@.len(),
                all == self.places(backend_path@),
                all == place_views(places@),
                exists_there@.len() == places@.len(),
                first_existing(all.skip(i as int), exists_there@.skip(i as int))
                    == first_existing(all, exists_there@),
            decreases places@.len() - i,
        {
            proof {
                assert(all.skip(i as int)[0] == (places@[i as int].0@, places@[i as int].1));
                assert(all.skip(i as int).drop_first() =~= all.skip(i + 1));
                assert(exists_there@.skip(i as int).drop_first() =~= exists_there@.skip(i + 1));
            }
            if exists_there[i] {
                return Some((places[i].0.clone(), places[i].1));
            }
            i += 1;
        }
        None
    }

    /// The mode of a path that comes from the given layer.
    pub fn get_sfv_mode(&self, backend_path: &PathName, layer: Option<Layer>) -> (r: SfvMode)
        ensures
            r == mode_of(self.hot().sfv, layer, backend_path@),
    {
        let rules = match &self.handle.0.sfv {
            Some(rules) => rules,
            None => {
                return SfvMode::Permissive;
            },
        };
        match layer {
            Some(Layer::Verified) => SfvMode::Strict,
            Some(Layer::Unverified) => SfvMode::Permissive,
            None => {
                if contains_indicator(&rules.verified_indicators, backend_path.as_str()) {
                    SfvMode::Strict
                } else if contains_indicator(&rules.unverified_indicators, backend_path.as_str()) {
                    SfvMode::Permissive
                } else {
                    rules.default_mode
                }
            },
        }
    }

    /// A file is shown only as long as its directory passes: validation is on and lazy, and
    /// the directory has a mode that validates.
    pub open spec fn file_depends(&self, dir: Seq<char>, layer: Option<Layer>) -> bool {
        self.hot().sfv matches Some(rules) && rules.enabled && rules.lazy_mode && (mode_of(
            self.hot().sfv,
            layer,
            dir,
        ) == SfvMode::Strict || rules.permissive_validates)
    }

    /// An entry is hidden by its name, or because it stands at the root and is not on the
    /// list of what to show there, where there is one.
    pub open spec fn file_hidden_by_name(&self, parent: Seq<char>, name: Seq<char>) -> bool {
        ||| self.hot().hide_archives && archive_named(text::lowered(name))
        ||| fits_any(text::views(self.hot().exclude_file_patterns@), text::lowered(name))
        ||| self.at_root(parent) && self.hot().include_dirs@.len() > 0 && !text::views(
            self.hot().include_dirs@,
        ).contains(text::lowered(name))
    }

    /// Tests whether a file is hidden whatever its directory holds.
    pub fn is_file_hidden_by_name(&self, parent_path: &PathName, filename: &str) -> (r: bool)
        ensures
            r == self.file_hidden_by_name(parent_path@, filename@),
    {
        if self.handle.0.hide_archives && is_rar_archive(filename) {
            return true;
        }
        let low = text::lowered_text(filename);
        if matches_any(&self.handle.0.exclude_file_patterns, low.as_str()) {
            return true;
        }
        self.handle.0.include_dirs.len() > 0 && parent_path.same(&self.backend_path)
            && !text::has_text(&self.handle.0.include_dirs, low.as_str())
    }

    /// Tests whether a file is shown only where its directory passes.
    pub fn file_needs_directory(&self, parent_path: &PathName, layer: Option<Layer>) -> (r: bool)
        ensures
            r == self.file_depends(parent_path@, layer),
    {
        match &self.handle.0.sfv {
            Some(rules) => {
                if !rules.enabled || !rules.lazy_mode {
                    return false;
                }
                match self.get_sfv_mode(parent_path, layer) {
                    SfvMode::Strict => true,
                    SfvMode::Permissive => rules.permissive_validates,
                }
            },
            None => false,
        }
    }

    /// A file is shown: its name does not hide it, and its directory is shown where that
    /// matters.
    pub open spec fn lists_file(
        &self,
        parent: Seq<char>,
        name: Seq<char>,
        layer: Option<Layer>,
        directory_shown: bool,
    ) -> bool {
        !self.file_hidden_by_name(parent, name) && (self.file_depends(parent, layer)
            ==> directory_shown)
    }

    /// Tests whether a file is shown. `directory_shown` is the decision about its directory,
    /// which counts only where `file_needs_directory` says so.
    pub fn should_show_file(
        &self,
        parent_path: &PathName,
        filename: &str,
        layer: Option<Layer>,
        directory_shown: bool,
    ) -> (r: bool)
        ensures
            r == self.lists_file(parent_path@, filename@, layer, directory_shown),
    {
        if self.is_file_hidden_by_name(parent_path, filename) {
            return false;
        }
        !self.file_needs_directory(parent_path, layer) || directory_shown
    }

    /// The decision about a directory that still holds.
    pub open spec fn decided(&self, t: Seq<char>, now: u64) -> Option<DirectoryInfo> {
        let k = path::key(t);
        if self.cache().dom().contains(k) && now >= self.cache()[k].1
            && media_notifier_common::seconds_since(now, self.cache()[k].1) < self.cache_ttl_secs {
            Some(DirectoryInfo { should_show: self.cache()[k].0, timestamp: self.cache()[k].1 })
        } else {
            None
        }
    }

    /// The decision about a directory that still holds.
    pub fn cached_directory_info(&self, backend_dir_path: &PathName, now: u64) -> (r: Option<
        DirectoryInfo,
    >)
        ensures
            r == self.decided(backend_dir_path@, now),
    {
        let k = backend_dir_path.key();
        match cache_get(&self.dir_cache, k.as_str()) {
            Some((should_show, timestamp)) => if now >= timestamp
                && media_notifier_common::elapsed_secs(now, timestamp) < self.cache_ttl_secs {
                Some(DirectoryInfo { should_show, timestamp })
            } else {
                None
            },
            None => None,
        }
    }

    /// Why a directory is hidden, if it is.
    pub fn judge(&self, backend_dir_path: &PathName, p: &DirectoryProbe) -> (r: Option<
        HiddenReason,
    >)
        ensures
            r == hidden(self.hot(), backend_dir_path@, *p),
    {
        let files = match &p.backend_files {
            Some(files) => files,
            None => {
                return None;
            },
        };
        if !has_media_file(&self.handle.0.media_extensions, files) {
            return None;
        }
        let entries = match &p.source_entries {
            Some(entries) => entries,
            None => {
                return None;
            },
        };
        let has_sfv = find_sfv_name(entries).is_some();
        let passes = match &p.sfv_content {
            Some(c) => {
                let names = collect_names(entries);
                sfv::validate_sfv_content_with_map(c.as_str(), &names)
            },
            None => true,
        };
        let validates = match &self.handle.0.sfv {
            Some(rules) => rules.permissive_validates,
            None => false,
        };
        let mode = match p.layer {
            Some(Layer::Verified) => SfvMode::Strict,
            Some(Layer::Unverified) => SfvMode::Permissive,
            None => self.get_sfv_mode(backend_dir_path, None),
        };
        match mode {
            SfvMode::Permissive => if validates && has_sfv && !passes {
                Some(HiddenReason::PermissiveInvalid)
            } else {
                None
            },
            SfvMode::Strict => if !has_sfv {
                Some(HiddenReason::StrictWithoutSfv)
            } else if !passes {
                Some(HiddenReason::StrictInvalid)
            } else {
                None
            },
        }
    }

    /// How much a counter grows with the decision about a directory.
    pub open spec fn tally(&self, t: Seq<char>, now: u64, p: DirectoryProbe, c: Counter) -> u64 {
        let hit = self.decided(t, now) is Some;
        let evaluated = !hit && is_release(self.hot(), p);
        let shown = hidden(self.hot(), t, p) is None;
        match c {
            Counter::CacheHits => if hit {
                1
            } else {
                0
            },
            Counter::CacheMisses => if hit {
                0
            } else {
                1
            },
            Counter::SfvPassed => if evaluated && shown {
                1
            } else {
                0
            },
            Counter::SfvFailed => if evaluated && !shown {
                1
            } else {
                0
            },
            _ => 0,
        }
    }

    /// The directory is shown: by the last decision where it still holds, otherwise by what
    /// the file system says of it.
    pub open spec fn shown_at(&self, t: Seq<char>, now: u64, p: DirectoryProbe) -> bool {
        match self.decided(t, now) {
            Some(info) => info.should_show,
            None => hidden(self.hot(), t, p) is None,
        }
    }

    /// Decides about a directory: the last decision where it still holds, otherwise a new one,
    /// which is kept.
    pub fn get_directory_info(
        &mut self,
        backend_dir_path: &PathName,
        now: u64,
        p: &DirectoryProbe,
        metrics: &mut MetricsCollector,
    ) -> (r: DirectoryInfo)
        ensures
            final(self).same_rules(*old(self)),
            r.should_show == old(self).shown_at(backend_dir_path@, now, *p),
            match old(self).decided(backend_dir_path@, now) {
                Some(info) => r == info && final(self).cache() == old(self).cache(),
                None => r == (DirectoryInfo {
                    should_show: hidden(old(self).hot(), backend_dir_path@, *p) is None,
                    timestamp: now,
                }) && final(self).cache() == old(self).cache().insert(
                    path::key(backend_dir_path@),
                    (r.should_show, now),
                ),
            },
            final(metrics).stuck() == old(metrics).stuck(),
            final(metrics).start() == old(metrics).start(),
            final(metrics).inotify_watches == old(metrics).inotify_watches,
            forall|c: Counter| #[trigger]
                final(metrics).count(c) == old(metrics).count(c).wrapping_add(
                    old(self).tally(backend_dir_path@, now, *p, c),
                ),
    {
        if let Some(info) = self.cached_directory_info(backend_dir_path, now) {
            metrics.bump(Counter::CacheHits, 1);
            return info;
        }
        metrics.bump(Counter::CacheMisses, 1);
        let should_show = self.judge(backend_dir_path, p).is_none();
        let evaluated = match &p.backend_files {
            Some(files) => has_media_file(&self.handle.0.media_extensions, files)
                && p.source_entries.is_some(),
            None => false,
        };
        if evaluated {
            if should_show {
                metrics.bump(Counter::SfvPassed, 1);
            } else {
                metrics.bump(Counter::SfvFailed, 1);
            }
        }
        let k = backend_dir_path.key();
        cache_insert(&mut self.dir_cache, k, (should_show, now));
        DirectoryInfo { should_show, timestamp: now }
    }

    /// Forgets the decision about a path.
    pub fn invalidate(&mut self, backend_path: &PathName) -> (r: bool)
        ensures
            final(self).same_rules(*old(self)),
            final(self).cache() == old(self).cache().remove(path::key(backend_path@)),
            r == old(self).cache().dom().contains(path::key(backend_path@)),
    {
        let k = backend_path.key();
        cache_remove(&mut self.dir_cache, k.as_str())
    }

    /// Forgets the decisions about a path that changed and about its parent, whose listing the
    /// change may affect.
    pub fn invalidate_change(&mut self, backend_path: &PathName)
        ensures
            final(self).same_rules(*old(self)),
            final(self).cache() == (match path::parent_of(backend_path@) {
                Some(d) => old(self).cache().remove(path::key(backend_path@)).remove(path::key(d)),
                None => old(self).cache().remove(path::key(backend_path@)),
            }),
    {
        self.invalidate(backend_path);
        if let Some(d) = backend_path.parent() {
            self.invalidate(&d);
        }
    }

    /// A file changed so recently that its download is still going on.
    pub open spec fn downloading(&self, ages: Seq<FileAge>) -> bool {
        exists|i: int|
            0 <= i < ages.len() && (#[trigger] ages[i] matches FileAge::Seconds(n) && n
                < self.hot().download_threshold_secs)
    }

    /// Tests whether one of some files was changed so recently that a download is going on.
    pub fn is_download_in_progress(&self, ages: &Vec<FileAge>) -> (r: bool)
        ensures
            r == self.downloading(ages@),
    {
        let mut i: usize = 0;
        while i < ages.len()
            invariant
                i <= ages@.len(),
                forall|j: int|
                    0 <= j < i ==> !(#[trigger] ages@[j] matches FileAge::Seconds(n) && n
                        < self.hot().download_threshold_secs),
            decreases ages@.len() - i,
        {
            if let FileAge::Seconds(n) = ages[i] {
                if n < self.handle.0.download_threshold_secs {
                    return true;
                }
            }
            i += 1;
        }
        false
    }

    /// Whether, and where, a hidden directory is written down: not while it is still being
    /// downloaded.
    pub open spec fn failure_log(&self, ages: Seq<FileAge>) -> Option<Seq<char>> {
        match self.hot().sfv {
            Some(rules) => if rules.log_failures && !self.downloading(ages) {
                match rules.log_file {
                    Some(f) => Some(f@),
                    None => None,
                }
            } else {
                None
            },
            None => None,
        }
    }

    /// The file in which a hidden directory is written down, if it is; `ages` tells of the
    /// files in the directory.
    pub fn failure_log_file(&self, ages: &Vec<FileAge>) -> (r: Option<PathName>)
        ensures
            match r {
                Some(f) => self.failure_log(ages@) == Some(f@),
                None => self.failure_log(ages@) is None,
            },
    {
        match &self.handle.0.sfv {
            Some(rules) => {
                if !rules.log_failures {
                    return None;
                }
                if self.is_download_in_progress(ages) {
                    return None;
                }
                match &rules.log_file {
                    Some(f) => Some(f.clone()),
                    None => None,
                }
            },
            None => None,
        }
    }
}

fn push_places(r: &mut Vec<(PathName, Layer)>, l: &Option<LayerPaths>, rel: &PathName)
    ensures
        place_views(final(r)@) == place_views(old(r)@) + layer_places(*l, rel@),
{
    let ghost before = r@;
    if let Some(p) = l {
        r.push((p.unverified.join(rel.as_str()), Layer::Unverified));
        r.push((p.verified.join(rel.as_str()), Layer::Verified));
    }
    proof {
        assert(place_views(r@) =~= place_views(before) + layer_places(*l, rel@));
    }
}

/// A line about a hidden directory.
pub open spec fn failure_words(
    timestamp: Seq<char>,
    dir: Seq<char>,
    reason: HiddenReason,
    has_sfv: bool,
) -> Seq<char> {
    "["@ + timestamp + "] HIDDEN: "@ + dir + " (reason: "@ + reason.words()
        + ", hasMedia: true, hasSFV: "@ + (if has_sfv {
        "true"@
    } else {
        "false"@
    }) + ")\n"@
}

/// Writes a line about a hidden directory.
pub fn failure_line(timestamp: &str, dir: &PathName, reason: HiddenReason, has_sfv: bool) -> (r:
    String)
    ensures
        r@ == failure_words(timestamp@, dir@, reason, has_sfv),
{
    let mut s = "[".to_owned();
    s.append(timestamp);
    s.append("] HIDDEN: ");
    s.append(dir.as_str());
    s.append(" (reason: ");
    s.append(reason.text());
    s.append(", hasMedia: true, hasSFV: ");
    if has_sfv {
        s.append("true");
    } else {
        s.append("false");
    }
    s.append(")\n");
    s
}

proof fn found_is_named(entries: Seq<DirEntry>, low: Seq<char>)
    ensures
        names_in(entries).contains(low) <==> sfv::found(entries, low) is Some,
    decreases entries.len(),
{
    if entries.len() > 0 {
        let rest = entries.drop_last();
        found_is_named(rest, low);
        one_down_at_end(entries, low);
        match entries.last() {
            DirEntry::File(_) => {},
            DirEntry::Dir(files) => {
                first_is_named(files@, low);
            },
        }
    }
}

proof fn first_is_named(files: Seq<FileEntry>, low: Seq<char>)
    ensures
        file_names(files).contains(low) <==> sfv::first_named(files, low) is Some,
    decreases files.len(),
{
    if files.len() > 0 {
        first_is_named(files.drop_last(), low);
        first_at_end(files, low);
    }
}

proof fn first_at_end(files: Seq<FileEntry>, low: Seq<char>)
    requires
        files.len() > 0,
    ensures
        sfv::first_named(files, low) is Some <==> (sfv::first_named(files.drop_last(), low) is Some
            || text::lowered(files.last().name@) == low),
    decreases files.len(),
{
    if files.len() == 1 {
        assert(files.drop_first() =~= Seq::<FileEntry>::empty());
        assert(files.drop_last() =~= Seq::<FileEntry>::empty());
        assert(sfv::first_named(files.drop_first(), low) is None);
        assert(sfv::first_named(files.drop_last(), low) is None);
    } else {
        first_at_end(files.drop_first(), low);
        assert(files.drop_first().drop_last() =~= files.drop_last().drop_first());
    }
}

proof fn one_down_at_end(entries: Seq<DirEntry>, low: Seq<char>)
    requires
        entries.len() > 0,
    ensures
        sfv::one_down(entries, low) is Some <==> (sfv::one_down(entries.drop_last(), low) is Some
            || (entries.last() matches DirEntry::Dir(files) && sfv::first_named(files@, low)
            is Some)),
    decreases entries.len(),
{
    if entries.len() == 1 {
        assert(entries.drop_first() =~= Seq::<DirEntry>::empty());
        assert(entries.drop_last() =~= Seq::<DirEntry>::empty());
        assert(sfv::one_down(entries.drop_first(), low) is None);
        assert(sfv::one_down(entries.drop_last(), low) is None);
    } else {
        one_down_at_end(entries.drop_first(), low);
        assert(entries.drop_first().drop_last() =~= entries.drop_last().drop_first());
    }
}

/// The watcher and the filter agree: a release whose files are all there and complete is
/// also one whose files are all present, so what is announced can be shown.
pub proof fn complete_releases_are_present(content: Seq<char>, entries: Seq<DirEntry>)
    requires
        sfv::all_complete(content, entries),
    ensures
        sfv::all_present(content, names_in(entries)),
{
    let ls = text::lines(content);
    assert forall|i: int| 0 <= i < ls.len() implies sfv::line_is_present(
        #[trigger] ls[i],
        names_in(entries),
    ) by {
        assert(sfv::line_is_complete(ls[i], entries));
        match sfv::listed_name(ls[i]) {
            Some(name) => {
                found_is_named(entries, text::lowered(sfv::base_name(name)));
                if name.len() == 0 {
                    assert(text::replace(name, '\\', '/') =~= name);
                    assert(sfv::base_name(name).len() == 0);
                }
            },
            None => {},
        }
    }
}

/// In permissive mode everything is shown, unless SFV files are validated there too.
pub proof fn permissive_shows_everything(hot: HotConfig, t: Seq<char>, p: DirectoryProbe)
    requires
        release_mode(hot.sfv, p.layer, t) == SfvMode::Permissive,
        !(hot.sfv matches Some(rules) && rules.permissive_validates),
    ensures
        hidden(hot, t, p) is None,
{
}

/// In strict mode a release is shown exactly when it has an SFV file and all files that it
/// lists are present, or it cannot be read.
pub proof fn strict_requires_a_valid_sfv(hot: HotConfig, t: Seq<char>, p: DirectoryProbe)
    requires
        release_mode(hot.sfv, p.layer, t) == SfvMode::Strict,
        is_release(hot, p),
    ensures
        hidden(hot, t, p) is None <==> sfv_in(p.source_entries->0@) is Some && sfv_passes(p),
{
}

/// Where the root has a list of what to show, nothing else stands there, whatever its SFV
/// file says; below the root the list does not matter.
pub proof fn root_shows_only_the_list(
    e: FilterEngine,
    parent: Seq<char>,
    name: Seq<char>,
)
    requires
        e.hot().include_dirs@.len() > 0,
        !text::views(e.hot().include_dirs@).contains(text::lowered(name)),
    ensures
        e.at_root(parent) ==> !e.name_allowed(parent, name) && e.file_hidden_by_name(parent, name),
        !e.at_root(parent) ==> (e.name_allowed(parent, name) <==> !text::views(
            e.hot().exclude_dirs@,
        ).contains(text::lowered(name))),
{
}

/// Content that lies in both layers counts as unverified.
pub proof fn unverified_layer_goes_first(
    l: LayerPaths,
    rel: Seq<char>,
    exists_there: Seq<bool>,
)
    requires
        exists_there.len() == 2,
        exists_there[0],
    ensures
        first_existing(layer_places(Some(l), rel), exists_there) == Some(
            (path::joined(l.unverified@, rel), Layer::Unverified),
        ),
{
}

} // verus!
