//! The notifier for Plex: which section of the library a path belongs to, and what is
//! scanned when files change.

use crate::config::PathMappingConfig;
use crate::config::PlexConfig;
use crate::emby_notifier;
use crate::emby_notifier::Fallback;
use crate::media_notifier_common;
use crate::media_notifier_common::BatchProcessor;
use crate::media_notifier_common::ItemCache;
use crate::media_notifier_common::PathProbe;
use crate::metrics::Counter;
use crate::metrics::MetricsCollector;
use crate::path;
use crate::path::PathName;
use crate::path_set;
use crate::path_set::PathSet;
use crate::text;
use vstd::prelude::*;
use vstd::string::*;

verus! {

broadcast use vstd::string::group_string_axioms;

/// A section of the library.
#[derive(Debug)]
pub struct PlexDirectory {
    pub key: String,
    pub title: String,
    pub section_type: String,
}

/// A byte that stands for itself in an address.
pub open spec fn unreserved(b: u8) -> bool {
    ||| 0x30 <= b <= 0x39
    ||| 0x41 <= b <= 0x5a
    ||| 0x61 <= b <= 0x7a
    ||| b == 0x2d
    ||| b == 0x2e
    ||| b == 0x5f
    ||| b == 0x7e
}

/// A hexadecimal digit below ten, or a capital letter from there on.
pub open spec fn hex_capital(n: int) -> char {
    if n < 10 {
        (0x30 + n) as char
    } else {
        (0x41 + n - 10) as char
    }
}

/// Bytes as they stand in an address.
pub open spec fn percent_encoded(bytes: Seq<u8>) -> Seq<char>
    decreases bytes.len(),
{
    if bytes.len() == 0 {
        Seq::empty()
    } else {
        let b = bytes.last();
        percent_encoded(bytes.drop_last()) + (if unreserved(b) {
            seq![b as char]
        } else {
            seq!['%', hex_capital((b / 16) as int), hex_capital((b % 16) as int)]
        })
    }
}

/// `urlencoding::encode` writes a text in UTF-8 and every byte but letters, digits and
/// `-._~` as a percent sign and two hexadecimal digits.
#[verifier::external_body]
fn url_encode(s: &str) -> (r: String)
    ensures
        r@ == percent_encoded(vstd::utf8::encode_utf8(s@)),
{
    urlencoding::encode(s).into_owned()
}

/// The settings of the notifier, with the addresses that it calls.
pub struct PlexSettings {
    pub token: String,
    pub debounce_seconds: u64,
    pub cache_minutes: u64,
    pub fallback_full_refresh: bool,
    pub path_mapping: Option<PathMappingConfig>,
    pub max_retries: u32,
    pub retry_delay_ms: u64,
    /// Lists the sections.
    pub fetch_sections_url: String,
    /// Scans everything.
    pub full_library_url: String,
    pub section_refresh_base: String,
    pub full_refresh_cooldown_secs: u64,
}

/// The notifier for Plex.
pub struct PlexNotifier {
    pub config: PlexSettings,
    pub sections_cache: ItemCache<PlexDirectory>,
    /// When everything was last scanned.
    pub last_full_refresh: Option<u64>,
}

/// The section names that Plex commonly has.
pub open spec fn common_sections() -> Seq<Seq<char>> {
    seq!["Movies"@, "TV Shows"@, "TV"@, "Television"@, "Music"@, "Photos"@, "Home Videos"@]
}

/// The key of the first section with exactly this title.
pub open spec fn titled(sections: Seq<PlexDirectory>, t: Seq<char>) -> Option<Seq<char>>
    decreases sections.len(),
{
    if sections.len() == 0 {
        None
    } else if sections[0].title@ == t {
        Some(sections[0].key@)
    } else {
        titled(sections.drop_first(), t)
    }
}

/// The key of the first section with this title, whatever the case of its letters.
pub open spec fn titled_in_any_case(sections: Seq<PlexDirectory>, t: Seq<char>) -> Option<Seq<char>>
    decreases sections.len(),
{
    if sections.len() == 0 {
        None
    } else if text::same_ignoring_case(sections[0].title@, t) {
        Some(sections[0].key@)
    } else {
        titled_in_any_case(sections.drop_first(), t)
    }
}

/// The key of the section that a directory name means through one of the common names.
pub open spec fn commonly_titled(
    sections: Seq<PlexDirectory>,
    component: Seq<char>,
    names: Seq<Seq<char>>,
) -> Option<Seq<char>>
    decreases names.len(),
{
    if names.len() == 0 {
        None
    } else {
        let own = if text::same_ignoring_case(component, names[0]) {
            titled_in_any_case(sections, names[0])
        } else {
            None
        };
        match own {
            Some(key) => Some(key),
            None => commonly_titled(sections, component, names.drop_first()),
        }
    }
}

/// The key of the section that the first fitting one of some directory names means: the title
/// itself goes before a common name.
pub open spec fn section_of(sections: Seq<PlexDirectory>, components: Seq<Seq<char>>) -> Option<
    Seq<char>,
>
    decreases components.len(),
{
    if components.len() == 0 {
        None
    } else {
        let own = match titled(sections, components[0]) {
            Some(key) => Some(key),
            None => commonly_titled(sections, components[0], common_sections()),
        };
        match own {
            Some(key) => Some(key),
            None => section_of(sections, components.drop_first()),
        }
    }
}

fn find_titled(sections: &Vec<PlexDirectory>, t: &[char], any_case: bool) -> (r: Option<String>)
    ensures
        text::maybe(r) == (if any_case {
            titled_in_any_case(sections@, t@)
        } else {
            titled(sections@, t@)
        }),
{
    let mut i: usize = 0;
    proof {
        assert(sections@.skip(0) =~= sections@);
    }
    while i < sections.len()
        invariant
            i <= sections@.len(),
            titled(sections@.skip(i as int), t@) == titled(sections@, t@) || any_case,
            titled_in_any_case(sections@.skip(i as int), t@) == titled_in_any_case(sections@, t@)
                || !any_case,
        decreases sections@.len() - i,
    {
        proof {
            assert(sections@.skip(i as int)[0] == sections@[i as int]);
            assert(sections@.skip(i as int).drop_first() =~= sections@.skip(i + 1));
        }
        let title = text::chars_of(sections[i].title.as_str());
        let fits = if any_case {
            text::text_same_ignoring_case(&title, t)
        } else {
            text::same_chars(&title, t)
        };
        if fits {
            return Some(sections[i].key.clone());
        }
        i += 1;
    }
    None
}

fn common_names() -> (r: Vec<String>)
    ensures
        text::views(r@) == common_sections(),
{
    let mut v: Vec<String> = Vec::new();
    proof {
        assert(text::views(v@) =~= Seq::<Seq<char>>::empty());
    }
    media_notifier_common::push_text(&mut v, "Movies");
    media_notifier_common::push_text(&mut v, "TV Shows");
    media_notifier_common::push_text(&mut v, "TV");
    media_notifier_common::push_text(&mut v, "Television");
    media_notifier_common::push_text(&mut v, "Music");
    media_notifier_common::push_text(&mut v, "Photos");
    media_notifier_common::push_text(&mut v, "Home Videos");
    proof {
        assert(text::views(v@) =~= common_sections());
    }
    v
}

fn find_commonly_titled(sections: &Vec<PlexDirectory>, component: &[char]) -> (r: Option<String>)
    ensures
        text::maybe(r) == commonly_titled(sections@, component@, common_sections()),
{
    let names = common_names();
    let ghost all = common_sections();
    let mut i: usize = 0;
    proof {
        assert(all.skip(0) =~= all);
    }
    while i < names.len()
        invariant
            i <= names@.len(),
            all == common_sections(),
            text::views(names@) == all,
            commonly_titled(sections@, component@, all.skip(i as int)) == commonly_titled(
                sections@,
                component@,
                all,
            ),
        decreases names@.len() - i,
    {
        proof {
            assert(all.skip(i as int)[0] == names@[i as int]@);
            assert(all.skip(i as int).drop_first() =~= all.skip(i + 1));
        }
        let name = text::chars_of(names[i].as_str());
        if text::text_same_ignoring_case(component, &name) {
            match find_titled(sections, &name, true) {
                Some(key) => {
                    return Some(key);
                },
                None => {},
            }
        }
        i += 1;
    }
    None
}

/// The key of the section that a path belongs to: the first of its directory names that means
/// a section counts.
pub fn find_section_for_path(sections: &Vec<PlexDirectory>, path: &PathName) -> (r: Option<String>)
    ensures
        text::maybe(r) == section_of(sections@, text::split(path@, '/')),
{
    let t = text::chars_of(path.as_str());
    let components = text::split_at_char(&t, '/');
    let ghost all = text::split(path@, '/');
    let mut i: usize = 0;
    proof {
        assert(text::rows(components@).len() == components@.len());
        assert(all.skip(0) =~= all);
    }
    while i < components.len()
        invariant
            i <= components@.len(),
            all == text::split(path@, '/'),
            text::rows(components@) == all,
            text::rows(components@).len() == components@.len(),
            section_of(sections@, all.skip(i as int)) == section_of(sections@, all),
        decreases components@.len() - i,
    {
        proof {
            assert(all.skip(i as int)[0] == components@[i as int]@);
            assert(all.skip(i as int).drop_first() =~= all.skip(i + 1));
        }
        match find_titled(sections, &components[i], false) {
            Some(key) => {
                return Some(key);
            },
            None => {},
        }
        match find_commonly_titled(sections, &components[i]) {
            Some(key) => {
                return Some(key);
            },
            None => {},
        }
        i += 1;
    }
    None
}

/// The directory to scan after something in it was deleted: its own parent where it is gone
/// too.
pub open spec fn surviving(t: Seq<char>, exists_there: bool) -> Seq<char> {
    if exists_there {
        t
    } else {
        match path::parent_of(t) {
            Some(p) => p,
            None => t,
        }
    }
}

pub fn scan_dir_after_deletion(dir: &PathName, exists_there: bool) -> (r: PathName)
    ensures
        r@ == surviving(dir@, exists_there),
{
    if exists_there {
        dir.clone()
    } else {
        match dir.parent() {
            Some(p) => p,
            None => dir.clone(),
        }
    }
}

impl PlexNotifier {
    /// The notifier has the settings of a configuration, with the defaults for what is not
    /// set.
    pub open spec fn set_up(&self, c: PlexConfig) -> bool {
        &&& self.config.token@ == c.token@
        &&& self.config.debounce_seconds == emby_notifier::set_or(c.debounce_seconds, 5)
        &&& self.config.cache_minutes == emby_notifier::set_or(c.cache_minutes, 15)
        &&& self.config.fallback_full_refresh == (c.fallback_full_refresh == Some(true))
        &&& self.config.path_mapping == c.path_mapping
        &&& self.config.max_retries == emby_notifier::set_or(
            c.max_retries,
            media_notifier_common::DEFAULT_MAX_RETRIES,
        )
        &&& self.config.retry_delay_ms == emby_notifier::set_or(
            c.retry_delay_ms,
            media_notifier_common::DEFAULT_RETRY_DELAY_MS,
        )
        &&& self.config.fetch_sections_url@ == c.url@ + "/library/sections?X-Plex-Token="@
            + c.token@
        &&& self.config.full_library_url@ == c.url@
            + "/library/sections/all/refresh?X-Plex-Token="@ + c.token@
        &&& self.config.section_refresh_base@ == c.url@ + "/library/sections/"@
        &&& self.config.full_refresh_cooldown_secs == emby_notifier::set_or(
            c.full_refresh_cooldown_seconds,
            emby_notifier::DEFAULT_FULL_REFRESH_COOLDOWN_SECS,
        )
    }

    pub fn new(config: PlexConfig) -> (r: Self)
        requires
            emby_notifier::set_or(config.cache_minutes, 15) * 60 <= u64::MAX,
        ensures
            r.set_up(config),
            r.sections_cache.held() is None,
            r.sections_cache.ttl() == r.config.cache_minutes * 60,
            r.last_full_refresh is None,
    {
        let cache_minutes: u64 = match config.cache_minutes {
            Some(n) => n,
            None => 15,
        };
        let url = config.url.as_str();
        let token = config.token.as_str();
        let fetch_sections_url = text::concat3(url, "/library/sections?X-Plex-Token=", token);
        let full_library_url = text::concat3(
            url,
            "/library/sections/all/refresh?X-Plex-Token=",
            token,
        );
        let section_refresh_base = text::concat(url, "/library/sections/");
        let own = PlexSettings {
            token: config.token.clone(),
            debounce_seconds: match config.debounce_seconds {
                Some(n) => n,
                None => 5,
            },
            cache_minutes,
            fallback_full_refresh: config.fallback_full_refresh == Some(true),
            path_mapping: config.path_mapping,
            max_retries: match config.max_retries {
                Some(n) => n,
                None => media_notifier_common::DEFAULT_MAX_RETRIES,
            },
            retry_delay_ms: match config.retry_delay_ms {
                Some(n) => n,
                None => media_notifier_common::DEFAULT_RETRY_DELAY_MS,
            },
            fetch_sections_url,
            full_library_url,
            section_refresh_base,
            full_refresh_cooldown_secs: match config.full_refresh_cooldown_seconds {
                Some(n) => n,
                None => emby_notifier::DEFAULT_FULL_REFRESH_COOLDOWN_SECS,
            },
        };
        PlexNotifier {
            config: own,
            sections_cache: ItemCache::new(cache_minutes),
            last_full_refresh: None,
        }
    }

    /// The address that scans a path in a section.
    pub fn section_refresh_url(&self, section_key: &str, path: &PathName) -> (r: String)
        ensures
            r@ == self.config.section_refresh_base@ + section_key@ + "/refresh?path="@
                + percent_encoded(vstd::utf8::encode_utf8(path@)) + "&X-Plex-Token="@
                + self.config.token@,
    {
        let mut s = self.config.section_refresh_base.clone();
        s.append(section_key);
        s.append("/refresh?path=");
        s.append(url_encode(path.as_str()).as_str());
        s.append("&X-Plex-Token=");
        s.append(self.config.token.as_str());
        s
    }

    /// What to do at an instant when no section covers a path.
    pub open spec fn fallback_at(&self, now: u64) -> Fallback {
        let cooldown = self.config.full_refresh_cooldown_secs;
        if !self.config.fallback_full_refresh {
            Fallback::Skip
        } else {
            match self.last_full_refresh {
                Some(t) => if media_notifier_common::seconds_since(now, t) >= cooldown {
                    Fallback::FullRefresh
                } else {
                    Fallback::CoolingDown(
                        (cooldown - media_notifier_common::seconds_since(now, t)) as u64,
                    )
                },
                None => Fallback::FullRefresh,
            }
        }
    }

    /// Says what to do when no section covers a path; a scan that is put off is counted.
    pub fn fallback(&self, now: u64, metrics: &mut MetricsCollector) -> (r: Fallback)
        ensures
            r == self.fallback_at(now),
            final(metrics).stuck() == old(metrics).stuck(),
            final(metrics).start() == old(metrics).start(),
            final(metrics).inotify_watches == old(metrics).inotify_watches,
            forall|c: Counter| #[trigger]
                final(metrics).count(c) == (if r is CoolingDown && c
                    == Counter::FullRefreshCooldownSkips {
                    old(metrics).count(c).wrapping_add(1)
                } else {
                    old(metrics).count(c)
                }),
    {
        if !self.config.fallback_full_refresh {
            return Fallback::Skip;
        }
        let cooldown: u64 = self.config.full_refresh_cooldown_secs;
        match self.last_full_refresh {
            Some(t) => {
                let since: u64 = media_notifier_common::elapsed_secs(now, t);
                if since >= cooldown {
                    Fallback::FullRefresh
                } else {
                    metrics.bump(Counter::FullRefreshCooldownSkips, 1);
                    Fallback::CoolingDown(cooldown - since)
                }
            },
            None => Fallback::FullRefresh,
        }
    }

    /// Takes the news that everything was scanned.
    pub fn full_refresh_done(&mut self, now: u64, metrics: &mut MetricsCollector)
        ensures
            final(self).last_full_refresh == Some(now),
            final(self).config == old(self).config,
            final(self).sections_cache == old(self).sections_cache,
            final(metrics).stuck() == old(metrics).stuck(),
            final(metrics).start() == old(metrics).start(),
            final(metrics).inotify_watches == old(metrics).inotify_watches,
            forall|c: Counter| #[trigger]
                final(metrics).count(c) == (if c == Counter::PlexFullRefreshes {
                    old(metrics).count(c).wrapping_add(1)
                } else {
                    old(metrics).count(c)
                }),
    {
        self.last_full_refresh = Some(now);
        metrics.bump(Counter::PlexFullRefreshes, 1);
    }

    /// The directories to scan for a batch of changed paths. `probes` tells of each path in
    /// turn.
    pub fn created_dirs(&self, paths: &Vec<PathName>, probes: &Vec<PathProbe>) -> (r: PathSet)
        requires
            probes@.len() == paths@.len(),
        ensures
            r.wf(),
            r@ == path_set::unique(
                media_notifier_common::parents(
                    media_notifier_common::existing(
                        path::path_views(paths@),
                        probes@,
                        paths@.len(),
                    ),
                ),
            ),
    {
        let kept = media_notifier_common::filter_existing_paths(paths, probes);
        media_notifier_common::get_parent_dirs(&kept)
    }
}

/// The scans for one batch: the directories to look at, and the sections that were scanned.
pub struct PlexBatch {
    /// As Plex sees them.
    pub paths: Vec<PathName>,
    /// How many have been looked at.
    pub at: usize,
    pub refreshed: Vec<String>,
}

/// What a batch wants done for one directory.
#[derive(Debug)]
pub enum PlexAction {
    /// Scan the path in the section.
    Refresh(String, PathName),
    /// The section was scanned for this batch before.
    AlreadyRefreshed,
    /// No section covers the path, and the next scheduled scan will find it.
    Skip,
    /// No section covers the path, and everything was scanned a moment ago.
    CoolingDown(u64),
    /// No section covers the path: scan everything, and look at no other path.
    FullRefresh,
    /// Every directory has been looked at.
    Done,
}

/// What a batch wants done, with texts in place of paths and strings.
pub enum PlexActionView {
    Refresh(Seq<char>, Seq<char>),
    AlreadyRefreshed,
    Skip,
    CoolingDown(u64),
    FullRefresh,
    Done,
}

impl View for PlexAction {
    type V = PlexActionView;

    open spec fn view(&self) -> PlexActionView {
        match self {
            PlexAction::Refresh(key, p) => PlexActionView::Refresh(key@, p@),
            PlexAction::AlreadyRefreshed => PlexActionView::AlreadyRefreshed,
            PlexAction::Skip => PlexActionView::Skip,
            PlexAction::CoolingDown(n) => PlexActionView::CoolingDown(*n),
            PlexAction::FullRefresh => PlexActionView::FullRefresh,
            PlexAction::Done => PlexActionView::Done,
        }
    }
}

impl PlexBatch {
    pub open spec fn wf(&self) -> bool {
        self.at <= self.paths@.len()
    }

    /// The batch for some directories, in the order in which they come.
    pub fn new(dirs: &Vec<PathName>, mapping: &Option<PathMappingConfig>) -> (r: Self)
        ensures
            r.wf(),
            path::path_views(r.paths@) == emby_notifier::all_translated(
                path::path_views(dirs@),
                *mapping,
            ),
            r.at == 0,
            r.refreshed@.len() == 0,
    {
        PlexBatch {
            paths: emby_notifier::translate_all(dirs, mapping, "Plex"),
            at: 0,
            refreshed: Vec::new(),
        }
    }

    /// What the next directory calls for.
    pub open spec fn next_action(
        &self,
        notifier: PlexNotifier,
        sections: Seq<PlexDirectory>,
        now: u64,
    ) -> PlexActionView {
        if self.at >= self.paths@.len() {
            PlexActionView::Done
        } else {
            let p = self.paths@[self.at as int]@;
            match section_of(sections, text::split(p, '/')) {
                Some(key) => if text::views(self.refreshed@).contains(key) {
                    PlexActionView::AlreadyRefreshed
                } else {
                    PlexActionView::Refresh(key, p)
                },
                None => match notifier.fallback_at(now) {
                    Fallback::Skip => PlexActionView::Skip,
                    Fallback::CoolingDown(n) => PlexActionView::CoolingDown(n),
                    Fallback::FullRefresh => PlexActionView::FullRefresh,
                },
            }
        }
    }

    /// Looks at the next directory. After a full scan no other directory is looked at.
    pub fn next(
        &mut self,
        notifier: &PlexNotifier,
        sections: &Vec<PlexDirectory>,
        now: u64,
        metrics: &mut MetricsCollector,
    ) -> (r: PlexAction)
        requires
            old(self).wf(),
        ensures
            final(self).wf(),
            r@ == old(self).next_action(*notifier, sections@, now),
            final(self).paths == old(self).paths,
            final(self).refreshed == old(self).refreshed,
            final(self).at == (match r {
                PlexAction::Done => old(self).at as int,
                PlexAction::FullRefresh => old(self).paths@.len() as int,
                _ => old(self).at + 1,
            }),
            final(metrics).stuck() == old(metrics).stuck(),
            final(metrics).start() == old(metrics).start(),
            final(metrics).inotify_watches == old(metrics).inotify_watches,
            forall|c: Counter| #[trigger]
                final(metrics).count(c) == (if r is CoolingDown && c
                    == Counter::FullRefreshCooldownSkips {
                    old(metrics).count(c).wrapping_add(1)
                } else {
                    old(metrics).count(c)
                }),
    {
        if self.at >= self.paths.len() {
            return PlexAction::Done;
        }
        let p = self.paths[self.at].clone();
        match find_section_for_path(sections, &p) {
            Some(key) => {
                self.at = self.at + 1;
                if text::has_text(&self.refreshed, key.as_str()) {
                    PlexAction::AlreadyRefreshed
                } else {
                    PlexAction::Refresh(key, p)
                }
            },
            None => match notifier.fallback(now, metrics) {
                Fallback::Skip => {
                    self.at = self.at + 1;
                    PlexAction::Skip
                },
                Fallback::CoolingDown(n) => {
                    self.at = self.at + 1;
                    PlexAction::CoolingDown(n)
                },
                Fallback::FullRefresh => {
                    self.at = self.paths.len();
                    PlexAction::FullRefresh
                },
            },
        }
    }

    /// Takes the news that a section was scanned.
    pub fn section_refreshed(&mut self, key: String)
        requires
            old(self).wf(),
        ensures
            final(self).wf(),
            final(self).paths == old(self).paths,
            final(self).at == old(self).at,
            text::views(final(self).refreshed@) == text::with_text(
                text::views(old(self).refreshed@),
                key@,
            ),
    {
        text::add_once(&mut self.refreshed, key);
    }
}

/// A section that was scanned is not scanned again for the same batch.
pub proof fn sections_are_scanned_once(
    b: PlexBatch,
    notifier: PlexNotifier,
    sections: Seq<PlexDirectory>,
    now: u64,
    key: Seq<char>,
    p: Seq<char>,
)
    requires
        text::views(b.refreshed@).contains(key),
    ensures
        b.next_action(notifier, sections, now) != PlexActionView::Refresh(key, p),
{
}

impl BatchProcessor for PlexNotifier {
    open spec fn name(&self) -> Seq<char> {
        "Plex"@
    }

    open spec fn counter(&self) -> Counter {
        Counter::Plex
    }

    fn server_name(&self) -> (r: &str) {
        "Plex"
    }

    fn increment_notification_counter(&self, metrics: &mut MetricsCollector) {
        metrics.bump(Counter::Plex, 1);
    }
}

} // verus!
