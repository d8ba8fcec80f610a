//! Rescans in Sonarr and Radarr: which series or movie a validated release belongs to.

use crate::config::ArrConfig;
use crate::config::ArrInstanceConfig;
use crate::config::PathMappingConfig;
use crate::emby_notifier;
use crate::media_notifier_common;
use crate::media_notifier_common::BatchProcessor;
use crate::media_notifier_common::ItemCache;
use crate::metrics::Counter;
use crate::metrics::MetricsCollector;
use crate::path;
use crate::path::PathName;
use crate::text;
use vstd::prelude::*;
use vstd::string::*;

verus! {

broadcast use vstd::string::group_string_axioms;

/// What an instance manages.
#[derive(Debug, Clone, Copy, PartialEq, Eq, Structural)]
pub enum ArrKind {
    Series,
    Movie,
}

impl ArrKind {
    /// The name of the rescan command and of its id field.
    pub fn rescan_command(self) -> (r: (&'static str, &'static str))
        ensures
            r.0@ == (match self {
                ArrKind::Series => "RescanSeries"@,
                ArrKind::Movie => "RescanMovie"@,
            }),
            r.1@ == (match self {
                ArrKind::Series => "seriesId"@,
                ArrKind::Movie => "movieId"@,
            }),
    {
        match self {
            ArrKind::Series => ("RescanSeries", "seriesId"),
            ArrKind::Movie => ("RescanMovie", "movieId"),
        }
    }

    pub open spec fn endpoint(self) -> Seq<char> {
        match self {
            ArrKind::Series => "series"@,
            ArrKind::Movie => "movie"@,
        }
    }
}

/// A series or a movie.
#[derive(Debug)]
pub struct ArrRecord {
    pub id: i64,
    pub path: String,
    pub title: Option<String>,
    pub year: Option<u32>,
    pub has_file: bool,
}

/// The place of the record.
pub open spec fn place_of(r: ArrRecord) -> Seq<char> {
    text::trim_end_char(r.path@, '/')
}

/// The place of the record covers the path.
pub open spec fn covers(r: ArrRecord, t: Seq<char>) -> bool {
    path::under(t, place_of(r))
}

/// How deep the place of the record lies.
pub open spec fn depth(r: ArrRecord) -> nat {
    path::parts(place_of(r)).len()
}

/// The rank of the record: how deep its place lies, and how long the text of its path is.
pub open spec fn record_rank(r: ArrRecord) -> (nat, nat) {
    (depth(r), text::byte_len(r.path@))
}

/// The position of the record that covers a path with the deepest place; among equally deep
/// ones that with the longest path text, and among equally long ones the last.
pub open spec fn closest(records: Seq<ArrRecord>, t: Seq<char>) -> Option<int>
    decreases records.len(),
{
    if records.len() == 0 {
        None
    } else {
        let before = closest(records.drop_last(), t);
        if !covers(records.last(), t) {
            before
        } else {
            match before {
                Some(i) => if path::outranks(record_rank(records[i]), record_rank(records.last())) {
                    Some(i)
                } else {
                    Some(records.len() - 1)
                },
                None => Some(records.len() - 1),
            }
        }
    }
}

/// The closest record covers the path, and its place lies in the place of every record that
/// covers the path. Of those that lie as deep, none has a longer path text.
pub proof fn closest_is_most_specific(records: Seq<ArrRecord>, t: Seq<char>, j: int)
    requires
        0 <= j < records.len(),
        covers(records[j], t),
    ensures
        closest(records, t) matches Some(i) && 0 <= i < records.len() && covers(records[i], t)
            && !path::outranks(record_rank(records[j]), record_rank(records[i])) && path::under(
            place_of(records[i]),
            place_of(records[j]),
        ),
    decreases records.len(),
{
    closest_is_there(records, t);
    let rest = records.drop_last();
    if j < rest.len() {
        assert(rest[j] == records[j]);
        closest_is_most_specific(rest, t, j);
    } else {
        closest_is_there(rest, t);
    }
    let i = closest(records, t)->0;
    path::deeper_prefix_lies_under(t, place_of(records[i]), place_of(records[j]));
}

proof fn closest_is_there(records: Seq<ArrRecord>, t: Seq<char>)
    ensures
        closest(records, t) matches Some(i) ==> 0 <= i < records.len() && covers(records[i], t),
    decreases records.len(),
{
    if records.len() > 0 {
        closest_is_there(records.drop_last(), t);
    }
}

/// The id of the record that a path belongs to.
pub open spec fn matched_id(records: Seq<ArrRecord>, t: Seq<char>) -> Option<i64> {
    match closest(records, t) {
        Some(i) => Some(records[i].id),
        None => None,
    }
}

/// Finds the most specific record whose place is the path or lies above it.
pub fn best_match(records: &Vec<ArrRecord>, path: &PathName) -> (r: Option<i64>)
    ensures
        r == matched_id(records@, path@),
{
    let mut best: Option<((usize, usize), usize)> = None;
    let mut i: usize = 0;
    proof {
        assert(records@.take(0) =~= Seq::<ArrRecord>::empty());
    }
    while i < records.len()
        invariant
            i <= records@.len(),
            match best {
                Some((n, k)) => k < i && (n.0 as nat, n.1 as nat) == record_rank(
                    records@[k as int],
                ) && closest(records@.take(i as int), path@) == Some(k as int),
                None => closest(records@.take(i as int), path@) is None,
            },
        decreases records@.len() - i,
    {
        proof {
            assert(records@.take(i + 1).drop_last() =~= records@.take(i as int));
            assert(records@.take(i + 1).last() == records@[i as int]);
        }
        let chars = text::chars_of(records[i].path.as_str());
        let bare = text::without_trailing(&chars, '/');
        let place = PathName::new(text::text_of(&bare).as_str());
        if path.starts_with(&place) {
            let own: (usize, usize) = (
                place.component_count(),
                text::byte_len_of(records[i].path.as_str()),
            );
            best = match best {
                Some((n, k)) => if path::is_above(n, own) {
                    Some((n, k))
                } else {
                    Some((own, i))
                },
                None => Some((own, i)),
            };
        }
        i += 1;
    }
    proof {
        assert(records@.take(i as int) =~= records@);
    }
    match best {
        Some((_, k)) => Some(records[k].id),
        None => None,
    }
}

/// The year that a piece of a folder name states: four digits from 1900 to 2099.
pub open spec fn year_in(t: Seq<char>) -> Option<int> {
    if t.len() == 4 && text::all_digits(t) {
        match text::number(t, 10, 2099) {
            Some(n) => if n >= 1900 {
                Some(n)
            } else {
                None
            },
            None => None,
        }
    } else {
        None
    }
}

fn year_of(t: &[char]) -> (r: Option<u32>)
    ensures
        match r {
            Some(n) => year_in(t@) == Some(n as int),
            None => year_in(t@) is None,
        },
{
    if t.len() != 4 || !text::is_all_digits(t) {
        return None;
    }
    match text::parse_decimal(t, 2099) {
        Some(n) => if n >= 1900 {
            Some(n as u32)
        } else {
            None
        },
        None => None,
    }
}

/// The position of the last piece that states a year, after at least one other piece.
pub open spec fn year_position(pieces: Seq<Seq<char>>) -> Option<int>
    decreases pieces.len(),
{
    if pieces.len() <= 1 {
        None
    } else if year_in(pieces.last()) is Some {
        Some(pieces.len() - 1)
    } else {
        year_position(pieces.drop_last())
    }
}

/// A letter or a digit, or a character outside ASCII.
pub open spec fn significant(c: char) -> bool {
    ||| 0x30 <= (c as u32) <= 0x39
    ||| 0x41 <= (c as u32) <= 0x5a
    ||| 0x61 <= (c as u32) <= 0x7a
    ||| (c as u32) >= 0x80
}

/// The characters of a title that count, without spaces and punctuation.
pub open spec fn bare_title(t: Seq<char>) -> Seq<char>
    decreases t.len(),
{
    if t.len() == 0 {
        Seq::empty()
    } else if significant(t.last()) {
        bare_title(t.drop_last()).push(t.last())
    } else {
        bare_title(t.drop_last())
    }
}

fn bare_title_of(t: &[char]) -> (r: Vec<char>)
    ensures
        r@ == bare_title(t@),
{
    let mut r: Vec<char> = Vec::new();
    let mut i: usize = 0;
    proof {
        assert(t@.take(0) =~= Seq::<char>::empty());
    }
    while i < t.len()
        invariant
            i <= t@.len(),
            r@ == bare_title(t@.take(i as int)),
        decreases t@.len() - i,
    {
        proof {
            assert(t@.take(i + 1).drop_last() =~= t@.take(i as int));
            assert(t@.take(i + 1).last() == t@[i as int]);
        }
        let n: u32 = t[i] as u32;
        if (0x30 <= n && n <= 0x39) || (0x41 <= n && n <= 0x5a) || (0x61 <= n && n <= 0x7a) || n
            >= 0x80 {
            r.push(t[i]);
        }
        i += 1;
    }
    proof {
        assert(t@.take(i as int) =~= t@);
    }
    r
}

/// A title as it is compared: the characters that count, in small letters.
pub open spec fn title_key(t: Seq<char>) -> Seq<char> {
    text::lowered(bare_title(t))
}

/// The pieces of a name before a position, put together.
pub open spec fn together(pieces: Seq<Seq<char>>) -> Seq<char>
    decreases pieces.len(),
{
    if pieces.len() == 0 {
        Seq::empty()
    } else {
        together(pieces.drop_last()) + pieces.last()
    }
}

/// The title and the year that the name of a release folder states, as in `Title.Year.rest`.
pub open spec fn release_title(name: Seq<char>) -> Option<(Seq<char>, int)> {
    let pieces = text::split(name, '.');
    match year_position(pieces) {
        Some(i) => Some((title_key(together(pieces.take(i))), year_in(pieces[i])->0)),
        None => None,
    }
}

/// Reads the title, as it is compared, and the year of a release folder.
pub fn parse_release(name: &str) -> (r: Option<(String, u32)>)
    ensures
        match r {
            Some((t, y)) => release_title(name@) == Some((t@, y as int)),
            None => release_title(name@) is None,
        },
{
    let chars = text::chars_of(name);
    let pieces = text::split_at_char(&chars, '.');
    let ghost all = text::split(name@, '.');
    let mut i: usize = pieces.len();
    proof {
        assert(text::rows(pieces@).len() == pieces@.len());
        assert(all.take(i as int) =~= all);
    }
    while i > 1
        invariant
            i <= pieces@.len(),
            all == text::split(name@, '.'),
            text::rows(pieces@) == all,
            text::rows(pieces@).len() == pieces@.len(),
            year_position(all.take(i as int)) == year_position(all),
        decreases i,
    {
        proof {
            assert(all.take(i as int).drop_last() =~= all.take(i - 1));
            assert(all.take(i as int).last() == pieces@[i - 1]@);
        }
        match year_of(&pieces[i - 1]) {
            Some(year) => {
                let mut title: Vec<char> = Vec::new();
                let last: usize = i - 1;
                let mut k: usize = 0;
                proof {
                    assert(all.take(0) =~= Seq::<Seq<char>>::empty());
                }
                while k < last
                    invariant
                        k <= last,
                        last < pieces@.len(),
                        text::rows(pieces@) == all,
                        title@ == together(all.take(k as int)),
                    decreases last - k,
                {
                    proof {
                        assert(all.take(k + 1).drop_last() =~= all.take(k as int));
                        assert(all.take(k + 1).last() == pieces@[k as int]@);
                    }
                    append_chars(&mut title, &pieces[k]);
                    k += 1;
                }
                let bare = bare_title_of(&title);
                return Some((text::lowered_chars(&bare), year));
            },
            None => {},
        }
        i -= 1;
    }
    None
}

fn append_chars(v: &mut Vec<char>, more: &[char])
    ensures
        final(v)@ == old(v)@ + more@,
{
    let ghost start = v@;
    let mut i: usize = 0;
    while i < more.len()
        invariant
            i <= more@.len(),
            v@ == start + more@.take(i as int),
        decreases more@.len() - i,
    {
        v.push(more[i]);
        proof {
            assert(v@ =~= start + more@.take(i + 1));
        }
        i += 1;
    }
    proof {
        assert(more@.take(i as int) =~= more@);
    }
}

/// A movie without a file that has the title, and the year to within one.
pub open spec fn could_be(r: ArrRecord, title: Seq<char>, year: int) -> bool {
    &&& !r.has_file
    &&& match (r.title, r.year) {
        (Some(t), Some(y)) => title_key(t@) == title && -1 <= y - year <= 1,
        _ => false,
    }
}

fn fits_record(r: &ArrRecord, title: &str, year: u32) -> (b: bool)
    requires
        year < u32::MAX,
    ensures
        b == could_be(*r, title@, year as int),
{
    if r.has_file {
        return false;
    }
    match (&r.title, r.year) {
        (Some(t), Some(y)) => {
            let chars = text::chars_of(t.as_str());
            let bare = bare_title_of(&chars);
            let own = text::lowered_chars(&bare);
            let near = if y >= year {
                y - year <= 1
            } else {
                year - y <= 1
            };
            near && text::same_text(own.as_str(), title)
        },
        _ => false,
    }
}

/// The positions of the movies that could be meant.
pub open spec fn candidates(records: Seq<ArrRecord>, title: Seq<char>, year: int) -> Seq<int>
    decreases records.len(),
{
    if records.len() == 0 {
        Seq::empty()
    } else {
        let before = candidates(records.drop_last(), title, year);
        if could_be(records.last(), title, year) {
            before.push(records.len() - 1)
        } else {
            before
        }
    }
}

/// The movie that the name of a release folder means: the only one without a file that could
/// be meant.
pub open spec fn title_match(records: Seq<ArrRecord>, name: Seq<char>) -> Option<i64> {
    match release_title(name) {
        Some((title, year)) => {
            let c = candidates(records, title, year);
            if c.len() == 1 {
                Some(records[c[0]].id)
            } else {
                None
            }
        },
        None => None,
    }
}

proof fn candidates_fit(records: Seq<ArrRecord>, title: Seq<char>, year: int)
    ensures
        forall|k: int|
            0 <= k < candidates(records, title, year).len() ==> 0 <= (#[trigger] candidates(
                records,
                title,
                year,
            )[k]) < records.len() && could_be(
                records[candidates(records, title, year)[k]],
                title,
                year,
            ),
    decreases records.len(),
{
    if records.len() > 0 {
        let rest = records.drop_last();
        candidates_fit(rest, title, year);
        let c = candidates(records, title, year);
        let before = candidates(rest, title, year);
        assert forall|k: int| 0 <= k < c.len() implies 0 <= (#[trigger] c[k]) < records.len()
            && could_be(records[c[k]], title, year) by {
            if k < before.len() {
                assert(c[k] == before[k]);
                assert(rest[before[k]] == records[before[k]]);
            }
        }
    }
}

/// Finds the movie that the name of a release folder means.
pub fn match_by_title(records: &Vec<ArrRecord>, name: &str) -> (r: Option<i64>)
    ensures
        r == title_match(records@, name@),
{
    let (title, year) = match parse_release(name) {
        Some((t, y)) => (t, y),
        None => {
            return None;
        },
    };
    proof {
        year_is_small(name@);
    }
    let mut count: usize = 0;
    let mut only: usize = 0;
    let mut i: usize = 0;
    proof {
        assert(records@.take(0) =~= Seq::<ArrRecord>::empty());
    }
    while i < records.len()
        invariant
            i <= records@.len(),
            year < u32::MAX,
            count == candidates(records@.take(i as int), title@, year as int).len(),
            count <= i,
            count == 1 ==> candidates(records@.take(i as int), title@, year as int)[0] == only,
            count > 0 ==> only < i,
        decreases records@.len() - i,
    {
        proof {
            assert(records@.take(i + 1).drop_last() =~= records@.take(i as int));
            assert(records@.take(i + 1).last() == records@[i as int]);
        }
        if fits_record(&records[i], title.as_str(), year) {
            count = count + 1;
            only = i;
        }
        i += 1;
    }
    proof {
        assert(records@.take(i as int) =~= records@);
    }
    if count == 1 {
        Some(records[only].id)
    } else {
        None
    }
}

proof fn year_is_small(name: Seq<char>)
    ensures
        release_title(name) matches Some((_, y)) ==> 1900 <= y <= 2099,
{
    let pieces = text::split(name, '.');
    year_position_states_one(pieces);
}

proof fn year_position_states_one(pieces: Seq<Seq<char>>)
    ensures
        year_position(pieces) matches Some(i) ==> 0 < i < pieces.len() && (year_in(pieces[i])
            matches Some(y) && 1900 <= y <= 2099),
    decreases pieces.len(),
{
    if pieces.len() > 1 && year_in(pieces.last()) is None {
        year_position_states_one(pieces.drop_last());
    }
}

/// Movies that already have a file are never touched: a match by title leads to a record
/// without one.
pub proof fn movies_with_a_file_are_not_touched(records: Seq<ArrRecord>, name: Seq<char>)
    ensures
        title_match(records, name) matches Some(id) ==> exists|i: int|
            0 <= i < records.len() && (#[trigger] records[i]).id == id && !records[i].has_file,
{
    match release_title(name) {
        Some((title, year)) => {
            candidates_fit(records, title, year);
            let c = candidates(records, title, year);
            if c.len() == 1 {
                assert(!records[c[0]].has_file);
            }
        },
        None => {},
    }
}

/// A rescan to ask for.
#[derive(Debug)]
pub struct Rescan {
    pub id: i64,
    /// The directory that the record is to point at first.
    pub repoint: Option<PathName>,
}

pub open spec fn rescan_view(r: Rescan) -> (i64, Option<Seq<char>>) {
    (r.id, maybe_path(r.repoint))
}

pub open spec fn rescan_views(v: Seq<Rescan>) -> Seq<(i64, Option<Seq<char>>)> {
    Seq::new(v.len(), |i: int| rescan_view(v[i]))
}

/// The text of a path that may be missing.
pub open spec fn maybe_path(p: Option<PathName>) -> Option<Seq<char>> {
    match p {
        Some(p) => Some(p@),
        None => None,
    }
}

/// The rescans once one was put in, unless there is one for that record.
pub open spec fn with_rescan(
    s: Seq<(i64, Option<Seq<char>>)>,
    id: i64,
    repoint: Option<Seq<char>>,
) -> Seq<(i64, Option<Seq<char>>)> {
    if exists|i: int| 0 <= i < s.len() && (#[trigger] s[i]).0 == id {
        s
    } else {
        s.push((id, repoint))
    }
}

fn add_rescan(v: &mut Vec<Rescan>, id: i64, repoint: Option<PathName>)
    ensures
        rescan_views(final(v)@) == with_rescan(rescan_views(old(v)@), id, maybe_path(repoint)),
{
    let ghost s = rescan_views(v@);
    let mut i: usize = 0;
    while i < v.len()
        invariant
            i <= v@.len(),
            s == rescan_views(v@),
            forall|j: int| 0 <= j < i ==> (#[trigger] s[j]).0 != id,
        decreases v@.len() - i,
    {
        proof {
            assert(s[i as int] == rescan_view(v@[i as int]));
        }
        if v[i].id == id {
            return;
        }
        i += 1;
    }
    let ghost target = maybe_path(repoint);
    v.push(Rescan { id, repoint });
    proof {
        assert(rescan_views(v@) =~= s.push((id, target)));
    }
}

/// The rescans for the first `n` validated directories, as the instance sees them: each
/// directory belongs to the record that covers it; a movie that none covers is looked for by
/// title.
pub open spec fn rescans(
    kind: ArrKind,
    records: Seq<ArrRecord>,
    dirs: Seq<Seq<char>>,
    n: nat,
) -> Seq<(i64, Option<Seq<char>>)>
    decreases n,
{
    if n == 0 {
        Seq::empty()
    } else {
        let before = rescans(kind, records, dirs, (n - 1) as nat);
        let t = dirs[n - 1];
        match matched_id(records, t) {
            Some(id) => with_rescan(before, id, None),
            None => match (kind, path::file_name_of(t)) {
                (ArrKind::Movie, Some(name)) => match title_match(records, name) {
                    Some(id) => with_rescan(before, id, Some(t)),
                    None => before,
                },
                _ => before,
            },
        }
    }
}

/// One configured instance of Sonarr or Radarr.
pub struct ArrInstance {
    pub name: &'static str,
    pub kind: ArrKind,
    /// The address without trailing separators.
    pub base: String,
    pub api_key: String,
    /// Lists the records.
    pub list_url: String,
    /// Takes commands.
    pub command_url: String,
    pub path_mapping: Option<PathMappingConfig>,
    pub force_import: bool,
    pub cache: ItemCache<ArrRecord>,
}

impl ArrInstance {
    /// The instance has the settings of a configuration.
    pub open spec fn set_up(&self, name: Seq<char>, kind: ArrKind, c: ArrInstanceConfig) -> bool {
        let base = text::trim_end_char(c.url@, '/');
        &&& self.name@ == name
        &&& self.kind == kind
        &&& self.base@ == base
        &&& self.api_key@ == c.api_key@
        &&& self.list_url@ == base + "/api/v3/"@ + kind.endpoint() + "?apikey="@ + c.api_key@
        &&& self.command_url@ == base + "/api/v3/command?apikey="@ + c.api_key@
        &&& self.path_mapping == c.path_mapping
        &&& self.force_import == (kind == ArrKind::Movie && c.force_import != Some(false))
    }

    pub fn new(name: &'static str, kind: ArrKind, cfg: ArrInstanceConfig, cache_minutes: u64) -> (r:
        Self)
        requires
            cache_minutes * 60 <= u64::MAX,
        ensures
            r.set_up(name@, kind, cfg),
            r.cache.held() is None,
            r.cache.ttl() == cache_minutes * 60,
    {
        let chars = text::chars_of(cfg.url.as_str());
        let bare = text::without_trailing(&chars, '/');
        let base = text::text_of(&bare);
        let mut list_url = text::concat(base.as_str(), "/api/v3/");
        match kind {
            ArrKind::Series => {
                list_url.append("series");
            },
            ArrKind::Movie => {
                list_url.append("movie");
            },
        }
        list_url.append("?apikey=");
        list_url.append(cfg.api_key.as_str());
        let command_url = text::concat3(
            base.as_str(),
            "/api/v3/command?apikey=",
            cfg.api_key.as_str(),
        );
        ArrInstance {
            name,
            kind,
            base,
            api_key: cfg.api_key.clone(),
            list_url,
            command_url,
            path_mapping: cfg.path_mapping,
            force_import: kind == ArrKind::Movie && cfg.force_import != Some(false),
            cache: ItemCache::new(cache_minutes),
        }
    }

    /// The rescans for some validated directories. A series or a movie is rescanned at most
    /// once.
    pub fn plan_rescans(&self, dirs: &Vec<PathName>, records: &Vec<ArrRecord>) -> (r: Vec<Rescan>)
        ensures
            rescan_views(r@) == rescans(
                self.kind,
                records@,
                emby_notifier::all_translated(path::path_views(dirs@), self.path_mapping),
                dirs@.len(),
            ),
    {
        let translated = emby_notifier::translate_all(dirs, &self.path_mapping, self.name);
        let ghost all = path::path_views(translated@);
        let mut r: Vec<Rescan> = Vec::new();
        let mut i: usize = 0;
        proof {
            assert(rescan_views(r@) =~= Seq::<(i64, Option<Seq<char>>)>::empty());
            assert(all.len() == dirs@.len());
        }
        while i < translated.len()
            invariant
                i <= translated@.len(),
                all == path::path_views(translated@),
                rescan_views(r@) == rescans(self.kind, records@, all, i as nat),
            decreases translated@.len() - i,
        {
            let t = &translated[i];
            proof {
                assert(all[i as int] == t@);
            }
            match best_match(records, t) {
                Some(id) => {
                    add_rescan(&mut r, id, None);
                },
                None => {
                    if self.kind == ArrKind::Movie {
                        if let Some(name) = t.file_name() {
                            let n = text::text_of(&name);
                            match match_by_title(records, n.as_str()) {
                                Some(id) => {
                                    add_rescan(&mut r, id, Some(t.clone()));
                                },
                                None => {},
                            }
                        }
                    }
                },
            }
            i += 1;
        }
        r
    }

    /// Tests whether a movie is imported by force after its rescan: it still has no file.
    pub fn force_import_due(&self, has_file: bool) -> (r: bool)
        ensures
            r == (self.force_import && !has_file),
    {
        self.force_import && !has_file
    }

    /// The address of one record; a negative id has none.
    pub fn record_url(&self, id: i64) -> (r: Option<String>)
        ensures
            match r {
                Some(u) => id >= 0 && u@ == self.base@ + "/api/v3/"@ + self.kind.endpoint() + "/"@
                    + text::decimal(id as nat) + "?apikey="@ + self.api_key@,
                None => id < 0,
            },
    {
        if id < 0 {
            return None;
        }
        let mut s = text::concat(self.base.as_str(), "/api/v3/");
        match self.kind {
            ArrKind::Series => {
                s.append("series");
            },
            ArrKind::Movie => {
                s.append("movie");
            },
        }
        s.append("/");
        s.append(text::decimal_of(id as u64).as_str());
        s.append("?apikey=");
        s.append(self.api_key.as_str());
        Some(s)
    }

    /// The address that lists the files in the folder of one movie; a negative id has none.
    pub fn manual_import_url(&self, id: i64) -> (r: Option<String>)
        ensures
            match r {
                Some(u) => id >= 0 && u@ == self.base@ + "/api/v3/manualimport?movieId="@
                    + text::decimal(id as nat) + "&apikey="@ + self.api_key@,
                None => id < 0,
            },
    {
        if id < 0 {
            return None;
        }
        let mut s = text::concat(self.base.as_str(), "/api/v3/manualimport?movieId=");
        s.append(text::decimal_of(id as u64).as_str());
        s.append("&apikey=");
        s.append(self.api_key.as_str());
        Some(s)
    }
}

/// A record is rescanned at most once per batch.
pub proof fn records_are_rescanned_once(
    kind: ArrKind,
    records: Seq<ArrRecord>,
    dirs: Seq<Seq<char>>,
    n: nat,
    i: int,
    j: int,
)
    requires
        0 <= i < j < rescans(kind, records, dirs, n).len(),
    ensures
        rescans(kind, records, dirs, n)[i].0 != rescans(kind, records, dirs, n)[j].0,
    decreases n,
{
    if n > 0 {
        let before = rescans(kind, records, dirs, (n - 1) as nat);
        if j < before.len() {
            records_are_rescanned_once(kind, records, dirs, (n - 1) as nat, i, j);
        }
    }
}

/// Only a movie without a file is ever pointed at another directory, and only at one of the
/// validated ones.
pub proof fn only_fileless_movies_are_repointed(
    kind: ArrKind,
    records: Seq<ArrRecord>,
    dirs: Seq<Seq<char>>,
    n: nat,
    i: int,
)
    requires
        n <= dirs.len(),
        0 <= i < rescans(kind, records, dirs, n).len(),
    ensures
        rescans(kind, records, dirs, n)[i].1 matches Some(t) ==> {
            &&& kind == ArrKind::Movie
            &&& dirs.contains(t)
            &&& exists|k: int|
                0 <= k < records.len() && (#[trigger] records[k]).id == rescans(
                    kind,
                    records,
                    dirs,
                    n,
                )[i].0 && !records[k].has_file
        },
    decreases n,
{
    if n > 0 {
        let before = rescans(kind, records, dirs, (n - 1) as nat);
        if i < before.len() {
            only_fileless_movies_are_repointed(kind, records, dirs, (n - 1) as nat, i);
        } else {
            let t = dirs[n - 1];
            match path::file_name_of(t) {
                Some(name) => movies_with_a_file_are_not_touched(records, name),
                None => {},
            }
        }
    }
}

/// The notifier for Sonarr and Radarr.
pub struct ArrNotifier {
    pub instances: Vec<ArrInstance>,
    pub debounce_seconds: u64,
    pub max_retries: u32,
    pub retry_delay_ms: u64,
}

impl ArrNotifier {
    pub fn new(config: ArrConfig) -> (r: Self)
        requires
            emby_notifier::set_or(config.cache_minutes, 5) * 60 <= u64::MAX,
        ensures
            r.debounce_seconds == emby_notifier::set_or(config.debounce_seconds, 5),
            r.max_retries == emby_notifier::set_or(
                config.max_retries,
                media_notifier_common::DEFAULT_MAX_RETRIES,
            ),
            r.retry_delay_ms == emby_notifier::set_or(
                config.retry_delay_ms,
                media_notifier_common::DEFAULT_RETRY_DELAY_MS,
            ),
            r.instances@.len() == (if config.sonarr is Some {
                1int
            } else {
                0
            }) + (if config.radarr is Some {
                1int
            } else {
                0
            }),
            config.sonarr matches Some(c) ==> r.instances@[0].set_up(
                "Sonarr"@,
                ArrKind::Series,
                c,
            ),
            config.radarr matches Some(c) ==> r.instances@.last().set_up(
                "Radarr"@,
                ArrKind::Movie,
                c,
            ),
            forall|i: int|
                0 <= i < r.instances@.len() ==> (#[trigger] r.instances@[i]).cache.held() is None
                    && r.instances@[i].cache.ttl() == emby_notifier::set_or(
                    config.cache_minutes,
                    5,
                ) * 60,
    {
        let cache_minutes: u64 = match config.cache_minutes {
            Some(n) => n,
            None => 5,
        };
        let mut instances: Vec<ArrInstance> = Vec::new();
        if let Some(s) = config.sonarr {
            instances.push(ArrInstance::new("Sonarr", ArrKind::Series, s, cache_minutes));
        }
        if let Some(r) = config.radarr {
            instances.push(ArrInstance::new("Radarr", ArrKind::Movie, r, cache_minutes));
        }
        ArrNotifier {
            instances,
            debounce_seconds: match config.debounce_seconds {
                Some(n) => n,
                None => 5,
            },
            max_retries: match config.max_retries {
                Some(n) => n,
                None => media_notifier_common::DEFAULT_MAX_RETRIES,
            },
            retry_delay_ms: match config.retry_delay_ms {
                Some(n) => n,
                None => media_notifier_common::DEFAULT_RETRY_DELAY_MS,
            },
        }
    }
}

impl BatchProcessor for ArrNotifier {
    open spec fn name(&self) -> Seq<char> {
        "Arr"@
    }

    open spec fn counter(&self) -> Counter {
        Counter::Arr
    }

    fn server_name(&self) -> (r: &str) {
        "Arr"
    }

    fn increment_notification_counter(&self, metrics: &mut MetricsCollector) {
        metrics.bump(Counter::Arr, 1);
    }
}

} // verus!
