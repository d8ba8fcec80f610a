//! Which directories and files the mount shows.

use crate::filtering;
use crate::filtering::DirectoryProbe;
use crate::filtering::FilterEngine;
use crate::filtering::HiddenReason;
use crate::filtering::HotConfig;
use crate::filtering::Layer;
use crate::filtering::SfvMode;
use crate::filtering::SfvRules;
use crate::laws;
use crate::media_notifier_common;
use crate::path;
use crate::sfv;
use crate::sfv::DirEntry;
use crate::sfv::FileAge;
use crate::text;
use vstd::prelude::*;

verus! {

proof fn last_dot(t: Seq<char>, at: int)
    requires
        0 <= at < t.len(),
        t[at] == '.',
        forall|j: int| at < j < t.len() ==> t[j] != '.',
    ensures
        text::last_index(t, '.') == at,
    decreases t.len(),
{
    if at < t.len() - 1 {
        last_dot(t.drop_last(), at);
    }
}

proof fn last_index_is_last(t: Seq<char>, c: char)
    ensures
        -1 <= text::last_index(t, c) < t.len(),
        text::last_index(t, c) >= 0 ==> t[text::last_index(t, c)] == c,
        forall|j: int| text::last_index(t, c) < j < t.len() ==> t[j] != c,
    decreases t.len(),
{
    if t.len() > 0 && t.last() != c {
        last_index_is_last(t.drop_last(), c);
        assert forall|j: int| text::last_index(t, c) < j < t.len() implies t[j] != c by {
            if j < t.len() - 1 {
                assert(t.drop_last()[j] == t[j]);
            }
        }
    }
}

/// The name, in small letters, ends in the extension, which is a dot and a text without one.
pub open spec fn has_extension(name: Seq<char>, ext: Seq<char>) -> bool {
    &&& ext.len() > 0
    &&& ext[0] == '.'
    &&& forall|j: int| 0 < j < ext.len() ==> ext[j] != '.'
    &&& laws::ends_in(text::lowered(name), ext)
}

/// A file is a media file exactly when its name, in whatever case, ends in one of the media
/// extensions.
pub proof fn media_is_told_by_its_extension(extensions: Seq<Seq<char>>, name: Seq<char>)
    ensures
        filtering::media_named(extensions, name) <==> exists|k: int|
            0 <= k < extensions.len() && has_extension(name, #[trigger] extensions[k]),
{
    let low = text::lowered(name);
    let dot = text::last_index(low, '.');
    last_index_is_last(low, '.');
    if filtering::media_named(extensions, name) {
        let k = choose|k: int| 0 <= k < extensions.len() && extensions[k] == low.skip(dot);
        assert(low.skip(low.len() - low.skip(dot).len()) =~= low.skip(dot));
        assert(has_extension(name, extensions[k]));
    }
    if exists|k: int| 0 <= k < extensions.len() && has_extension(name, #[trigger] extensions[k]) {
        let k = choose|k: int|
            0 <= k < extensions.len() && has_extension(name, #[trigger] extensions[k]);
        let at = low.len() - extensions[k].len();
        assert forall|j: int| at < j < low.len() implies low[j] != '.' by {
            assert(low.skip(at)[j - at] == low[j]);
        }
        assert(low.skip(at)[0] == low[at]);
        last_dot(low, at);
        assert(low.skip(dot) == extensions[k]);
    }
}

/// A directory is a release exactly when one of the files that the backend lists is a media
/// file and the source can be read, whatever else is listed.
pub proof fn one_media_file_makes_a_release(hot: HotConfig, p: DirectoryProbe)
    ensures
        filtering::is_release(hot, p) <==> p.source_entries is Some && (p.backend_files matches Some(
            files,
        ) && exists|i: int, k: int|
            #![trigger files@[i], hot.media_extensions@[k]]
            0 <= i < files@.len() && 0 <= k < hot.media_extensions@.len() && has_extension(
                files@[i]@,
                hot.media_extensions@[k]@,
            )),
{
    let exts = text::views(hot.media_extensions@);
    if let Some(files) = p.backend_files {
        let names = text::views(files@);
        assert forall|i: int| 0 <= i < names.len() implies filtering::media_named(
            exts,
            #[trigger] names[i],
        ) == exists|k: int|
            0 <= k < exts.len() && has_extension(names[i], #[trigger] exts[k]) by {
            media_is_told_by_its_extension(exts, names[i]);
        }
        if filtering::any_media(exts, names) {
            let i = choose|i: int|
                0 <= i < names.len() && filtering::media_named(exts, #[trigger] names[i]);
            let k = choose|k: int|
                0 <= k < exts.len() && has_extension(names[i], #[trigger] exts[k]);
            assert(has_extension(files@[i]@, hot.media_extensions@[k]@));
        }
        if exists|i: int, k: int|
            #![trigger files@[i], hot.media_extensions@[k]]
            0 <= i < files@.len() && 0 <= k < hot.media_extensions@.len() && has_extension(
                files@[i]@,
                hot.media_extensions@[k]@,
            ) {
            let (i, k) = choose|i: int, k: int|
                #![trigger files@[i], hot.media_extensions@[k]]
                0 <= i < files@.len() && 0 <= k < hot.media_extensions@.len() && has_extension(
                    files@[i]@,
                    hot.media_extensions@[k]@,
                );
            assert(has_extension(names[i], exts[k]));
            assert(filtering::media_named(exts, names[i]));
        }
    }
}

/// Nothing lets the directory pass unvalidated: it comes from the verified layer, or from no
/// layer, under strict rules, and no indicator of unverified content stands in its path.
pub open spec fn judged_strictly(hot: HotConfig, t: Seq<char>, p: DirectoryProbe) -> bool {
    ||| p.layer == Some(Layer::Verified)
    ||| p.layer is None && (hot.sfv matches Some(rules) && rules.default_mode == SfvMode::Strict
        && forall|k: int|
        0 <= k < rules.unverified_indicators@.len() ==> !text::contains(
            t,
            #[trigger] rules.unverified_indicators@[k]@,
        ))
}

/// The entry is a file whose name, in whatever case, ends in `.sfv`.
pub open spec fn is_sfv_file(e: DirEntry) -> bool {
    e matches DirEntry::File(f) && laws::ends_in(text::lowered(f.name@), ".sfv"@)
}

/// The SFV file of a directory is the last of those that are listed.
pub proof fn the_last_sfv_file_counts(entries: Seq<DirEntry>)
    ensures
        match filtering::sfv_in(entries) {
            Some(n) => exists|j: int|
                0 <= j < entries.len() && is_sfv_file(#[trigger] entries[j]) && (
                entries[j] matches DirEntry::File(f) && f.name@ == n) && forall|m: int|
                    j < m < entries.len() ==> !is_sfv_file(#[trigger] entries[m]),
            None => forall|j: int| 0 <= j < entries.len() ==> !is_sfv_file(#[trigger] entries[j]),
        },
    decreases entries.len(),
{
    if entries.len() > 0 {
        let rest = entries.drop_last();
        let last = entries.last();
        the_last_sfv_file_counts(rest);
        if let DirEntry::File(f) = last {
            let low = text::lowered(f.name@);
            if low.len() >= ".sfv"@.len() {
                assert(low.skip(low.len() - ".sfv"@.len()) =~= low.subrange(
                    low.len() - ".sfv"@.len(),
                    low.len() as int,
                ));
            }
        }
        assert(is_sfv_file(last) ==> filtering::sfv_in(entries) is Some);
        assert forall|j: int| 0 <= j < rest.len() implies #[trigger] entries[j] == rest[j] by {}
        if !is_sfv_file(last) {
            assert(filtering::sfv_in(entries) == filtering::sfv_in(rest));
            if let Some(n) = filtering::sfv_in(rest) {
                let j = choose|j: int|
                    0 <= j < rest.len() && is_sfv_file(#[trigger] rest[j]) && (
                    rest[j] matches DirEntry::File(f) && f.name@ == n) && forall|m: int|
                        j < m < rest.len() ==> !is_sfv_file(#[trigger] rest[m]);
                assert forall|m: int| j < m < entries.len() implies !is_sfv_file(
                    #[trigger] entries[m],
                ) by {
                    if m < rest.len() {
                        assert(!is_sfv_file(rest[m]));
                    }
                }
                assert(is_sfv_file(entries[j]));
            } else {
                assert forall|j: int| 0 <= j < entries.len() implies !is_sfv_file(
                    #[trigger] entries[j],
                ) by {
                    if j < rest.len() {
                        assert(!is_sfv_file(rest[j]));
                    }
                }
            }
        } else {
            assert(entries[entries.len() - 1] == last);
        }
    }
}

proof fn strict_is_strict(hot: HotConfig, t: Seq<char>, p: DirectoryProbe)
    requires
        judged_strictly(hot, t, p),
    ensures
        filtering::release_mode(hot.sfv, p.layer, t) == SfvMode::Strict,
{
    if p.layer is None {
        let rules = hot.sfv->0;
        let all = text::views(rules.unverified_indicators@);
        if filtering::indicated(all, t) {
            let k = choose|k: int| 0 <= k < all.len() && text::contains(t, #[trigger] all[k]);
            assert(text::contains(t, rules.unverified_indicators@[k]@));
        }
    }
}

/// In strict mode a directory with a media file among its files and no SFV file is hidden,
/// whatever the other files are.
pub proof fn strict_hides_releases_without_sfv(
    hot: HotConfig,
    t: Seq<char>,
    p: DirectoryProbe,
    i: int,
    k: int,
)
    requires
        p.backend_files is Some,
        0 <= i < p.backend_files->0@.len(),
        0 <= k < hot.media_extensions@.len(),
        has_extension(p.backend_files->0@[i]@, hot.media_extensions@[k]@),
        p.source_entries is Some,
        forall|j: int|
            0 <= j < p.source_entries->0@.len() ==> !is_sfv_file(#[trigger] p.source_entries->0@[j]),
        judged_strictly(hot, t, p),
    ensures
        filtering::hidden(hot, t, p) == Some(HiddenReason::StrictWithoutSfv),
{
    one_media_file_makes_a_release(hot, p);
    the_last_sfv_file_counts(p.source_entries->0@);
    strict_is_strict(hot, t, p);
}

/// A longer listing never shows what a shorter one hid, nor another reason: further files of
/// the backend do not matter to a release.
pub proof fn further_files_do_not_matter(
    hot: HotConfig,
    t: Seq<char>,
    p: DirectoryProbe,
    q: DirectoryProbe,
)
    requires
        p.backend_files is Some,
        q.backend_files is Some,
        forall|i: int|
            0 <= i < p.backend_files->0@.len() ==> exists|j: int|
                0 <= j < q.backend_files->0@.len() && (#[trigger] q.backend_files->0@[j])@ == (
                #[trigger] p.backend_files->0@[i])@,
        q.layer == p.layer,
        q.source_entries == p.source_entries,
        q.sfv_content == p.sfv_content,
        filtering::hidden(hot, t, p) is Some,
    ensures
        filtering::hidden(hot, t, q) == filtering::hidden(hot, t, p),
{
    one_media_file_makes_a_release(hot, p);
    one_media_file_makes_a_release(hot, q);
    let files = p.backend_files->0@;
    let (i, k) = choose|i: int, k: int|
        #![trigger files[i], hot.media_extensions@[k]]
        0 <= i < files.len() && 0 <= k < hot.media_extensions@.len() && has_extension(
            files[i]@,
            hot.media_extensions@[k]@,
        );
    let j = choose|j: int|
        0 <= j < q.backend_files->0@.len() && (#[trigger] q.backend_files->0@[j])@ == (
        #[trigger] p.backend_files->0@[i])@;
    assert(has_extension(q.backend_files->0@[j]@, hot.media_extensions@[k]@));
}

/// The names of the files of a directory are those that stand in it or in one of its
/// subfolders, in small letters.
pub proof fn names_are_those_of_files(entries: Seq<DirEntry>, low: Seq<char>)
    ensures
        filtering::names_in(entries).contains(low) <==> exists|j: int|
            0 <= j < entries.len() && match #[trigger] entries[j] {
                DirEntry::File(f) => text::lowered(f.name@) == low,
                DirEntry::Dir(files) => exists|m: int|
                    0 <= m < files@.len() && text::lowered((#[trigger] files@[m]).name@) == low,
            },
    decreases entries.len(),
{
    if entries.len() > 0 {
        let rest = entries.drop_last();
        names_are_those_of_files(rest, low);
        if let DirEntry::Dir(files) = entries.last() {
            names_of_subfolder(files@, low);
        }
        assert(entries[entries.len() - 1] == entries.last());
        assert forall|j: int|
            #![trigger rest[j]]
            #![trigger entries[j]]
            0 <= j < rest.len() implies rest[j] == entries[j] by {}
    }
}

proof fn names_of_subfolder(files: Seq<sfv::FileEntry>, low: Seq<char>)
    ensures
        filtering::file_names(files).contains(low) <==> exists|m: int|
            0 <= m < files.len() && text::lowered((#[trigger] files[m]).name@) == low,
    decreases files.len(),
{
    if files.len() > 0 {
        let rest = files.drop_last();
        names_of_subfolder(rest, low);
        assert(files[files.len() - 1] == files.last());
        assert forall|m: int|
            #![trigger rest[m]]
            #![trigger files[m]]
            0 <= m < rest.len() implies rest[m] == files[m] by {}
    }
}

/// In strict mode a release with an SFV file is hidden as soon as one line of that file names
/// a file that stands neither in the directory nor in a subfolder of it.
pub proof fn strict_hides_releases_with_missing_files(
    hot: HotConfig,
    t: Seq<char>,
    p: DirectoryProbe,
    j: int,
    i: int,
)
    requires
        filtering::is_release(hot, p),
        judged_strictly(hot, t, p),
        0 <= j < p.source_entries->0@.len(),
        is_sfv_file(p.source_entries->0@[j]),
        p.sfv_content is Some,
        0 <= i < text::lines(p.sfv_content->0@).len(),
        sfv::listed_name(text::lines(p.sfv_content->0@)[i]) matches Some(n) && sfv::base_name(
            n,
        ).len() > 0 && forall|m: int|
            0 <= m < p.source_entries->0@.len() ==> match #[trigger] p.source_entries->0@[m] {
                DirEntry::File(f) => text::lowered(f.name@) != text::lowered(sfv::base_name(n)),
                DirEntry::Dir(files) => forall|d: int|
                    0 <= d < files@.len() ==> text::lowered((#[trigger] files@[d]).name@)
                        != text::lowered(sfv::base_name(n)),
            },
    ensures
        filtering::hidden(hot, t, p) == Some(HiddenReason::StrictInvalid),
{
    the_last_sfv_file_counts(p.source_entries->0@);
    strict_is_strict(hot, t, p);
    let line = text::lines(p.sfv_content->0@)[i];
    let n = sfv::listed_name(line)->0;
    names_are_those_of_files(p.source_entries->0@, text::lowered(sfv::base_name(n)));
    assert(!sfv::line_is_present(line, filtering::names_in(p.source_entries->0@)));
}

/// Every line of the SFV file names a file that is there, in the directory or in a subfolder
/// of it, in whatever case, or it names none.
pub open spec fn every_line_is_served(content: Seq<char>, entries: Seq<DirEntry>) -> bool {
    forall|i: int|
        0 <= i < text::lines(content).len() ==> match sfv::listed_name(
            #[trigger] text::lines(content)[i],
        ) {
            None => true,
            Some(n) => sfv::base_name(n).len() == 0 || exists|m: int|
                0 <= m < entries.len() && match #[trigger] entries[m] {
                    DirEntry::File(f) => text::lowered(f.name@) == text::lowered(sfv::base_name(n)),
                    DirEntry::Dir(files) => exists|d: int|
                        0 <= d < files@.len() && text::lowered((#[trigger] files@[d]).name@)
                            == text::lowered(sfv::base_name(n)),
                },
        }
}

/// A release whose SFV file is served in full is shown in every mode.
pub proof fn complete_releases_are_shown(hot: HotConfig, t: Seq<char>, p: DirectoryProbe, j: int)
    requires
        p.source_entries is Some,
        0 <= j < p.source_entries->0@.len(),
        is_sfv_file(p.source_entries->0@[j]),
        p.sfv_content is Some,
        every_line_is_served(p.sfv_content->0@, p.source_entries->0@),
    ensures
        filtering::hidden(hot, t, p) is None,
{
    let entries = p.source_entries->0@;
    let content = p.sfv_content->0@;
    the_last_sfv_file_counts(entries);
    let ls = text::lines(content);
    assert forall|i: int| 0 <= i < ls.len() implies sfv::line_is_present(
        #[trigger] ls[i],
        filtering::names_in(entries),
    ) by {
        if let Some(n) = sfv::listed_name(text::lines(content)[i]) {
            names_are_those_of_files(entries, text::lowered(sfv::base_name(n)));
        }
    }
    assert(filtering::sfv_passes(p));
}

/// What is no release is shown: nothing is hidden where the backend or the source cannot be
/// read, or where no file is a media file.
pub proof fn only_releases_are_hidden(hot: HotConfig, t: Seq<char>, p: DirectoryProbe)
    requires
        filtering::hidden(hot, t, p) is Some,
    ensures
        p.source_entries is Some,
        p.backend_files is Some,
        exists|i: int, k: int|
            #![trigger p.backend_files->0@[i], hot.media_extensions@[k]]
            0 <= i < p.backend_files->0@.len() && 0 <= k < hot.media_extensions@.len()
                && has_extension(p.backend_files->0@[i]@, hot.media_extensions@[k]@),
{
    one_media_file_makes_a_release(hot, p);
}

/// Unverified content is hidden only where permissive directories are validated too, it has an
/// SFV file, and a line of that is not served.
pub proof fn unverified_content_is_hidden_only_when_invalid(
    hot: HotConfig,
    t: Seq<char>,
    p: DirectoryProbe,
)
    requires
        p.layer == Some(Layer::Unverified),
    ensures
        filtering::hidden(hot, t, p) is Some <==> {
            &&& filtering::is_release(hot, p)
            &&& hot.sfv matches Some(rules) && rules.permissive_validates
            &&& exists|j: int|
                0 <= j < p.source_entries->0@.len() && is_sfv_file(
                    #[trigger] p.source_entries->0@[j],
                )
            &&& p.sfv_content matches Some(c) && !every_line_is_served(
                c@,
                p.source_entries->0@,
            )
        },
        filtering::hidden(hot, t, p) is Some ==> filtering::hidden(hot, t, p) == Some(
            HiddenReason::PermissiveInvalid,
        ),
{
    if p.source_entries is Some {
        let entries = p.source_entries->0@;
        the_last_sfv_file_counts(entries);
        if let Some(c) = p.sfv_content {
            let ls = text::lines(c@);
            assert forall|i: int| 0 <= i < ls.len() implies (match sfv::listed_name(
                #[trigger] ls[i],
            ) {
                None => true,
                Some(n) => sfv::base_name(n).len() == 0 || exists|m: int|
                    0 <= m < entries.len() && match #[trigger] entries[m] {
                        DirEntry::File(f) => text::lowered(f.name@) == text::lowered(
                            sfv::base_name(n),
                        ),
                        DirEntry::Dir(files) => exists|d: int|
                            0 <= d < files@.len() && text::lowered((#[trigger] files@[d]).name@)
                                == text::lowered(sfv::base_name(n)),
                    },
            }) == sfv::line_is_present(ls[i], filtering::names_in(entries)) by {
                if let Some(n) = sfv::listed_name(ls[i]) {
                    names_are_those_of_files(entries, text::lowered(sfv::base_name(n)));
                }
            }
        }
    }
}

/// The layer of a directory decides the mode alone, in every configuration.
pub proof fn layers_decide_the_mode(rules: SfvRules, t: Seq<char>)
    ensures
        filtering::release_mode(None, Some(Layer::Verified), t) == SfvMode::Strict,
        filtering::release_mode(None, Some(Layer::Unverified), t) == SfvMode::Permissive,
        filtering::release_mode(Some(rules), Some(Layer::Verified), t) == SfvMode::Strict,
        filtering::release_mode(Some(rules), Some(Layer::Unverified), t) == SfvMode::Permissive,
        filtering::mode_of(Some(rules), Some(Layer::Verified), t) == SfvMode::Strict,
        filtering::mode_of(Some(rules), Some(Layer::Unverified), t) == SfvMode::Permissive,
        filtering::release_mode(None, None, t) == SfvMode::Permissive,
        filtering::mode_of(None, Some(Layer::Verified), t) == SfvMode::Permissive,
        filtering::release_mode(Some(rules), None, t) == filtering::mode_of(Some(rules), None, t),
{
}

/// Without a layer an indicator in the path decides, that of verified content before that of
/// unverified content, and without any the default does.
pub proof fn indicators_decide_the_mode(rules: SfvRules, a: Seq<char>, b: Seq<char>, k: int)
    ensures
        0 <= k < rules.verified_indicators@.len() ==> filtering::mode_of(
            Some(rules),
            None,
            a + rules.verified_indicators@[k]@ + b,
        ) == SfvMode::Strict,
        0 <= k < rules.unverified_indicators@.len() && (forall|m: int|
            0 <= m < rules.verified_indicators@.len() ==> !text::contains(
                a + rules.unverified_indicators@[k]@ + b,
                #[trigger] rules.verified_indicators@[m]@,
            )) ==> filtering::mode_of(Some(rules), None, a + rules.unverified_indicators@[k]@ + b)
            == SfvMode::Permissive,
        (forall|m: int|
            0 <= m < rules.verified_indicators@.len() ==> !text::contains(
                a,
                #[trigger] rules.verified_indicators@[m]@,
            )) && (forall|m: int|
            0 <= m < rules.unverified_indicators@.len() ==> !text::contains(
                a,
                #[trigger] rules.unverified_indicators@[m]@,
            )) ==> filtering::mode_of(Some(rules), None, a) == rules.default_mode,
{
    let vs = text::views(rules.verified_indicators@);
    let us = text::views(rules.unverified_indicators@);
    assert forall|m: int| 0 <= m < vs.len() implies #[trigger] vs[m]
        == rules.verified_indicators@[m]@ by {}
    assert forall|m: int| 0 <= m < us.len() implies #[trigger] us[m]
        == rules.unverified_indicators@[m]@ by {}
    if 0 <= k < vs.len() {
        let t = a + vs[k] + b;
        assert(t.subrange(a.len() as int, (a.len() + vs[k].len()) as int) =~= vs[k]);
        assert(text::contains(t, vs[k]));
    }
    if 0 <= k < us.len() {
        let t = a + us[k] + b;
        assert(t.subrange(a.len() as int, (a.len() + us[k].len()) as int) =~= us[k]);
        assert(text::contains(t, us[k]));
    }
}

/// A directory is shown by name unless its name, in small letters, is one of those to exclude,
/// or it stands at the root, there is a list of what to show there, and it is not on it.
pub proof fn directories_are_filtered_by_name(
    e: FilterEngine,
    parent: Seq<char>,
    name: Seq<char>,
)
    ensures
        (exists|i: int|
            0 <= i < e.handle.0.exclude_dirs@.len() && (#[trigger] e.handle.0.exclude_dirs@[i])@
                == text::lowered(name)) ==> !e.name_allowed(parent, name),
        (forall|i: int|
            0 <= i < e.handle.0.exclude_dirs@.len() ==> (#[trigger] e.handle.0.exclude_dirs@[i])@
                != text::lowered(name)) && (path::parts(parent) != path::parts(e.backend_path@)
            || e.handle.0.include_dirs@.len() == 0 || exists|i: int|
            0 <= i < e.handle.0.include_dirs@.len() && (#[trigger] e.handle.0.include_dirs@[i])@
                == text::lowered(name)) ==> e.name_allowed(parent, name),
        path::parts(parent) == path::parts(e.backend_path@) && e.handle.0.include_dirs@.len() > 0
            && (forall|i: int|
            0 <= i < e.handle.0.include_dirs@.len() ==> (#[trigger] e.handle.0.include_dirs@[i])@
                != text::lowered(name)) ==> !e.name_allowed(parent, name),
{
    let out = text::views(e.handle.0.exclude_dirs@);
    let only = text::views(e.handle.0.include_dirs@);
    assert forall|i: int| 0 <= i < out.len() implies #[trigger] out[i]
        == e.handle.0.exclude_dirs@[i]@ by {}
    assert forall|i: int| 0 <= i < only.len() implies #[trigger] only[i]
        == e.handle.0.include_dirs@[i]@ by {}
    if exists|i: int|
        0 <= i < e.handle.0.exclude_dirs@.len() && (#[trigger] e.handle.0.exclude_dirs@[i])@
            == text::lowered(name) {
        let i = choose|i: int|
            0 <= i < e.handle.0.exclude_dirs@.len() && (#[trigger] e.handle.0.exclude_dirs@[i])@
                == text::lowered(name);
        assert(out[i] == text::lowered(name));
    }
    if exists|i: int|
        0 <= i < e.handle.0.include_dirs@.len() && (#[trigger] e.handle.0.include_dirs@[i])@
            == text::lowered(name) {
        let i = choose|i: int|
            0 <= i < e.handle.0.include_dirs@.len() && (#[trigger] e.handle.0.include_dirs@[i])@
                == text::lowered(name);
        assert(only[i] == text::lowered(name));
    }
}

/// The name, in small letters, ends in `.rar`, or in `.r` and two digits.
pub open spec fn names_an_archive(low: Seq<char>) -> bool {
    ||| laws::ends_in(low, seq!['.', 'r', 'a', 'r'])
    ||| low.len() >= 2 && laws::ends_in(low.take(low.len() - 2), seq!['.', 'r']) && 0x30
        <= (low[low.len() - 2] as u32) <= 0x39 && 0x30 <= (low[low.len() - 1] as u32) <= 0x39
}

/// Archives are told by their names.
pub proof fn archives_are_told_by_name(low: Seq<char>)
    ensures
        filtering::archive_named(low) <==> names_an_archive(low),
{
    let n = low.len();
    reveal_strlit(".rar");
    assert(".rar"@ =~= seq!['.', 'r', 'a', 'r']);
    if n >= 4 {
        let stem = low.take(n - 2);
        let mark = stem.skip(n - 4);
        assert(low.subrange(n - 4, n as int) =~= low.skip(n - 4));
        assert(mark =~= seq![low[n - 4], low[n - 3]]);
        assert(mark[0] == low[n - 4] && mark[1] == low[n - 3]);
        assert(low.skip(n - 2)[0] == low[n - 2]);
        assert(low.skip(n - 2)[1] == low[n - 1]);
        if low[n - 4] == '.' && low[n - 3] == 'r' {
            assert(mark =~= seq!['.', 'r']);
        }
        if laws::ends_in(stem, seq!['.', 'r']) {
            assert(mark == seq!['.', 'r']);
            assert(seq!['.', 'r'][0] == '.' && seq!['.', 'r'][1] == 'r');
        }
        let two = low.skip(n - 2);
        if text::all_digits(two) {
            assert(0x30 <= (two[0] as u32) <= 0x39 && 0x30 <= (two[1] as u32) <= 0x39);
        }
        if 0x30 <= (low[n - 2] as u32) <= 0x39 && 0x30 <= (low[n - 1] as u32) <= 0x39 {
            assert(text::all_digits(two));
        }
        assert(text::ends(low, ".rar"@) <==> laws::ends_in(low, seq!['.', 'r', 'a', 'r']));
    } else {
        assert(!filtering::archive_named(low));
    }
}

/// A file is hidden by its name exactly where it is an archive and archives are hidden, it
/// fits a pattern to exclude, or the root has a list that it is not on.
pub proof fn files_are_filtered_by_name(e: FilterEngine, parent: Seq<char>, name: Seq<char>)
    ensures
        e.handle.0.hide_archives && names_an_archive(text::lowered(name))
            ==> e.file_hidden_by_name(parent, name),
        forall|i: int|
            0 <= i < e.handle.0.exclude_file_patterns@.len() && filtering::fits(
                (#[trigger] e.handle.0.exclude_file_patterns@[i])@,
                text::lowered(name),
            ) ==> e.file_hidden_by_name(parent, name),
        (!e.handle.0.hide_archives || !names_an_archive(text::lowered(name))) && (forall|i: int|
            0 <= i < e.handle.0.exclude_file_patterns@.len() ==> !filtering::fits(
                (#[trigger] e.handle.0.exclude_file_patterns@[i])@,
                text::lowered(name),
            )) && (path::parts(parent) != path::parts(e.backend_path@)
            || e.handle.0.include_dirs@.len() == 0) ==> !e.file_hidden_by_name(parent, name),
{
    archives_are_told_by_name(text::lowered(name));
    let all = text::views(e.handle.0.exclude_file_patterns@);
    assert forall|i: int| 0 <= i < all.len() implies #[trigger] all[i]
        == e.handle.0.exclude_file_patterns@[i]@ by {}
    assert forall|i: int|
        0 <= i < e.handle.0.exclude_file_patterns@.len() && filtering::fits(
            (#[trigger] e.handle.0.exclude_file_patterns@[i])@,
            text::lowered(name),
        ) implies e.file_hidden_by_name(parent, name) by {
        assert(filtering::fits(all[i], text::lowered(name)));
    }
}

/// Listings are validated exactly where validation is on and not lazy; files wait for their
/// directory exactly where it is on and lazy, and their directory is strict or permissive ones
/// are validated too.
pub proof fn validation_happens_once(e: FilterEngine, dir: Seq<char>, layer: Option<Layer>)
    ensures
        e.handle.0.sfv is None ==> !e.validates_listings() && !e.file_depends(dir, layer),
        e.handle.0.sfv matches Some(rules) ==> {
            &&& !rules.enabled ==> !e.validates_listings() && !e.file_depends(dir, layer)
            &&& rules.enabled ==> e.validates_listings() == !rules.lazy_mode
            &&& rules.enabled && rules.lazy_mode && rules.permissive_validates ==> e.file_depends(
                dir,
                layer,
            )
            &&& rules.enabled && rules.lazy_mode && layer == Some(Layer::Verified)
                ==> e.file_depends(dir, layer)
            &&& rules.enabled && rules.lazy_mode && layer == Some(Layer::Unverified)
                && !rules.permissive_validates ==> !e.file_depends(dir, layer)
        },
        e.validates_listings() ==> !e.file_depends(dir, layer),
{
}

/// A directory of a listing is left out where it fails and listings are validated, or where its
/// name is not allowed, and stays otherwise.
pub proof fn failing_directories_are_left_out(
    e: FilterEngine,
    parent: Seq<char>,
    name: Seq<char>,
    passes: bool,
)
    ensures
        e.handle.0.sfv matches Some(rules) && rules.enabled && !rules.lazy_mode && !passes
            ==> !e.lists_directory(parent, name, passes),
        !e.name_allowed(parent, name) ==> !e.lists_directory(parent, name, passes),
        e.name_allowed(parent, name) ==> e.lists_directory(parent, name, true),
        e.name_allowed(parent, name) && (e.handle.0.sfv matches Some(rules) ==> !rules.enabled
            || rules.lazy_mode) ==> e.lists_directory(parent, name, passes),
{
}

/// A file is left out where its name hides it, or where its directory is not shown and that
/// matters, and stays otherwise.
pub proof fn files_follow_their_directory(
    e: FilterEngine,
    parent: Seq<char>,
    name: Seq<char>,
    layer: Option<Layer>,
    shown: bool,
)
    ensures
        e.file_hidden_by_name(parent, name) ==> !e.lists_file(parent, name, layer, shown),
        e.file_depends(parent, layer) ==> !e.lists_file(parent, name, layer, false),
        !e.file_hidden_by_name(parent, name) ==> e.lists_file(parent, name, layer, true),
        !e.file_hidden_by_name(parent, name) && !e.file_depends(parent, layer) ==> e.lists_file(
            parent,
            name,
            layer,
            shown,
        ),
{
}

/// What is shown is what was decided last, while that holds; otherwise a directory is hidden
/// exactly for one of the reasons to hide it.
pub proof fn decisions_are_followed(e: FilterEngine, t: Seq<char>, now: u64, p: DirectoryProbe)
    ensures
        e.decided(t, now) matches Some(info) ==> e.shown_at(t, now, p) == info.should_show,
        e.decided(t, now) is None && filtering::hidden(e.handle.0, t, p) is Some ==> !e.shown_at(
            t,
            now,
            p,
        ),
        e.decided(t, now) is None && filtering::hidden(e.handle.0, t, p) is None ==> e.shown_at(
            t,
            now,
            p,
        ),
{
}

/// A decision is used again until its time is over, counted from when it was made, and not
/// before that.
pub proof fn decisions_hold_until_they_expire(e: FilterEngine, t: Seq<char>, now: u64)
    ensures
        !e.cache().dom().contains(path::key(t)) ==> e.decided(t, now) is None,
        e.cache().dom().contains(path::key(t)) ==> {
            let (shown, at) = e.cache()[path::key(t)];
            &&& now < at ==> e.decided(t, now) is None
            &&& at <= now && now - at < e.cache_ttl_secs * 1_000_000_000 ==> (e.decided(
                t,
                now,
            ) matches Some(info) && info.should_show == shown && info.timestamp == at)
            &&& at <= now && now - at >= e.cache_ttl_secs * 1_000_000_000 ==> e.decided(t, now)
                is None
        },
{
}

/// A download counts as going on exactly where one of the files changed within the threshold.
pub proof fn downloads_are_told_by_recent_files(e: FilterEngine, ages: Seq<FileAge>, i: int)
    ensures
        0 <= i < ages.len() && (ages[i] matches FileAge::Seconds(n) && n
            < e.handle.0.download_threshold_secs) ==> e.downloading(ages) && e.failure_log(ages)
            is None,
        (forall|j: int|
            0 <= j < ages.len() ==> (#[trigger] ages[j] matches FileAge::Seconds(n) ==> n
                >= e.handle.0.download_threshold_secs)) ==> !e.downloading(ages) && (
        e.handle.0.sfv matches Some(rules) ==> (rules.log_failures ==> (
        rules.log_file matches Some(f) ==> e.failure_log(ages) == Some(f@)))),
{
}

/// Where content may lie is tried in order: the first place that exists is taken, and nothing
/// that exists is passed over.
pub proof fn the_first_place_that_exists_is_taken(
    places: Seq<(Seq<char>, Layer)>,
    there: Seq<bool>,
)
    requires
        there.len() == places.len(),
    ensures
        match filtering::first_existing(places, there) {
            Some(found) => exists|i: int|
                0 <= i < places.len() && #[trigger] places[i] == found && there[i] && forall|j: int|
                    0 <= j < i ==> !(#[trigger] there[j]),
            None => forall|j: int| 0 <= j < there.len() ==> !(#[trigger] there[j]),
        },
    decreases places.len(),
{
    if places.len() > 0 {
        if there[0] {
            assert(places[0] == filtering::first_existing(places, there)->0);
        } else {
            let p = places.drop_first();
            let e = there.drop_first();
            the_first_place_that_exists_is_taken(p, e);
            match filtering::first_existing(p, e) {
                Some(found) => {
                    let i = choose|i: int|
                        0 <= i < p.len() && #[trigger] p[i] == found && e[i] && forall|j: int|
                            0 <= j < i ==> !(#[trigger] e[j]);
                    assert(places[i + 1] == found);
                    assert(there[i + 1]);
                    assert forall|j: int| 0 <= j < i + 1 implies !(#[trigger] there[j]) by {
                        if j > 0 {
                            assert(e[j - 1] == there[j]);
                        }
                    }
                },
                None => {
                    assert forall|j: int| 0 <= j < there.len() implies !(#[trigger] there[j]) by {
                        if j > 0 {
                            assert(e[j - 1] == there[j]);
                        }
                    }
                },
            }
        }
    }
}

/// A path below the backend is looked for in the overlay before the union mount, and in each
/// of them in the unverified layer before the verified one, always at the same place below.
pub proof fn layers_are_searched_in_order(e: FilterEngine, rel: Seq<char>)
    requires
        path::tidy(rel),
    ensures
        ({
            let places = e.places(path::joined(e.backend_path@, rel));
            let first: int = if e.overlay is Some {
                2
            } else {
                0
            };
            &&& e.overlay matches Some(l) ==> places.len() >= 2 && places[0] == (
                path::joined(l.unverified@, rel),
                Layer::Unverified,
            ) && places[1] == (path::joined(l.verified@, rel), Layer::Verified)
            &&& e.unionfs matches Some(l) ==> places.len() == first + 2 && places[first] == (
                path::joined(l.unverified@, rel),
                Layer::Unverified,
            ) && places[first + 1] == (path::joined(l.verified@, rel), Layer::Verified)
            &&& e.unionfs is None ==> places.len() == first
        }),
{
    path::join_then_strip(e.backend_path@, rel);
}

} // verus!
