//! What paths keep when they are taken apart and put together.

use crate::path;
use crate::text;
use vstd::prelude::*;

verus! {

proof fn until_stays(t: Seq<char>, c: char, e: int)
    requires
        0 <= e <= t.len(),
        text::until(t, c) <= e,
    ensures
        text::until(t.take(e), c) == text::until(t, c),
    decreases t.len(),
{
    text::until_bounds(t, c);
    if t.len() > 0 && t[0] != c {
        text::until_bounds(t.drop_first(), c);
        assert(e > 0);
        until_stays(t.drop_first(), c, e - 1);
        assert(t.take(e).drop_first() =~= t.drop_first().take(e - 1));
        assert(t.take(e)[0] == t[0]);
    } else if e > 0 {
        assert(t.take(e)[0] == t[0]);
    }
}

proof fn spans_have_bounds(rest: Seq<char>, off: int, first: bool)
    ensures
        forall|k: int|
            0 <= k < path::spans_tail(rest, off, first).len() ==> off < (
            #[trigger] path::spans_tail(rest, off, first)[k]).1 <= off + rest.len(),
        path::spans_tail(rest, off, first).len() == path::parts_tail(rest, first).len(),
    decreases rest.len(),
{
    if rest.len() > 0 {
        if rest[0] == '/' {
            spans_have_bounds(rest.drop_first(), off + 1, false);
        } else {
            let n = text::until(rest, '/');
            text::until_bounds(rest, '/');
            text::until_bounds(rest.drop_first(), '/');
            let more = path::spans_tail(rest.skip(n), off + n, false);
            spans_have_bounds(rest.skip(n), off + n, false);
            assert forall|k: int|
                0 <= k < path::spans_tail(rest, off, first).len() implies off < (
            #[trigger] path::spans_tail(rest, off, first)[k]).1 <= off + rest.len() by {
                if !first && rest.take(n) == seq!['.'] {
                    assert(path::spans_tail(rest, off, first)[k] == more[k]);
                } else if k > 0 {
                    assert(path::spans_tail(rest, off, first)[k] == more[k - 1]);
                }
            }
        }
    }
}

proof fn cut_keeps_parts(rest: Seq<char>, off: int, first: bool, k: int)
    requires
        0 < k <= path::spans_tail(rest, off, first).len(),
    ensures
        path::parts_tail(
            rest.take(path::spans_tail(rest, off, first)[k - 1].1 - off),
            first,
        ) == path::parts_tail(rest, first).take(k),
    decreases rest.len(),
{
    let all = path::spans_tail(rest, off, first);
    let e = all[k - 1].1 - off;
    let cut = rest.take(e);
    spans_have_bounds(rest, off, first);
    assert(off < all[k - 1].1 <= off + rest.len());
    if rest[0] == '/' {
        cut_keeps_parts(rest.drop_first(), off + 1, false, k);
        assert(cut.drop_first() =~= rest.drop_first().take(e - 1));
        assert(cut[0] == '/');
    } else {
        let n = text::until(rest, '/');
        text::until_bounds(rest, '/');
        text::until_bounds(rest.drop_first(), '/');
        let left = rest.skip(n);
        let more = path::spans_tail(left, off + n, false);
        spans_have_bounds(left, off + n, false);
        assert(cut[0] == rest[0]);
        if !first && rest.take(n) == seq!['.'] {
            assert(all == more);
            assert(more[k - 1].1 > off + n);
            cut_keeps_parts(left, off + n, false, k);
            until_stays(rest, '/', e);
            text::until_bounds(cut, '/');
            text::until_bounds(cut.drop_first(), '/');
            assert(cut.take(n) =~= rest.take(n));
            assert(cut.skip(n) =~= left.take(e - n));
        } else {
            assert(all == seq![(off, off + n)] + more);
            if k == 1 {
                assert(e == n);
                until_stays(rest, '/', e);
                text::until_bounds(cut, '/');
                text::until_bounds(cut.drop_first(), '/');
                assert(cut.take(n) =~= rest.take(n));
                assert(cut.skip(n) =~= Seq::<char>::empty());
                assert(path::parts_tail(cut.skip(n), false) =~= Seq::<Seq<char>>::empty());
                assert(path::parts_tail(cut, first) =~= seq![rest.take(n)]);
                assert(path::parts_tail(rest, first).take(1) =~= seq![rest.take(n)]);
            } else {
                assert(all[k - 1] == more[k - 2]);
                assert(more[k - 2].1 > off + n);
                cut_keeps_parts(left, off + n, false, k - 1);
                until_stays(rest, '/', e);
                text::until_bounds(cut, '/');
                text::until_bounds(cut.drop_first(), '/');
                assert(cut.take(n) =~= rest.take(n));
                assert(cut.skip(n) =~= left.take(e - n));
                assert(path::parts_tail(rest, first).take(k) =~= seq![rest.take(n)]
                    + path::parts_tail(left, false).take(k - 1));
            }
        }
    }
}

/// The parent of a path has its components but for the last one; only the root and the empty
/// path have none.
pub proof fn the_parent_drops_the_last_component(t: Seq<char>)
    ensures
        match path::parent_of(t) {
            Some(p) => path::parts(t).len() > 0 && path::parts(p) == path::parts(t).drop_last(),
            None => path::parts(t).len() == 0 || path::parts(t) == seq![seq!['/']],
        },
{
    let s = path::spans(t);
    path::spans_hold_parts(t);
    if path::parent_of(t) is Some {
        if s.len() == 1 {
            assert(path::parts(Seq::<char>::empty()) =~= Seq::<Seq<char>>::empty());
            assert(path::parts(t).drop_last() =~= Seq::<Seq<char>>::empty());
        } else {
            let k = s.len() - 1;
            let e = s[k - 1].1;
            let p = t.take(e);
            if path::absolute(t) {
                let rest = t.skip(1);
                let more = path::spans_tail(rest, 1, false);
                assert(s == seq![(0int, 1int)] + more);
                assert(p[0] == '/');
                if k == 1 {
                    assert(p.skip(1) =~= Seq::<char>::empty());
                    assert(path::parts(p) =~= seq![seq!['/']]);
                    assert(path::parts(t).drop_last() =~= seq![seq!['/']]);
                } else {
                    assert(s[k - 1] == more[k - 2]);
                    cut_keeps_parts(rest, 1, false, k - 1);
                    assert(p.skip(1) =~= rest.take(e - 1));
                    assert(path::parts(t).drop_last() =~= seq![seq!['/']] + path::parts_tail(
                        rest,
                        false,
                    ).take(k - 1));
                }
            } else {
                cut_keeps_parts(t, 0, true, k);
                assert(p[0] == t[0]);
                assert(path::parts(t).drop_last() =~= path::parts_tail(t, true).take(k));
            }
        }
    } else if s.len() == 1 {
        assert(path::spans_tail(t.skip(1), 1, false).len() == 0);
        spans_have_bounds(t.skip(1), 1, false);
        assert(path::parts(t) =~= seq![seq!['/']]);
    }
}

/// A path lies under its parent, under itself, and under whatever its parent lies under.
pub proof fn paths_lie_under_their_parent(t: Seq<char>, base: Seq<char>)
    ensures
        path::under(t, t),
        path::parent_of(t) matches Some(p) ==> path::under(t, p) && (path::under(p, base)
            ==> path::under(t, base)) && (path::under(t, base) && path::parts(base).len()
            < path::parts(t).len() ==> path::under(p, base)),
{
    the_parent_drops_the_last_component(t);
    assert(path::parts(t).take(path::parts(t).len() as int) =~= path::parts(t));
    if let Some(p) = path::parent_of(t) {
        let all = path::parts(t);
        let up = path::parts(p);
        assert(all.take(up.len() as int) =~= up);
        if path::parts(base).len() <= up.len() {
            assert(up.take(path::parts(base).len() as int) =~= all.take(
                path::parts(base).len() as int,
            ));
        }
    }
}

/// The components of a path that is put together are those of both.
pub proof fn joining_puts_components_together(base: Seq<char>, name: Seq<char>)
    requires
        base.len() > 0,
        path::plain_name(name),
    ensures
        path::parts(path::joined(base, name)) == path::parts(base).push(name),
        path::under(path::joined(base, name), base),
        name != seq!['.', '.'] ==> path::file_name_of(path::joined(base, name)) == Some(name),
{
    assert(!name.contains('/'));
    if name[0] == '/' {
        assert(name.contains(name[0]));
    }
    path::join_appends(base, name);
    let n = text::until(name, '/');
    text::until_bounds(name, '/');
    text::until_bounds(name.drop_first(), '/');
    if n < name.len() {
        assert(name.contains(name[n]));
    }
    assert(name.take(n) =~= name);
    assert(name.skip(n) =~= Seq::<char>::empty());
    assert(path::parts_tail(name.skip(n), false) =~= Seq::<Seq<char>>::empty());
    assert(path::parts_tail(name, false) =~= seq![name]);
    assert(path::parts(path::joined(base, name)) =~= path::parts(base).push(name));
    assert(path::parts(base).push(name).take(path::parts(base).len() as int) =~= path::parts(
        base,
    ));
    if name == seq!['/'] {
        assert(name[0] == '/');
    }
}

/// Separators at the end, doubled separators and lone dots between separators make no
/// difference to what a path means.
pub proof fn separators_make_no_difference(t: Seq<char>)
    requires
        t.len() > 0,
    ensures
        path::parts(t.push('/')) == path::parts(t),
        path::parts(t.push('/').push('.')) == path::parts(t),
        path::key(t.push('/')) == path::key(t),
{
    let none = Seq::<char>::empty();
    let dot = seq!['.'];
    assert(path::parts_tail(none, false) =~= Seq::<Seq<char>>::empty());
    text::until_bounds(dot, '/');
    text::until_bounds(dot.drop_first(), '/');
    assert(dot.take(text::until(dot, '/')) =~= dot) by {
        assert(dot.drop_first() =~= none);
        assert(text::until(none, '/') == 0);
    }
    assert(dot.skip(1) =~= none);
    assert(path::parts_tail(dot, false) =~= Seq::<Seq<char>>::empty());
    assert(t.push('/')[0] == t[0]);
    assert(t.push('/').push('.')[0] == t[0]);
    if path::absolute(t) {
        let rest = t.skip(1);
        path::tail_across_separator(rest, none, 0, false);
        path::tail_across_separator(rest, dot, 0, false);
        assert(t.push('/').skip(1) =~= rest + seq!['/'] + none);
        assert(t.push('/').push('.').skip(1) =~= rest + seq!['/'] + dot);
        assert(path::parts(t.push('/')) =~= path::parts(t));
        assert(path::parts(t.push('/').push('.')) =~= path::parts(t));
    } else {
        path::tail_across_separator(t, none, 0, true);
        path::tail_across_separator(t, dot, 0, true);
        assert(t.push('/') =~= t + seq!['/'] + none);
        assert(t.push('/').push('.') =~= t + seq!['/'] + dot);
        assert(path::parts(t.push('/')) =~= path::parts(t));
        assert(path::parts(t.push('/').push('.')) =~= path::parts(t));
    }
    path::key_identifies_path(t.push('/'), t);
}

/// The extension of a file is what follows the last dot of its name, where that is not the
/// first character.
pub proof fn extensions_follow_the_last_dot(t: Seq<char>, stem: Seq<char>, ext: Seq<char>)
    requires
        stem.len() > 0,
        !ext.contains('.'),
        path::file_name_of(t) == Some(stem.push('.') + ext),
    ensures
        path::extension_of(t) == Some(ext),
{
    let name = stem.push('.') + ext;
    last_index_before(name, '.', stem.len() as int, ext);
    assert(name.skip((stem.len() + 1) as int) =~= ext);
}

/// A character is found where it stands last.
pub proof fn last_index_before(t: Seq<char>, c: char, at: int, tail: Seq<char>)
    requires
        0 <= at < t.len(),
        t[at] == c,
        t.len() == at + 1 + tail.len(),
        forall|j: int| 0 <= j < tail.len() ==> t[at + 1 + j] == #[trigger] tail[j],
        !tail.contains(c),
    ensures
        text::last_index(t, c) == at,
    decreases tail.len(),
{
    if tail.len() > 0 {
        let rest = tail.drop_last();
        assert(t.last() == tail.last());
        assert(tail.contains(tail.last()));
        assert forall|j: int| 0 <= j < rest.len() implies t.drop_last()[at + 1 + j]
            == #[trigger] rest[j] by {
            assert(tail[j] == rest[j]);
        }
        if rest.contains(c) {
            let j = choose|j: int| 0 <= j < rest.len() && rest[j] == c;
            assert(tail[j] == c);
        }
        last_index_before(t.drop_last(), c, at, rest);
    }
}

} // verus!
