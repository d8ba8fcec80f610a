//! Unix paths as text: components, parents, prefixes and joining.

use crate::text;
use vstd::prelude::*;
use vstd::string::*;

verus! {

broadcast use vstd::string::group_string_axioms;

/// Where the components of `rest` stand, as pairs of start and end, counted from `off`.
/// Empty pieces and every `.` are passed over, except a `.` at the very start of a
/// relative path (`first`).
pub open spec fn spans_tail(rest: Seq<char>, off: int, first: bool) -> Seq<(int, int)>
    decreases rest.len(),
{
    if rest.len() == 0 {
        Seq::empty()
    } else if rest[0] == '/' {
        spans_tail(rest.drop_first(), off + 1, false)
    } else {
        let n = text::until(rest, '/');
        proof {
            text::until_bounds(rest, '/');
            text::until_bounds(rest.drop_first(), '/');
        }
        let more = spans_tail(rest.skip(n), off + n, false);
        if !first && rest.take(n) == seq!['.'] {
            more
        } else {
            seq![(off, off + n)] + more
        }
    }
}

/// The texts of the components of `rest`; see `spans_tail`.
pub open spec fn parts_tail(rest: Seq<char>, first: bool) -> Seq<Seq<char>>
    decreases rest.len(),
{
    if rest.len() == 0 {
        Seq::empty()
    } else if rest[0] == '/' {
        parts_tail(rest.drop_first(), false)
    } else {
        let n = text::until(rest, '/');
        proof {
            text::until_bounds(rest, '/');
            text::until_bounds(rest.drop_first(), '/');
        }
        let more = parts_tail(rest.skip(n), false);
        if !first && rest.take(n) == seq!['.'] {
            more
        } else {
            seq![rest.take(n)] + more
        }
    }
}

/// The path starts at the root.
pub open spec fn absolute(t: Seq<char>) -> bool {
    t.len() > 0 && t[0] == '/'
}

/// Where the components of a path stand; the root is the component `/`.
pub open spec fn spans(t: Seq<char>) -> Seq<(int, int)> {
    if absolute(t) {
        seq![(0int, 1int)] + spans_tail(t.skip(1), 1, false)
    } else {
        spans_tail(t, 0, true)
    }
}

/// The components of a path.
pub open spec fn parts(t: Seq<char>) -> Seq<Seq<char>> {
    if absolute(t) {
        seq![seq!['/']] + parts_tail(t.skip(1), false)
    } else {
        parts_tail(t, true)
    }
}

/// The components of `base` are the first components of `t`.
pub open spec fn under(t: Seq<char>, base: Seq<char>) -> bool {
    parts(base).len() <= parts(t).len() && parts(t).take(parts(base).len() as int) == parts(base)
}

/// Of two paths that cover a third one, the deeper one lies under the other.
pub proof fn deeper_prefix_lies_under(t: Seq<char>, a: Seq<char>, b: Seq<char>)
    requires
        under(t, a),
        under(t, b),
        parts(a).len() >= parts(b).len(),
    ensures
        under(a, b),
{
    assert(parts(a).take(parts(b).len() as int) =~= parts(t).take(parts(b).len() as int));
}

/// One rank is above another: it lies deeper, or as deep with a longer text. A rank holds the
/// depth of a place and the length in bytes of the text that names it.
pub open spec fn outranks(a: (nat, nat), b: (nat, nat)) -> bool {
    a.0 > b.0 || a.0 == b.0 && a.1 > b.1
}

/// Tests whether one rank is above another.
pub fn is_above(a: (usize, usize), b: (usize, usize)) -> (r: bool)
    ensures
        r == outranks((a.0 as nat, a.1 as nat), (b.0 as nat, b.1 as nat)),
{
    a.0 > b.0 || a.0 == b.0 && a.1 > b.1
}

/// What stays of `t` once the components of `base` are taken off.
pub open spec fn relative(t: Seq<char>, base: Seq<char>) -> Option<Seq<char>> {
    let s = spans(t);
    let k = parts(base).len();
    if !under(t, base) {
        None
    } else if k == s.len() && k > 0 {
        Some(Seq::empty())
    } else {
        let lo = if k == 0 {
            0
        } else {
            s[k as int].0
        };
        let hi = if s.len() == 0 {
            0
        } else {
            s.last().1
        };
        Some(t.subrange(lo, hi))
    }
}

/// `rel` appended to `base`, with one separator between; an absolute `rel` replaces `base`.
pub open spec fn joined(base: Seq<char>, rel: Seq<char>) -> Seq<char> {
    if absolute(rel) {
        rel
    } else if base.len() > 0 && base.last() != '/' {
        base.push('/') + rel
    } else {
        base + rel
    }
}

/// The path without its last component; the root and the empty path have no parent.
pub open spec fn parent_of(t: Seq<char>) -> Option<Seq<char>> {
    let s = spans(t);
    if s.len() == 0 || (s.len() == 1 && absolute(t)) {
        None
    } else if s.len() == 1 {
        Some(Seq::empty())
    } else {
        Some(t.take(s[s.len() - 2].1))
    }
}

/// The last component, where it is a name.
pub open spec fn file_name_of(t: Seq<char>) -> Option<Seq<char>> {
    let p = parts(t);
    if p.len() == 0 || p.last() == seq!['/'] || p.last() == seq!['.'] || p.last() == seq!['.', '.'] {
        None
    } else {
        Some(p.last())
    }
}

/// What follows the last dot of a file name that does not start with it.
pub open spec fn extension_of(t: Seq<char>) -> Option<Seq<char>> {
    match file_name_of(t) {
        Some(name) => {
            let dot = text::last_index(name, '.');
            if dot <= 0 {
                None
            } else {
                Some(name.skip(dot + 1))
            }
        },
        None => None,
    }
}

/// Names put together with one separator between each two.
pub open spec fn with_separators(names: Seq<Seq<char>>) -> Seq<char>
    decreases names.len(),
{
    if names.len() == 0 {
        Seq::empty()
    } else if names.len() == 1 {
        names[0]
    } else {
        names[0].push('/') + with_separators(names.drop_first())
    }
}

/// The shortest text with the given components.
pub open spec fn canonical(p: Seq<Seq<char>>) -> Seq<char> {
    if p.len() > 0 && p[0] == seq!['/'] {
        seq!['/'] + with_separators(p.drop_first())
    } else {
        with_separators(p)
    }
}

/// The text under which a path is kept in a table: two paths share it exactly when they
/// have the same components.
pub open spec fn key(t: Seq<char>) -> Seq<char> {
    canonical(parts(t))
}

/// A component that can follow another one.
pub open spec fn plain_name(n: Seq<char>) -> bool {
    &&& n.len() > 0
    &&& !n.contains('/')
    &&& n != seq!['.']
}

/// One text follows another across a separator: their components follow each other too.
pub proof fn tail_across_separator(a: Seq<char>, r: Seq<char>, off: int, first: bool)
    ensures
        spans_tail(a + seq!['/'] + r, off, first) == spans_tail(a, off, first) + spans_tail(
            r,
            off + a.len() + 1,
            false,
        ),
        parts_tail(a + seq!['/'] + r, first) == parts_tail(a, first) + parts_tail(r, false),
    decreases a.len(),
{
    let t = a + seq!['/'] + r;
    if a.len() == 0 {
        assert(t.drop_first() =~= r);
        assert(spans_tail(a, off, first) + spans_tail(r, off + 1, false) =~= spans_tail(
            r,
            off + 1,
            false,
        ));
        assert(parts_tail(a, first) + parts_tail(r, false) =~= parts_tail(r, false));
    } else if a[0] == '/' {
        tail_across_separator(a.drop_first(), r, off + 1, false);
        assert(t.drop_first() =~= a.drop_first() + seq!['/'] + r);
    } else {
        let n = text::until(a, '/');
        text::until_bounds(a, '/');
        text::until_bounds(a.drop_first(), '/');
        until_across(a, r);
        assert(t.take(n) =~= a.take(n));
        if n < a.len() {
            tail_across_separator(a.skip(n), r, off + n, false);
            assert(t.skip(n) =~= a.skip(n) + seq!['/'] + r);
        } else {
            assert(a.skip(n) =~= Seq::<char>::empty());
            assert(t.skip(n) =~= seq!['/'] + r);
            assert(t.skip(n).drop_first() =~= r);
            assert(spans_tail(t.skip(n), off + n, false) == spans_tail(r, off + n + 1, false));
            assert(parts_tail(t.skip(n), false) == parts_tail(r, false));
        }
        let s1 = spans_tail(a.skip(n), off + n, false);
        let s2 = spans_tail(r, off + a.len() + 1, false);
        let p1 = parts_tail(a.skip(n), false);
        let p2 = parts_tail(r, false);
        assert(s1 + s2 =~= spans_tail(t.skip(n), off + n, false));
        assert(p1 + p2 =~= parts_tail(t.skip(n), false));
        assert(seq![(off, off + n)] + (s1 + s2) =~= (seq![(off, off + n)] + s1) + s2);
        assert(seq![a.take(n)] + (p1 + p2) =~= (seq![a.take(n)] + p1) + p2);
    }
}

proof fn until_across(a: Seq<char>, r: Seq<char>)
    ensures
        text::until(a + seq!['/'] + r, '/') == text::until(a, '/'),
    decreases a.len(),
{
    let t = a + seq!['/'] + r;
    if a.len() > 0 && a[0] != '/' {
        until_across(a.drop_first(), r);
        assert(t.drop_first() =~= a.drop_first() + seq!['/'] + r);
    }
}

/// The spans are in order, inside the text, and hold the components.
pub proof fn spans_hold_parts(t: Seq<char>)
    ensures
        spans(t).len() == parts(t).len(),
        forall|k: int|
            0 <= k < spans(t).len() ==> 0 <= (#[trigger] spans(t)[k]).0 < spans(t)[k].1 <= t.len(),
        forall|k: int|
            0 <= k < spans(t).len() ==> #[trigger] parts(t)[k] == t.subrange(
                spans(t)[k].0,
                spans(t)[k].1,
            ),
        forall|k: int, j: int|
            0 <= k < j < spans(t).len() ==> (#[trigger] spans(t)[k]).1 <= (#[trigger] spans(t)[j]).0,
        forall|k: int| 1 <= k < parts(t).len() ==> plain_name(#[trigger] parts(t)[k]),
{
    if absolute(t) {
        tail_spans_hold_parts(t.skip(1), t, 1, false);
    } else {
        assert(t.skip(0) =~= t);
        tail_spans_hold_parts(t, t, 0, true);
    }
}

proof fn tail_spans_hold_parts(rest: Seq<char>, t: Seq<char>, off: int, first: bool)
    requires
        0 <= off <= t.len(),
        rest == t.skip(off),
    ensures
        spans_tail(rest, off, first).len() == parts_tail(rest, first).len(),
        forall|k: int|
            0 <= k < spans_tail(rest, off, first).len() ==> off <= (#[trigger] spans_tail(
                rest,
                off,
                first,
            )[k]).0 < spans_tail(rest, off, first)[k].1 <= t.len(),
        forall|k: int|
            0 <= k < spans_tail(rest, off, first).len() ==> #[trigger] parts_tail(rest, first)[k]
                == t.subrange(
                spans_tail(rest, off, first)[k].0,
                spans_tail(rest, off, first)[k].1,
            ),
        forall|k: int, j: int|
            0 <= k < j < spans_tail(rest, off, first).len() ==> (#[trigger] spans_tail(
                rest,
                off,
                first,
            )[k]).1 <= (#[trigger] spans_tail(rest, off, first)[j]).0,
        forall|k: int|
            (!first || k > 0) && 0 <= k < parts_tail(rest, first).len() ==> plain_name(
                #[trigger] parts_tail(rest, first)[k],
            ),
        parts_tail(rest, first).len() > 0 ==> !parts_tail(rest, first)[0].contains('/')
            && parts_tail(rest, first)[0].len() > 0,
    decreases rest.len(),
{
    if rest.len() == 0 {
    } else if rest[0] == '/' {
        assert(rest.drop_first() =~= t.skip(off + 1));
        tail_spans_hold_parts(rest.drop_first(), t, off + 1, false);
    } else {
        let n = text::until(rest, '/');
        text::until_bounds(rest, '/');
        text::until_bounds(rest.drop_first(), '/');
        assert(rest.skip(n) =~= t.skip(off + n));
        tail_spans_hold_parts(rest.skip(n), t, off + n, false);
        assert(rest.take(n) =~= t.subrange(off, off + n));
        assert(!rest.take(n).contains('/')) by {
            if rest.take(n).contains('/') {
                let j = choose|j: int| 0 <= j < n && rest.take(n)[j] == '/';
                assert(rest[j] == '/');
            }
        }
        let s1 = spans_tail(rest.skip(n), off + n, false);
        let p1 = parts_tail(rest.skip(n), false);
        if !(!first && rest.take(n) == seq!['.']) {
            let s = spans_tail(rest, off, first);
            let p = parts_tail(rest, first);
            assert(s =~= seq![(off, off + n)] + s1);
            assert(p =~= seq![rest.take(n)] + p1);
            assert forall|k: int| 0 <= k < s.len() implies off <= (#[trigger] s[k]).0 < s[k].1
                <= t.len() by {
                if k > 0 {
                    assert(s[k] == s1[k - 1]);
                }
            }
            assert forall|k: int| 0 <= k < s.len() implies #[trigger] p[k] == t.subrange(
                s[k].0,
                s[k].1,
            ) by {
                if k > 0 {
                    assert(s[k] == s1[k - 1] && p[k] == p1[k - 1]);
                }
            }
            assert forall|k: int, j: int| 0 <= k < j < s.len() implies (#[trigger] s[k]).1 <= (
            #[trigger] s[j]).0 by {
                assert(s[j] == s1[j - 1]);
                if k > 0 {
                    assert(s[k] == s1[k - 1]);
                }
            }
            assert forall|k: int| (!first || k > 0) && 0 <= k < p.len() implies plain_name(
                #[trigger] p[k],
            ) by {
                if k > 0 {
                    assert(p[k] == p1[k - 1]);
                }
            }
        }
    }
}

/// The parent of a path is shorter than the path.
pub proof fn parent_is_shorter(t: Seq<char>)
    ensures
        parent_of(t) matches Some(p) ==> p.len() < t.len(),
{
    spans_hold_parts(t);
    let s = spans(t);
    if s.len() > 1 {
        assert(s[s.len() - 2].1 <= s[s.len() - 1].0);
    } else if s.len() == 1 {
        assert(s[0].0 < s[0].1);
    }
}

/// The spans of a vector, as mathematical integers.
pub open spec fn span_ints(v: Seq<(usize, usize)>) -> Seq<(int, int)> {
    Seq::new(v.len(), |i: int| (v[i].0 as int, v[i].1 as int))
}

/// Finds the components of a path.
pub fn spans_of(t: &[char]) -> (r: Vec<(usize, usize)>)
    ensures
        span_ints(r@) == spans(t@),
{
    let mut r: Vec<(usize, usize)> = Vec::new();
    let mut pos: usize = 0;
    let mut first: bool = true;
    if t.len() > 0 && t[0] == '/' {
        r.push((0, 1));
        pos = 1;
        first = false;
    }
    proof {
        assert(t@.skip(0) =~= t@);
        if first {
            assert(span_ints(r@) + spans_tail(t@, 0, true) =~= spans(t@));
        } else {
            assert(span_ints(r@) =~= seq![(0int, 1int)]);
        }
    }
    while pos < t.len()
        invariant
            pos <= t@.len(),
            span_ints(r@) + spans_tail(t@.skip(pos as int), pos as int, first) == spans(t@),
        decreases t@.len() - pos,
    {
        let ghost rest = t@.skip(pos as int);
        let ghost before = span_ints(r@);
        if t[pos] == '/' {
            proof {
                assert(rest.drop_first() =~= t@.skip(pos + 1));
            }
            pos += 1;
        } else {
            let end = text::find_char(t, pos, '/');
            proof {
                text::until_bounds(rest.drop_first(), '/');
                assert(rest.skip(end - pos) =~= t@.skip(end as int));
                assert(rest.take(end - pos) =~= t@.subrange(pos as int, end as int));
                if end - pos == 1 && t@[pos as int] == '.' {
                    assert(rest.take(end - pos) =~= seq!['.']);
                } else {
                    assert(rest.take(end - pos) != seq!['.']) by {
                        if rest.take(end - pos) == seq!['.'] {
                            assert(rest.take(end - pos).len() == 1);
                            assert(rest.take(end - pos)[0] == '.');
                        }
                    }
                }
            }
            if first || end - pos != 1 || t[pos] != '.' {
                r.push((pos, end));
                proof {
                    let more = spans_tail(t@.skip(end as int), end as int, false);
                    assert(span_ints(r@) =~= before + seq![(pos as int, end as int)]);
                    assert(before + (seq![(pos as int, end as int)] + more) =~= before + seq![
                        (pos as int, end as int),
                    ] + more);
                }
            }
            pos = end;
        }
        first = false;
    }
    proof {
        assert(t@.skip(pos as int) =~= Seq::<char>::empty());
        assert(span_ints(r@) + Seq::<(int, int)>::empty() =~= span_ints(r@));
    }
    r
}

/// A path, kept as its text.
#[derive(Debug)]
pub struct PathName {
    text: String,
}

impl View for PathName {
    type V = Seq<char>;

    closed spec fn view(&self) -> Seq<char> {
        self.text@
    }
}

/// The texts of a vector of paths.
pub open spec fn path_views(v: Seq<PathName>) -> Seq<Seq<char>> {
    Seq::new(v.len(), |i: int| v[i]@)
}

impl Clone for PathName {
    fn clone(&self) -> (r: Self)
        ensures
            r@ == self@,
    {
        PathName { text: self.text.clone() }
    }
}

impl PathName {
    pub fn new(text: &str) -> (r: Self)
        ensures
            r@ == text@,
    {
        PathName { text: text.to_owned() }
    }

    pub fn as_str(&self) -> (r: &str)
        ensures
            r@ == self@,
    {
        self.text.as_str()
    }

    pub fn to_text(&self) -> (r: String)
        ensures
            r@ == self@,
    {
        self.text.clone()
    }

    /// How many components the path has; the root counts as one.
    pub fn component_count(&self) -> (r: usize)
        ensures
            r == parts(self@).len(),
    {
        let t = text::chars_of(self.text.as_str());
        let s = spans_of(&t);
        proof {
            spans_hold_parts(self@);
            assert(span_ints(s@).len() == s@.len());
        }
        s.len()
    }

    /// The components of the path.
    pub fn components(&self) -> (r: Vec<Vec<char>>)
        ensures
            text::rows(r@) == parts(self@),
    {
        let t = text::chars_of(self.text.as_str());
        let s = spans_of(&t);
        let mut r: Vec<Vec<char>> = Vec::new();
        let mut i: usize = 0;
        proof {
            spans_hold_parts(self@);
            assert(span_ints(s@).len() == s@.len());
        }
        while i < s.len()
            invariant
                i <= s@.len(),
                t@ == self@,
                span_ints(s@) == spans(t@),
                s@.len() == parts(t@).len(),
                r@.len() == i,
                forall|k: int| 0 <= k < i ==> (#[trigger] r@[k])@ == parts(t@)[k],
            decreases s@.len() - i,
        {
            proof {
                spans_hold_parts(t@);
                assert(spans(t@)[i as int] == span_ints(s@)[i as int]);
                assert(parts(t@)[i as int] == t@.subrange(spans(t@)[i as int].0, spans(t@)[i as int].1));
            }
            r.push(text::copy_range(&t, s[i].0, s[i].1));
            i += 1;
        }
        proof {
            assert(text::rows(r@) =~= parts(self@));
        }
        r
    }

    /// Tests whether both paths have the same components.
    pub fn same(&self, other: &PathName) -> (r: bool)
        ensures
            r == (parts(self@) == parts(other@)),
    {
        let a = self.components();
        let b = other.components();
        proof {
            assert(text::rows(a@).len() == a@.len());
            assert(text::rows(b@).len() == b@.len());
        }
        if a.len() != b.len() {
            return false;
        }
        proof {
            assert(parts(self@).take(parts(other@).len() as int) =~= parts(self@));
        }
        self.starts_with(other)
    }

    /// Tests whether the components of `base` are the first ones of this path.
    pub fn starts_with(&self, base: &PathName) -> (r: bool)
        ensures
            r == under(self@, base@),
    {
        let a = self.components();
        let b = base.components();
        proof {
            assert(text::rows(a@).len() == a@.len());
            assert(text::rows(b@).len() == b@.len());
        }
        if b.len() > a.len() {
            return false;
        }
        let mut i: usize = 0;
        while i < b.len()
            invariant
                i <= b@.len() <= a@.len(),
                text::rows(a@) == parts(self@),
                text::rows(b@) == parts(base@),
                forall|k: int| 0 <= k < i ==> a@[k]@ == b@[k]@,
            decreases b@.len() - i,
        {
            if !text::same_chars(&a[i], &b[i]) {
                proof {
                    assert(text::rows(a@)[i as int] == a@[i as int]@);
                    assert(text::rows(b@)[i as int] == b@[i as int]@);
                    assert(parts(self@).take(parts(base@).len() as int)[i as int]
                        != parts(base@)[i as int]);
                }
                return false;
            }
            i += 1;
        }
        proof {
            assert forall|k: int| 0 <= k < parts(base@).len() implies parts(self@)[k]
                == parts(base@)[k] by {
                assert(text::rows(a@)[k] == a@[k]@);
                assert(text::rows(b@)[k] == b@[k]@);
            }
            assert(parts(self@).take(parts(base@).len() as int) =~= parts(base@));
        }
        true
    }

    /// Takes the components of `base` off.
    pub fn strip_prefix(&self, base: &PathName) -> (r: Option<PathName>)
        ensures
            match r {
                Some(p) => relative(self@, base@) == Some(p@),
                None => relative(self@, base@) is None,
            },
    {
        if !self.starts_with(base) {
            return None;
        }
        let t = text::chars_of(self.text.as_str());
        let s = spans_of(&t);
        let k = base.component_count();
        proof {
            spans_hold_parts(self@);
            assert(span_ints(s@).len() == s@.len());
        }
        if k == s.len() && k > 0 {
            return Some(PathName { text: String::new() });
        }
        let ghost g = spans(self@);
        let lo: usize = if k == 0 {
            0
        } else {
            proof {
                assert(g[k as int] == span_ints(s@)[k as int]);
            }
            s[k].0
        };
        let hi: usize = if s.len() == 0 {
            0
        } else {
            proof {
                assert(g[g.len() - 1] == span_ints(s@)[s@.len() - 1]);
            }
            s[s.len() - 1].1
        };
        proof {
            if s@.len() > 0 {
                assert(g[g.len() - 1].0 < g[g.len() - 1].1 <= t@.len());
                if 0 < k {
                    assert(g[k as int].0 < g[k as int].1);
                    if k < g.len() - 1 {
                        assert(g[k as int].1 <= g[g.len() - 1].0);
                    }
                }
            }
        }
        let piece = text::copy_range(&t, lo, hi);
        Some(PathName { text: text::text_of(&piece) })
    }

    /// Appends a path.
    pub fn join(&self, rel: &str) -> (r: PathName)
        ensures
            r@ == joined(self@, rel@),
    {
        let base = text::chars_of(self.text.as_str());
        let more = text::chars_of(rel);
        if more.len() > 0 && more[0] == '/' {
            return PathName { text: rel.to_owned() };
        }
        let mut out = self.text.clone();
        if base.len() > 0 && base[base.len() - 1] != '/' {
            out.push('/');
        }
        out.append(rel);
        PathName { text: out }
    }

    /// The path without its last component.
    pub fn parent(&self) -> (r: Option<PathName>)
        ensures
            match r {
                Some(p) => parent_of(self@) == Some(p@),
                None => parent_of(self@) is None,
            },
    {
        let t = text::chars_of(self.text.as_str());
        let s = spans_of(&t);
        proof {
            spans_hold_parts(self@);
            assert(span_ints(s@).len() == s@.len());
        }
        if s.len() == 0 || (s.len() == 1 && t[0] == '/') {
            return None;
        }
        if s.len() == 1 {
            return Some(PathName { text: String::new() });
        }
        let end: usize = s[s.len() - 2].1;
        proof {
            let g = spans(self@);
            assert(g[g.len() - 2] == span_ints(s@)[s@.len() - 2]);
            assert(g[g.len() - 2].0 < g[g.len() - 2].1 <= t@.len());
            assert(t@.subrange(0, end as int) =~= t@.take(end as int));
        }
        let piece = text::copy_range(&t, 0, end);
        Some(PathName { text: text::text_of(&piece) })
    }

    /// The last component, where it is a name.
    pub fn file_name(&self) -> (r: Option<Vec<char>>)
        ensures
            match r {
                Some(n) => file_name_of(self@) == Some(n@),
                None => file_name_of(self@) is None,
            },
    {
        let mut c = self.components();
        proof {
            assert(text::rows(c@).len() == c@.len());
            if c@.len() > 0 {
                assert(text::rows(c@)[c@.len() - 1] == c@[c@.len() - 1]@);
                assert(parts(self@).last() == c@.last()@);
            }
        }
        match c.pop() {
            None => None,
            Some(n) => {
                proof {
                    let root: Seq<char> = seq!['/'];
                    let dot: Seq<char> = seq!['.'];
                    let dots: Seq<char> = seq!['.', '.'];
                    assert(n@ == root <==> n@.len() == 1 && n@[0] == '/') by {
                        assert(n@.len() == 1 && n@[0] == '/' ==> n@ =~= root);
                    }
                    assert(n@ == dot <==> n@.len() == 1 && n@[0] == '.') by {
                        assert(n@.len() == 1 && n@[0] == '.' ==> n@ =~= dot);
                    }
                    assert(n@ == dots <==> n@.len() == 2 && n@[0] == '.' && n@[1] == '.') by {
                        assert(n@.len() == 2 && n@[0] == '.' && n@[1] == '.' ==> n@ =~= dots);
                    }
                }
                if n.len() == 1 && (n[0] == '/' || n[0] == '.') {
                    None
                } else if n.len() == 2 && n[0] == '.' && n[1] == '.' {
                    None
                } else {
                    Some(n)
                }
            },
        }
    }

    /// What follows the last dot of the file name.
    pub fn extension(&self) -> (r: Option<Vec<char>>)
        ensures
            match r {
                Some(e) => extension_of(self@) == Some(e@),
                None => extension_of(self@) is None,
            },
    {
        match self.file_name() {
            None => None,
            Some(name) => match text::find_last_char(&name, '.') {
                None => None,
                Some(dot) => if dot == 0 {
                    None
                } else {
                    proof {
                        assert(name@.subrange(dot + 1, name@.len() as int) =~= name@.skip(dot + 1));
                    }
                    Some(text::copy_range(&name, dot + 1, name.len()))
                },
            },
        }
    }

    /// The text under which the path is kept in a table.
    pub fn key(&self) -> (r: String)
        ensures
            r@ == key(self@),
    {
        let c = self.components();
        let mut out: Vec<char> = Vec::new();
        let mut i: usize = 0;
        let ghost p = parts(self@);
        let ghost root: Seq<char> = seq!['/'];
        proof {
            assert(text::rows(c@).len() == c@.len());
        }
        if c.len() > 0 && c[0].len() == 1 && c[0][0] == '/' {
            out.push('/');
            i = 1;
            proof {
                assert(text::rows(c@)[0] == c@[0]@);
                assert(c@[0]@ =~= root);
                assert(out@ =~= root);
            }
        } else {
            proof {
                if c@.len() > 0 {
                    assert(text::rows(c@)[0] == c@[0]@);
                    assert(c@[0]@ != root) by {
                        if c@[0]@ == root {
                            assert(c@[0]@.len() == 1 && c@[0]@[0] == '/');
                        }
                    }
                }
                assert(p.skip(0) =~= p);
            }
        }
        proof {
            if i == 1 {
                assert(p.skip(1) =~= p.drop_first());
            }
            assert(out@ + with_separators(p.skip(i as int)) =~= key(self@));
        }
        while i < c.len()
            invariant
                i <= c@.len(),
                text::rows(c@) == p,
                p.len() == c@.len(),
                out@ + with_separators(p.skip(i as int)) == key(self@),
            decreases c@.len() - i,
        {
            let ghost before = out@;
            let ghost rest = p.skip(i as int);
            proof {
                assert(text::rows(c@)[i as int] == c@[i as int]@);
                assert(rest[0] == c@[i as int]@);
                assert(rest.drop_first() =~= p.skip(i + 1));
            }
            let mut j: usize = 0;
            while j < c[i].len()
                invariant
                    i < c@.len(),
                    j <= c@[i as int]@.len(),
                    out@ == before + c@[i as int]@.take(j as int),
                decreases c@[i as int]@.len() - j,
            {
                out.push(c[i][j]);
                j += 1;
                proof {
                    assert(out@ =~= before + c@[i as int]@.take(j as int));
                }
            }
            proof {
                assert(c@[i as int]@.take(j as int) =~= c@[i as int]@);
            }
            if i + 1 < c.len() {
                out.push('/');
                proof {
                    assert(out@ + with_separators(p.skip(i + 1)) =~= before + (rest[0].push('/')
                        + with_separators(p.skip(i + 1))));
                }
            } else {
                proof {
                    assert(p.skip(i + 1) =~= Seq::<Seq<char>>::empty());
                    assert(out@ + with_separators(p.skip(i + 1)) =~= before + rest[0]);
                }
            }
            i += 1;
        }
        proof {
            assert(p.skip(i as int) =~= Seq::<Seq<char>>::empty());
            assert(out@ + with_separators(p.skip(i as int)) =~= out@);
        }
        text::text_of(&out)
    }
}

proof fn single_name(n: Seq<char>, first: bool)
    requires
        n.len() > 0,
        !n.contains('/'),
        first || n != seq!['.'],
    ensures
        parts_tail(n, first) == seq![n],
{
    text::until_bounds(n, '/');
    if text::until(n, '/') < n.len() {
        assert(n[text::until(n, '/')] == '/');
        assert(n.contains('/'));
    }
    assert(n[0] != '/') by {
        if n[0] == '/' {
            assert(n.contains('/'));
        }
    }
    assert(n.take(n.len() as int) =~= n);
    assert(n.skip(n.len() as int) =~= Seq::<char>::empty());
    assert(parts_tail(Seq::<char>::empty(), false) =~= Seq::<Seq<char>>::empty());
    assert(seq![n] + Seq::<Seq<char>>::empty() =~= seq![n]);
}

proof fn names_come_back(names: Seq<Seq<char>>, first: bool)
    requires
        forall|k: int| 0 <= k < names.len() ==> (#[trigger] names[k]).len() > 0 && !names[k].contains('/'),
        forall|k: int|
            0 <= k < names.len() && (!first || k > 0) ==> #[trigger] names[k] != seq!['.'],
    ensures
        parts_tail(with_separators(names), first) == names,
    decreases names.len(),
{
    if names.len() == 0 {
        assert(names =~= Seq::<Seq<char>>::empty());
    } else if names.len() == 1 {
        single_name(names[0], first);
        assert(names =~= seq![names[0]]);
    } else {
        let rest = names.drop_first();
        assert forall|k: int| 0 <= k < rest.len() implies (#[trigger] rest[k]).len() > 0
            && !rest[k].contains('/') && rest[k] != seq!['.'] by {
            assert(rest[k] == names[k + 1]);
        }
        names_come_back(rest, false);
        single_name(names[0], first);
        tail_across_separator(names[0], with_separators(rest), 0, first);
        assert(names[0].push('/') + with_separators(rest) =~= names[0] + seq!['/']
            + with_separators(rest));
        assert(seq![names[0]] + rest =~= names);
    }
}

/// The key of a path has the components of the path, so it stands for them.
pub proof fn key_keeps_parts(t: Seq<char>)
    ensures
        parts(key(t)) == parts(t),
{
    let p = parts(t);
    spans_hold_parts(t);
    if absolute(t) {
        let names = p.drop_first();
        assert forall|k: int| 0 <= k < names.len() implies (#[trigger] names[k]).len() > 0
            && !names[k].contains('/') && names[k] != seq!['.'] by {
            assert(names[k] == p[k + 1]);
            assert(plain_name(p[k + 1]));
        }
        names_come_back(names, false);
        assert(key(t).skip(1) =~= with_separators(names));
        assert(seq![seq!['/']] + names =~= p);
    } else {
        assert(t.skip(0) =~= t);
        tail_spans_hold_parts(t, t, 0, true);
        let root: Seq<char> = seq!['/'];
        if p.len() > 0 && p[0] == root {
            assert(root[0] == '/');
            assert(p[0].contains('/'));
        }
        assert forall|k: int| 0 <= k < p.len() implies (#[trigger] p[k]).len() > 0 && !p[k].contains(
            '/',
        ) && (k > 0 ==> p[k] != seq!['.']) by {
            if k > 0 {
                assert(plain_name(p[k]));
            }
        }
        names_come_back(p, true);
        assert(!absolute(key(t))) by {
            if p.len() > 0 {
                assert(p[0][0] != '/') by {
                    if p[0][0] == '/' {
                        assert(p[0].contains('/'));
                    }
                }
                assert(key(t)[0] == p[0][0]);
            }
        }
    }
}

/// Two paths have the same key exactly when they have the same components.
pub proof fn key_identifies_path(a: Seq<char>, b: Seq<char>)
    ensures
        key(a) == key(b) <==> parts(a) == parts(b),
{
    key_keeps_parts(a);
    key_keeps_parts(b);
}

/// A path that reads the same from its first component to its last: it is relative, not
/// empty, and has no separator or dot to spare at either end.
pub open spec fn tidy(rel: Seq<char>) -> bool {
    &&& rel.len() > 0
    &&& rel[0] != '/'
    &&& spans_tail(rel, 0, false).len() > 0
    &&& spans_tail(rel, 0, false)[0].0 == 0
    &&& spans_tail(rel, 0, false).last().1 == rel.len()
}

proof fn spans_move(rest: Seq<char>, off: int, by: int, first: bool)
    ensures
        spans_tail(rest, off + by, first).len() == spans_tail(rest, off, first).len(),
        forall|k: int|
            0 <= k < spans_tail(rest, off, first).len() ==> #[trigger] spans_tail(
                rest,
                off + by,
                first,
            )[k] == (
                spans_tail(rest, off, first)[k].0 + by,
                spans_tail(rest, off, first)[k].1 + by,
            ),
    decreases rest.len(),
{
    if rest.len() == 0 {
    } else if rest[0] == '/' {
        spans_move(rest.drop_first(), off + 1, by, false);
    } else {
        let n = text::until(rest, '/');
        text::until_bounds(rest, '/');
        text::until_bounds(rest.drop_first(), '/');
        spans_move(rest.skip(n), off + n, by, false);
    }
}

/// Joining a relative path that does not start with a dot component appends its components.
pub proof fn join_appends(base: Seq<char>, rel: Seq<char>)
    requires
        !absolute(rel),
        base.len() > 0,
    ensures
        parts(joined(base, rel)) == parts(base) + parts_tail(rel, false),
        exists|off: int|
            #![trigger spans_tail(rel, off, false)]
            off == joined(base, rel).len() - rel.len() && spans(joined(base, rel)) == spans(base)
                + spans_tail(rel, off, false),
{
    let j = joined(base, rel);
    let off = j.len() - rel.len();
    assert(spans_tail(rel, off, false) == spans_tail(rel, off, false));
    let none: Seq<char> = Seq::empty();
    if absolute(base) {
        let body = base.skip(1);
        if body.len() == 0 {
            assert(base =~= seq!['/']);
            assert(j.skip(1) =~= rel);
            assert(spans(base) =~= seq![(0int, 1int)]);
            assert(parts(base) =~= seq![seq!['/']]);
        } else {
            let head = if base.last() == '/' {
                body.drop_last()
            } else {
                body
            };
            tail_across_separator(head, rel, 1, false);
            tail_across_separator(head, none, 1, false);
            assert(j.skip(1) =~= head + seq!['/'] + rel);
            if base.last() == '/' {
                assert(body =~= head + seq!['/'] + none);
                assert(spans_tail(head, 1, false) + spans_tail(none, (1 + head.len() + 1) as int, false)
                    =~= spans_tail(head, 1, false));
                assert(parts_tail(head, false) + parts_tail(none, false) =~= parts_tail(
                    head,
                    false,
                ));
            }
            let s1 = spans_tail(head, 1, false);
            let s2 = spans_tail(rel, off, false);
            assert(off == 1 + head.len() + 1);
            assert(seq![(0int, 1int)] + (s1 + s2) =~= (seq![(0int, 1int)] + s1) + s2);
            let p1 = parts_tail(head, false);
            let p2 = parts_tail(rel, false);
            assert(seq![seq!['/']] + (p1 + p2) =~= (seq![seq!['/']] + p1) + p2);
        }
    } else {
        assert(base.last() == '/' ==> base.len() > 1);
        let head = if base.last() == '/' {
            base.drop_last()
        } else {
            base
        };
        tail_across_separator(head, rel, 0, true);
        tail_across_separator(head, none, 0, true);
        assert(j =~= head + seq!['/'] + rel);
        if base.last() == '/' {
            assert(base =~= head + seq!['/'] + none);
            assert(spans_tail(head, 0, true) + spans_tail(none, (head.len() + 1) as int, false)
                =~= spans_tail(head, 0, true));
            assert(parts_tail(head, true) + parts_tail(none, false) =~= parts_tail(head, true));
        }
        assert(off == head.len() + 1);
    }
}

proof fn spans_start_after(rest: Seq<char>, off: int, first: bool)
    ensures
        forall|k: int|
            0 <= k < spans_tail(rest, off, first).len() ==> (#[trigger] spans_tail(
                rest,
                off,
                first,
            )[k]).0 >= off,
    decreases rest.len(),
{
    if rest.len() == 0 {
    } else if rest[0] == '/' {
        spans_start_after(rest.drop_first(), off + 1, false);
        let more = spans_tail(rest.drop_first(), off + 1, false);
        assert(spans_tail(rest, off, first) == more);
        assert(forall|k: int| 0 <= k < more.len() ==> (#[trigger] more[k]).0 >= off + 1);
    } else {
        let n = text::until(rest, '/');
        text::until_bounds(rest, '/');
        text::until_bounds(rest.drop_first(), '/');
        spans_start_after(rest.skip(n), off + n, false);
        let more = spans_tail(rest.skip(n), off + n, false);
        let own = spans_tail(rest, off, first);
        assert forall|k: int| 0 <= k < own.len() implies (#[trigger] own[k]).0 >= off by {
            if own == more {
                assert(more[k].0 >= off + n);
            } else if k > 0 {
                assert(own =~= seq![(off, off + n)] + more);
                assert(own[k] == more[k - 1]);
            } else {
                assert(own =~= seq![(off, off + n)] + more);
            }
        }
    }
}

/// What was joined to a path comes back when the path is taken off again.
pub proof fn join_then_strip(base: Seq<char>, rel: Seq<char>)
    requires
        tidy(rel),
    ensures
        relative(joined(base, rel), base) == Some(rel),
{
    let j = joined(base, rel);
    if base.len() == 0 {
        text::until_bounds(rel, '/');
        text::until_bounds(rel.drop_first(), '/');
        assert(j =~= rel);
        let n = text::until(rel, '/');
        let more = spans_tail(rel.skip(n), n, false);
        spans_start_after(rel.skip(n), n, false);
        if rel.take(n) == seq!['.'] {
            assert(rel.take(n).len() == 1);
            assert(spans_tail(rel, 0, false) == more);
            assert(more[0].0 >= n);
        }
        assert(spans(j) == spans_tail(rel, 0, false));
        assert(parts(j).take(0) =~= parts(base));
        assert(rel.subrange(0, rel.len() as int) =~= rel);
    } else {
        join_appends(base, rel);
        let off = choose|off: int|
            #![trigger spans_tail(rel, off, false)]
            off == j.len() - rel.len() && spans(j) == spans(base) + spans_tail(rel, off, false);
        spans_move(rel, 0, off, false);
        spans_hold_parts(j);
        spans_hold_parts(base);
        let k = parts(base).len();
        let own = spans_tail(rel, 0, false);
        let moved = spans_tail(rel, off, false);
        assert(moved.len() == own.len());
        assert(parts(j).take(k as int) =~= parts(base));
        assert(spans(j)[k as int] == moved[0]);
        assert(spans(j).last() == moved[moved.len() - 1]);
        assert(j.subrange(off, off + rel.len()) =~= rel);
        assert(absolute(base) ==> k > 0);
        if k == 0 {
            assert(base[0] != '/');
            text::until_bounds(base, '/');
            text::until_bounds(base.drop_first(), '/');
            assert(parts(base).len() > 0);
        }
    }
}

} // verus!
