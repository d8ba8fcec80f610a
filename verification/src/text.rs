//! Text as a sequence of characters: trimming, splitting, searching and numbers.

use vstd::prelude::*;
use vstd::string::*;

verus! {

broadcast use vstd::string::group_string_axioms;

/// `String::push` appends one character.
pub assume_specification[ String::push ](s: &mut String, c: char)
    ensures
        final(s)@ == old(s)@.push(c),
;

/// The characters of a string.
pub fn chars_of(s: &str) -> (v: Vec<char>)
    ensures
        v@ == s@,
{
    let mut v: Vec<char> = Vec::new();
    for c in it: s.chars()
        invariant
            v@ == it.seq().take(it.index()),
            it.seq() == s@,
    {
        v.push(c);
    }
    v
}

/// The string made of the given characters.
pub fn text_of(v: &[char]) -> (s: String)
    ensures
        s@ == v@,
{
    let mut s = String::new();
    let mut i: usize = 0;
    while i < v.len()
        invariant
            i <= v@.len(),
            s@ == v@.take(i as int),
        decreases v@.len() - i,
    {
        s.push(v[i]);
        i += 1;
    }
    s
}

/// The views of a vector of strings.
pub open spec fn views(v: Seq<String>) -> Seq<Seq<char>> {
    Seq::new(v.len(), |i: int| v[i]@)
}

/// The views of a vector of character vectors.
pub open spec fn rows(v: Seq<Vec<char>>) -> Seq<Seq<char>> {
    Seq::new(v.len(), |i: int| v[i]@)
}

/// Unicode's `White_Space` property.
pub open spec fn white(c: char) -> bool {
    let n = c as u32;
    ||| 0x9 <= n <= 0xd
    ||| n == 0x20
    ||| n == 0x85
    ||| n == 0xa0
    ||| n == 0x1680
    ||| 0x2000 <= n <= 0x200a
    ||| n == 0x2028
    ||| n == 0x2029
    ||| n == 0x202f
    ||| n == 0x205f
    ||| n == 0x3000
}

/// Tests for a white-space character.
pub fn is_white(c: char) -> (r: bool)
    ensures
        r == white(c),
{
    let n: u32 = c as u32;
    (0x9 <= n && n <= 0xd) || n == 0x20 || n == 0x85 || n == 0xa0 || n == 0x1680 || (0x2000 <= n
        && n <= 0x200a) || n == 0x2028 || n == 0x2029 || n == 0x202f || n == 0x205f || n == 0x3000
}

pub open spec fn trim_start(t: Seq<char>) -> Seq<char>
    decreases t.len(),
{
    if t.len() == 0 || !white(t[0]) {
        t
    } else {
        trim_start(t.drop_first())
    }
}

pub open spec fn trim_end(t: Seq<char>) -> Seq<char>
    decreases t.len(),
{
    if t.len() == 0 || !white(t.last()) {
        t
    } else {
        trim_end(t.drop_last())
    }
}

/// The text without leading and trailing white space.
pub open spec fn trim(t: Seq<char>) -> Seq<char> {
    trim_end(trim_start(t))
}

/// Copies a range of characters.
pub fn copy_range(t: &[char], lo: usize, hi: usize) -> (r: Vec<char>)
    requires
        lo <= hi <= t@.len(),
    ensures
        r@ == t@.subrange(lo as int, hi as int),
{
    let mut r: Vec<char> = Vec::new();
    let mut i: usize = lo;
    while i < hi
        invariant
            lo <= i <= hi <= t@.len(),
            r@ == t@.subrange(lo as int, i as int),
        decreases hi - i,
    {
        r.push(t[i]);
        i += 1;
    }
    r
}

/// Drops leading and trailing white space.
pub fn trimmed(t: &[char]) -> (r: Vec<char>)
    ensures
        r@ == trim(t@),
{
    let mut lo: usize = 0;
    proof {
        assert(t@.skip(0) =~= t@);
    }
    while lo < t.len() && is_white(t[lo])
        invariant
            lo <= t@.len(),
            trim_start(t@) == trim_start(t@.skip(lo as int)),
        decreases t@.len() - lo,
    {
        proof {
            assert(t@.skip(lo as int).drop_first() =~= t@.skip(lo + 1));
        }
        lo += 1;
    }
    let ghost body = t@.skip(lo as int);
    assert(trim_start(t@) == body);
    let mut hi: usize = t.len();
    proof {
        assert(t@.subrange(lo as int, hi as int) =~= body);
    }
    while hi > lo && is_white(t[hi - 1])
        invariant
            lo <= hi <= t@.len(),
            trim_end(body) == trim_end(t@.subrange(lo as int, hi as int)),
        decreases hi,
    {
        proof {
            assert(t@.subrange(lo as int, hi as int).drop_last() =~= t@.subrange(
                lo as int,
                hi - 1,
            ));
        }
        hi -= 1;
    }
    copy_range(t, lo, hi)
}

/// The text without leading occurrences of `c`.
pub open spec fn trim_start_char(t: Seq<char>, c: char) -> Seq<char>
    decreases t.len(),
{
    if t.len() == 0 || t[0] != c {
        t
    } else {
        trim_start_char(t.drop_first(), c)
    }
}

/// The text without trailing occurrences of `c`.
pub open spec fn trim_end_char(t: Seq<char>, c: char) -> Seq<char>
    decreases t.len(),
{
    if t.len() == 0 || t.last() != c {
        t
    } else {
        trim_end_char(t.drop_last(), c)
    }
}

/// Drops leading occurrences of `c`.
pub fn without_leading(t: &[char], c: char) -> (r: Vec<char>)
    ensures
        r@ == trim_start_char(t@, c),
{
    let mut lo: usize = 0;
    proof {
        assert(t@.skip(0) =~= t@);
    }
    while lo < t.len() && t[lo] == c
        invariant
            lo <= t@.len(),
            trim_start_char(t@, c) == trim_start_char(t@.skip(lo as int), c),
        decreases t@.len() - lo,
    {
        proof {
            assert(t@.skip(lo as int).drop_first() =~= t@.skip(lo + 1));
        }
        lo += 1;
    }
    proof {
        assert(t@.subrange(lo as int, t@.len() as int) =~= t@.skip(lo as int));
    }
    copy_range(t, lo, t.len())
}

/// Drops trailing occurrences of `c`.
pub fn without_trailing(t: &[char], c: char) -> (r: Vec<char>)
    ensures
        r@ == trim_end_char(t@, c),
{
    let mut hi: usize = t.len();
    proof {
        assert(t@.take(t@.len() as int) =~= t@);
    }
    while hi > 0 && t[hi - 1] == c
        invariant
            hi <= t@.len(),
            trim_end_char(t@, c) == trim_end_char(t@.take(hi as int), c),
        decreases hi,
    {
        proof {
            assert(t@.take(hi as int).drop_last() =~= t@.take(hi - 1));
        }
        hi -= 1;
    }
    proof {
        assert(t@.subrange(0, hi as int) =~= t@.take(hi as int));
    }
    copy_range(t, 0, hi)
}

/// How many characters stand before the first `c`, or the whole length where there is none.
pub open spec fn until(t: Seq<char>, c: char) -> int
    decreases t.len(),
{
    if t.len() == 0 || t[0] == c {
        0
    } else {
        1 + until(t.drop_first(), c)
    }
}

pub proof fn until_bounds(t: Seq<char>, c: char)
    ensures
        0 <= until(t, c) <= t.len(),
        until(t, c) < t.len() ==> t[until(t, c)] == c,
        forall|j: int| 0 <= j < until(t, c) ==> t[j] != c,
    decreases t.len(),
{
    if t.len() > 0 && t[0] != c {
        until_bounds(t.drop_first(), c);
        assert forall|j: int| 0 <= j < until(t, c) implies t[j] != c by {
            if j > 0 {
                assert(t.drop_first()[j - 1] == t[j]);
            }
        }
    }
}

/// Where the first `c` at or after `from` stands; the length where there is none.
pub fn find_char(t: &[char], from: usize, c: char) -> (r: usize)
    requires
        from <= t@.len(),
    ensures
        from <= r <= t@.len(),
        r == from + until(t@.skip(from as int), c),
        r < t@.len() ==> t@[r as int] == c,
        forall|j: int| from <= j < r ==> t@[j] != c,
{
    let mut i: usize = from;
    while i < t.len() && t[i] != c
        invariant
            from <= i <= t@.len(),
            until(t@.skip(from as int), c) == (i - from) + until(t@.skip(i as int), c),
            forall|j: int| from <= j < i ==> t@[j] != c,
        decreases t@.len() - i,
    {
        proof {
            assert(t@.skip(i as int).drop_first() =~= t@.skip(i + 1));
        }
        i += 1;
    }
    i
}

/// Where the last `c` stands, or -1.
pub open spec fn last_index(t: Seq<char>, c: char) -> int
    decreases t.len(),
{
    if t.len() == 0 {
        -1
    } else if t.last() == c {
        t.len() - 1
    } else {
        last_index(t.drop_last(), c)
    }
}

/// Finds the last `c`.
pub fn find_last_char(t: &[char], c: char) -> (r: Option<usize>)
    ensures
        match r {
            Some(i) => i < t@.len() && last_index(t@, c) == i && t@[i as int] == c,
            None => last_index(t@, c) == -1,
        },
{
    let mut i: usize = t.len();
    proof {
        assert(t@.take(t@.len() as int) =~= t@);
    }
    while i > 0
        invariant
            i <= t@.len(),
            last_index(t@, c) == last_index(t@.take(i as int), c),
        decreases i,
    {
        if t[i - 1] == c {
            return Some(i - 1);
        }
        proof {
            assert(t@.take(i as int).drop_last() =~= t@.take(i - 1));
        }
        i -= 1;
    }
    None
}

/// The parts between occurrences of `c`; there is always at least one.
pub open spec fn split(t: Seq<char>, c: char) -> Seq<Seq<char>>
    decreases t.len(),
{
    let n = until(t, c);
    if 0 <= n < t.len() {
        seq![t.take(n)] + split(t.skip(n + 1), c)
    } else {
        seq![t]
    }
}

/// Splits at every `c`.
pub fn split_at_char(t: &[char], c: char) -> (r: Vec<Vec<char>>)
    ensures
        rows(r@) == split(t@, c),
        r@.len() >= 1,
{
    let mut r: Vec<Vec<char>> = Vec::new();
    let mut pos: usize = 0;
    proof {
        assert(t@.skip(0) =~= t@);
        assert(rows(r@) + split(t@, c) =~= split(t@, c));
    }
    loop
        invariant
            pos <= t@.len(),
            rows(r@) + split(t@.skip(pos as int), c) == split(t@, c),
        decreases t@.len() - pos,
    {
        let end = find_char(t, pos, c);
        let piece = copy_range(t, pos, end);
        let ghost rest = t@.skip(pos as int);
        let ghost before = rows(r@);
        proof {
            until_bounds(rest, c);
        }
        if end < t.len() {
            r.push(piece);
            proof {
                assert(rest.take(end - pos) =~= piece@);
                assert(rest.skip(end - pos + 1) =~= t@.skip(end + 1));
                assert(rows(r@) =~= before + seq![piece@]);
                assert(before + (seq![piece@] + split(t@.skip(end + 1), c)) =~= before + seq![
                    piece@,
                ] + split(t@.skip(end + 1), c));
            }
            pos = end + 1;
        } else {
            r.push(piece);
            proof {
                assert(piece@ =~= rest);
                assert(rows(r@) =~= before + seq![rest]);
            }
            return r;
        }
    }
}

pub open spec fn strip_cr(t: Seq<char>) -> Seq<char> {
    if t.len() > 0 && t.last() == '\r' {
        t.drop_last()
    } else {
        t
    }
}

/// The lines of a text: cut at every line feed, each cut line without a trailing carriage
/// return, and no empty line after the last line feed.
pub open spec fn lines(t: Seq<char>) -> Seq<Seq<char>>
    decreases t.len(),
{
    let n = until(t, '\n');
    if t.len() == 0 {
        Seq::empty()
    } else if 0 <= n < t.len() {
        seq![strip_cr(t.take(n))] + lines(t.skip(n + 1))
    } else {
        seq![t]
    }
}

/// Cuts a text into lines.
pub fn lines_of(t: &[char]) -> (r: Vec<Vec<char>>)
    ensures
        rows(r@) == lines(t@),
{
    let mut r: Vec<Vec<char>> = Vec::new();
    let mut pos: usize = 0;
    proof {
        assert(t@.skip(0) =~= t@);
        assert(rows(r@) + lines(t@) =~= lines(t@));
    }
    while pos < t.len()
        invariant
            pos <= t@.len(),
            rows(r@) + lines(t@.skip(pos as int)) == lines(t@),
        decreases t@.len() - pos,
    {
        let end = find_char(t, pos, '\n');
        let ghost rest = t@.skip(pos as int);
        let ghost before = rows(r@);
        proof {
            until_bounds(rest, '\n');
        }
        if end < t.len() {
            let stop = if end > pos && t[end - 1] == '\r' {
                end - 1
            } else {
                end
            };
            let piece = copy_range(t, pos, stop);
            r.push(piece);
            proof {
                assert(rest.take(end - pos) =~= t@.subrange(pos as int, end as int));
                assert(piece@ =~= strip_cr(rest.take(end - pos)));
                assert(rest.skip(end - pos + 1) =~= t@.skip(end + 1));
                assert(rows(r@) =~= before + seq![piece@]);
                assert(before + (seq![piece@] + lines(t@.skip(end + 1))) =~= before + seq![piece@]
                    + lines(t@.skip(end + 1)));
            }
            pos = end + 1;
        } else {
            let piece = copy_range(t, pos, end);
            r.push(piece);
            proof {
                assert(piece@ =~= rest);
                assert(rows(r@) =~= before + seq![rest]);
                assert(t@.skip(t@.len() as int) =~= Seq::<char>::empty());
                assert(before + seq![rest] + lines(Seq::<char>::empty()) =~= before + seq![rest]);
            }
            pos = end;
        }
    }
    proof {
        assert(t@.skip(pos as int) =~= Seq::<char>::empty());
        assert(rows(r@) + Seq::<Seq<char>>::empty() =~= rows(r@));
    }
    r
}

/// How many characters stand before the first white space.
pub open spec fn word_len(t: Seq<char>) -> int
    decreases t.len(),
{
    if t.len() == 0 || white(t[0]) {
        0
    } else {
        1 + word_len(t.drop_first())
    }
}

pub proof fn word_len_bounds(t: Seq<char>)
    ensures
        0 <= word_len(t) <= t.len(),
    decreases t.len(),
{
    if t.len() > 0 && !white(t[0]) {
        word_len_bounds(t.drop_first());
    }
}

/// The maximal runs of characters that are not white space.
pub open spec fn words(t: Seq<char>) -> Seq<Seq<char>>
    decreases t.len(),
{
    let n = word_len(t);
    if t.len() == 0 {
        Seq::empty()
    } else if 0 < n <= t.len() {
        seq![t.take(n)] + words(t.skip(n))
    } else {
        words(t.drop_first())
    }
}

/// Splits at white space, dropping empty pieces.
pub fn words_of(t: &[char]) -> (r: Vec<Vec<char>>)
    ensures
        rows(r@) == words(t@),
{
    let mut r: Vec<Vec<char>> = Vec::new();
    let mut pos: usize = 0;
    proof {
        assert(t@.skip(0) =~= t@);
        assert(rows(r@) + words(t@) =~= words(t@));
    }
    while pos < t.len()
        invariant
            pos <= t@.len(),
            rows(r@) + words(t@.skip(pos as int)) == words(t@),
        decreases t@.len() - pos,
    {
        let ghost rest = t@.skip(pos as int);
        let ghost before = rows(r@);
        let mut end: usize = pos;
        while end < t.len() && !is_white(t[end])
            invariant
                pos <= end <= t@.len(),
                word_len(rest) == (end - pos) + word_len(t@.skip(end as int)),
            decreases t@.len() - end,
        {
            proof {
                assert(t@.skip(end as int).drop_first() =~= t@.skip(end + 1));
            }
            end += 1;
        }
        assert(word_len(rest) == end - pos);
        if end > pos {
            let piece = copy_range(t, pos, end);
            r.push(piece);
            proof {
                assert(rest.take(end - pos) =~= piece@);
                assert(rest.skip(end - pos) =~= t@.skip(end as int));
                assert(rows(r@) =~= before + seq![piece@]);
                assert(before + (seq![piece@] + words(t@.skip(end as int))) =~= before + seq![
                    piece@,
                ] + words(t@.skip(end as int)));
            }
            pos = end;
        } else {
            proof {
                assert(rest.drop_first() =~= t@.skip(pos + 1));
            }
            pos += 1;
        }
    }
    proof {
        assert(t@.skip(pos as int) =~= Seq::<char>::empty());
        assert(rows(r@) + Seq::<Seq<char>>::empty() =~= rows(r@));
    }
    r
}

/// Compares two character slices.
pub fn same_chars(a: &[char], b: &[char]) -> (r: bool)
    ensures
        r == (a@ == b@),
{
    if a.len() != b.len() {
        return false;
    }
    let mut i: usize = 0;
    while i < a.len()
        invariant
            i <= a@.len(),
            a@.len() == b@.len(),
            forall|j: int| 0 <= j < i ==> a@[j] == b@[j],
        decreases a@.len() - i,
    {
        if a[i] != b[i] {
            return false;
        }
        i += 1;
    }
    proof {
        assert(a@ =~= b@);
    }
    true
}

/// Compares two strings.
pub fn same_text(a: &str, b: &str) -> (r: bool)
    ensures
        r == (a@ == b@),
{
    let x = chars_of(a);
    let y = chars_of(b);
    same_chars(&x, &y)
}

/// Tests whether `p` stands in `t` at position `at`.
pub fn stands_at(t: &[char], p: &[char], at: usize) -> (r: bool)
    requires
        at + p@.len() <= t@.len(),
    ensures
        r == (t@.subrange(at as int, at + p@.len()) == p@),
{
    let size: usize = t.len();
    let mut i: usize = 0;
    while i < p.len()
        invariant
            i <= p@.len(),
            size == t@.len(),
            at + p@.len() <= size,
            forall|j: int| 0 <= j < i ==> t@[at + j] == p@[j],
        decreases p@.len() - i,
    {
        if t[at + i] != p[i] {
            proof {
                assert(t@.subrange(at as int, at + p@.len())[i as int] != p@[i as int]);
            }
            return false;
        }
        i += 1;
    }
    proof {
        assert(t@.subrange(at as int, at + p@.len()) =~= p@);
    }
    true
}

/// `p` is a prefix of `t`.
pub open spec fn starts(t: Seq<char>, p: Seq<char>) -> bool {
    p.len() <= t.len() && t.subrange(0, p.len() as int) == p
}

/// `p` is a suffix of `t`.
pub open spec fn ends(t: Seq<char>, p: Seq<char>) -> bool {
    p.len() <= t.len() && t.subrange(t.len() - p.len(), t.len() as int) == p
}

/// `p` stands somewhere in `t`.
pub open spec fn contains(t: Seq<char>, p: Seq<char>) -> bool {
    exists|i: int| 0 <= i <= t.len() - p.len() && #[trigger] t.subrange(i, i + p.len()) == p
}

pub fn starts_with(t: &[char], p: &[char]) -> (r: bool)
    ensures
        r == starts(t@, p@),
{
    p.len() <= t.len() && stands_at(t, p, 0)
}

pub fn ends_with(t: &[char], p: &[char]) -> (r: bool)
    ensures
        r == ends(t@, p@),
{
    p.len() <= t.len() && stands_at(t, p, t.len() - p.len())
}

pub fn contains_chars(t: &[char], p: &[char]) -> (r: bool)
    ensures
        r == contains(t@, p@),
{
    if p.len() > t.len() {
        return false;
    }
    let last: usize = t.len() - p.len();
    let mut i: usize = 0;
    while i < last
        invariant
            i <= last,
            last == t@.len() - p@.len(),
            forall|j: int| 0 <= j < i ==> #[trigger] t@.subrange(j, j + p@.len()) != p@,
        decreases last - i,
    {
        if stands_at(t, p, i) {
            return true;
        }
        i += 1;
    }
    stands_at(t, p, last)
}

/// Tests whether the string `t` starts with `p`.
pub fn text_starts_with(t: &str, p: &str) -> (r: bool)
    ensures
        r == starts(t@, p@),
{
    let x = chars_of(t);
    let y = chars_of(p);
    starts_with(&x, &y)
}

/// Tests whether the string `t` ends with `p`.
pub fn text_ends_with(t: &str, p: &str) -> (r: bool)
    ensures
        r == ends(t@, p@),
{
    let x = chars_of(t);
    let y = chars_of(p);
    ends_with(&x, &y)
}

/// Tests whether the string `t` contains `p`.
pub fn text_contains(t: &str, p: &str) -> (r: bool)
    ensures
        r == contains(t@, p@),
{
    let x = chars_of(t);
    let y = chars_of(p);
    contains_chars(&x, &y)
}

/// An ASCII capital letter becomes small; every other character stays.
pub open spec fn ascii_lower(c: char) -> char {
    if 0x41 <= (c as u32) <= 0x5a {
        ((c as u32) + 0x20) as char
    } else {
        c
    }
}

/// Two texts that differ at most in the case of ASCII letters.
pub open spec fn same_ignoring_case(a: Seq<char>, b: Seq<char>) -> bool {
    &&& a.len() == b.len()
    &&& forall|i: int| 0 <= i < a.len() ==> ascii_lower(#[trigger] a[i]) == ascii_lower(b[i])
}

fn to_ascii_lower(c: char) -> (r: char)
    ensures
        r == ascii_lower(c),
{
    let n: u32 = c as u32;
    if 0x41 <= n && n <= 0x5a {
        let b: u8 = n as u8;
        let r: u8 = b + 0x20;
        r as char
    } else {
        c
    }
}

/// Compares two texts, taking ASCII letters of either case as equal.
pub fn text_same_ignoring_case(a: &[char], b: &[char]) -> (r: bool)
    ensures
        r == same_ignoring_case(a@, b@),
{
    if a.len() != b.len() {
        return false;
    }
    let mut i: usize = 0;
    while i < a.len()
        invariant
            i <= a@.len(),
            a@.len() == b@.len(),
            forall|j: int| 0 <= j < i ==> ascii_lower(#[trigger] a@[j]) == ascii_lower(b@[j]),
        decreases a@.len() - i,
    {
        if to_ascii_lower(a[i]) != to_ascii_lower(b[i]) {
            return false;
        }
        i += 1;
    }
    true
}

/// The digit of a number below ten.
pub open spec fn digit(d: int) -> char {
    (0x30 + d) as char
}

/// A number in decimal, without leading zeros.
pub open spec fn decimal(n: nat) -> Seq<char>
    decreases n,
{
    if n < 10 {
        seq![digit(n as int)]
    } else {
        decimal(n / 10).push(digit((n % 10) as int))
    }
}

/// Writes a number in decimal.
pub fn decimal_of(n: u64) -> (r: String)
    ensures
        r@ == decimal(n as nat),
    decreases n,
{
    let d: u8 = (n % 10) as u8;
    let c: char = (0x30u8 + d) as char;
    if n < 10 {
        let mut s = String::new();
        s.push(c);
        proof {
            assert(s@ =~= decimal(n as nat));
        }
        s
    } else {
        let mut s = decimal_of(n / 10);
        s.push(c);
        s
    }
}

/// Two numbers have the same decimal form exactly when they are equal.
pub proof fn decimal_identifies(a: nat, b: nat)
    ensures
        decimal(a) == decimal(b) <==> a == b,
        decimal(a).len() > 0,
    decreases a,
{
    let x = decimal(a);
    let y = decimal(b);
    if a >= 10 {
        decimal_identifies(a / 10, b / 10);
    }
    if b >= 10 {
        decimal_is_not_empty(b / 10);
    }
    if x == y {
        assert(x.len() == y.len());
        assert(x.last() == y.last());
        if a >= 10 && b >= 10 {
            assert(x.drop_last() =~= decimal(a / 10));
            assert(y.drop_last() =~= decimal(b / 10));
            assert(digit((a % 10) as int) == digit((b % 10) as int));
        }
    }
}

proof fn decimal_is_not_empty(n: nat)
    ensures
        decimal(n).len() > 0,
    decreases n,
{
    if n >= 10 {
        decimal_is_not_empty(n / 10);
    }
}

/// The value of one digit in the given base, if it is one.
pub open spec fn digit_value(c: char, base: int) -> Option<int> {
    let d = (c as u32) - 0x30;
    if 0 <= d < base {
        Some(d)
    } else {
        None
    }
}

/// The value of a run of digits in a base of at most ten.
pub open spec fn digits_value(t: Seq<char>, base: int) -> Option<int>
    decreases t.len(),
{
    if t.len() == 0 {
        Some(0)
    } else {
        match (digits_value(t.drop_last(), base), digit_value(t.last(), base)) {
            (Some(v), Some(d)) => Some(v * base + d),
            _ => None,
        }
    }
}

/// The number that a text states: an optional plus sign, then at least one digit, and no
/// value above `max`.
pub open spec fn number(t: Seq<char>, base: int, max: int) -> Option<int> {
    let body = if t.len() > 1 && t[0] == '+' {
        t.drop_first()
    } else {
        t
    };
    if body.len() == 0 {
        None
    } else {
        match digits_value(body, base) {
            Some(v) => if v <= max {
                Some(v)
            } else {
                None
            },
            None => None,
        }
    }
}

proof fn digits_value_grows(t: Seq<char>, i: int, base: int)
    requires
        0 <= i <= t.len(),
        base >= 2,
        digits_value(t, base) is Some,
    ensures
        digits_value(t.take(i), base) is Some,
        0 <= digits_value(t.take(i), base)->0 <= digits_value(t, base)->0,
    decreases t.len(),
{
    if t.len() == 0 {
        assert(t.take(i) =~= t);
    } else if i == t.len() {
        digits_value_grows(t.drop_last(), 0, base);
        let v = digits_value(t.drop_last(), base)->0;
        assert(v * base >= 0) by (nonlinear_arith)
            requires
                v >= 0,
                base >= 2,
        ;
        assert(t.take(i) =~= t);
    } else {
        digits_value_grows(t.drop_last(), i, base);
        assert(t.drop_last().take(i) =~= t.take(i));
        let v = digits_value(t.drop_last(), base)->0;
        assert(v * base >= v) by (nonlinear_arith)
            requires
                v >= 0,
                base >= 2,
        ;
    }
}

/// Reads a number.
pub fn parse_number(t: &[char], base: u64, max: u64) -> (r: Option<u64>)
    requires
        2 <= base <= 10,
    ensures
        match r {
            Some(v) => number(t@, base as int, max as int) == Some(v as int),
            None => number(t@, base as int, max as int) is None,
        },
{
    let start: usize = if t.len() > 1 && t[0] == '+' {
        1
    } else {
        0
    };
    let ghost body = t@.skip(start as int);
    proof {
        if start == 1 {
            assert(body =~= t@.drop_first());
        } else {
            assert(body =~= t@);
        }
        assert(body.take(0) =~= Seq::<char>::empty());
        assert(number(t@, base as int, max as int) == (if body.len() == 0 {
            None::<int>
        } else {
            match digits_value(body, base as int) {
                Some(v) => if v <= max {
                    Some(v)
                } else {
                    None
                },
                None => None,
            }
        }));
    }
    if t.len() == 0 {
        return None;
    }
    let mut v: u64 = 0;
    let mut i: usize = start;
    while i < t.len()
        invariant
            start <= i <= t@.len(),
            2 <= base <= 10,
            body == t@.skip(start as int),
            v <= max,
            digits_value(body, base as int) is None || digits_value(body, base as int)->0 > max
                ==> number(t@, base as int, max as int) is None,
            digits_value(body.take(i - start), base as int) == Some(v as int),
        decreases t@.len() - i,
    {
        let n: u32 = t[i] as u32;
        let ghost upto = body.take(i - start + 1);
        proof {
            assert(upto.drop_last() =~= body.take(i - start));
            assert(upto.last() == t@[i as int]);
        }
        if n < 0x30 || (n - 0x30) as u64 >= base {
            proof {
                assert(digits_value(upto, base as int) is None);
                if digits_value(body, base as int) is Some {
                    digits_value_grows(body, i - start + 1, base as int);
                }
            }
            return None;
        }
        let d: u64 = (n - 0x30) as u64;
        proof {
            assert((v as u128) * (base as u128) <= 0xffff_ffff_ffff_ffff * 10) by (nonlinear_arith)
                requires
                    v <= 0xffff_ffff_ffff_ffff,
                    base <= 10,
            ;
        }
        let wide: u128 = (v as u128) * (base as u128);
        let next: u128 = wide + d as u128;
        if next > max as u128 {
            proof {
                if digits_value(body, base as int) is Some {
                    digits_value_grows(body, i - start + 1, base as int);
                }
            }
            return None;
        }
        v = next as u64;
        i += 1;
    }
    proof {
        assert(body.take(i - start) =~= body);
    }
    Some(v)
}

/// Reads an unsigned decimal number of at most `max`.
pub fn parse_decimal(t: &[char], max: u64) -> (r: Option<u64>)
    ensures
        match r {
            Some(v) => number(t@, 10, max as int) == Some(v as int),
            None => number(t@, 10, max as int) is None,
        },
{
    parse_number(t, 10, max)
}

/// Every character is an ASCII digit; holds of the empty text.
pub open spec fn all_digits(t: Seq<char>) -> bool {
    forall|i: int| 0 <= i < t.len() ==> 0x30 <= (#[trigger] t[i] as u32) <= 0x39
}

pub fn is_all_digits(t: &[char]) -> (r: bool)
    ensures
        r == all_digits(t@),
{
    let mut i: usize = 0;
    while i < t.len()
        invariant
            i <= t@.len(),
            forall|j: int| 0 <= j < i ==> 0x30 <= (#[trigger] t@[j] as u32) <= 0x39,
        decreases t@.len() - i,
    {
        let n: u32 = t[i] as u32;
        if n < 0x30 || n > 0x39 {
            proof {
                assert(!(0x30 <= (t@[i as int] as u32) <= 0x39));
            }
            return false;
        }
        i += 1;
    }
    true
}

/// The text with every `a` turned into `b`.
pub open spec fn replace(t: Seq<char>, a: char, b: char) -> Seq<char> {
    Seq::new(
        t.len(),
        |i: int|
            if t[i] == a {
                b
            } else {
                t[i]
            },
    )
}

pub fn replaced(t: &[char], a: char, b: char) -> (r: Vec<char>)
    ensures
        r@ == replace(t@, a, b),
{
    let mut r: Vec<char> = Vec::new();
    let mut i: usize = 0;
    while i < t.len()
        invariant
            i <= t@.len(),
            r@ == replace(t@, a, b).take(i as int),
        decreases t@.len() - i,
    {
        r.push(if t[i] == a {
            b
        } else {
            t[i]
        });
        i += 1;
    }
    r
}

/// What `str::to_lowercase` makes of a text: the lower-case mapping of Unicode.
pub uninterp spec fn lowercase(t: Seq<char>) -> Seq<char>;

/// Every character is an ASCII character.
pub open spec fn ascii(t: Seq<char>) -> bool {
    forall|i: int| 0 <= i < t.len() ==> (#[trigger] t[i] as u32) < 0x80
}

/// The text with its ASCII capital letters made small.
pub open spec fn ascii_lowered(t: Seq<char>) -> Seq<char> {
    Seq::new(t.len(), |i: int| ascii_lower(t[i]))
}

/// The lower-case form of a text: letter by letter where the text is ASCII.
pub open spec fn lowered(t: Seq<char>) -> Seq<char> {
    if ascii(t) {
        ascii_lowered(t)
    } else {
        lowercase(t)
    }
}

/// Calls `str::to_lowercase`, whose result depends on the text alone. On ASCII text the
/// lower-case mapping of Unicode changes the letters A to Z and nothing else.
#[verifier::external_body]
fn to_lowercase(s: &str) -> (r: String)
    ensures
        r@ == lowercase(s@),
        ascii(s@) ==> r@ == ascii_lowered(s@),
{
    s.to_lowercase()
}

/// The lower-case form of a string.
pub fn lowered_text(s: &str) -> (r: String)
    ensures
        r@ == lowered(s@),
{
    to_lowercase(s)
}

/// The lower-case form of some characters.
pub fn lowered_chars(t: &[char]) -> (r: String)
    ensures
        r@ == lowered(t@),
{
    let s = text_of(t);
    to_lowercase(s.as_str())
}

/// The lower-case form of each of some texts.
pub open spec fn all_lowered(v: Seq<Seq<char>>) -> Seq<Seq<char>> {
    Seq::new(v.len(), |i: int| lowered(v[i]))
}

pub fn lowered_strings(v: &Vec<String>) -> (r: Vec<String>)
    ensures
        views(r@) == all_lowered(views(v@)),
{
    let mut r: Vec<String> = Vec::new();
    let mut i: usize = 0;
    while i < v.len()
        invariant
            i <= v@.len(),
            views(r@) == all_lowered(views(v@)).take(i as int),
        decreases v@.len() - i,
    {
        let ghost before = r@;
        let low = lowered_text(v[i].as_str());
        r.push(low);
        proof {
            let all = all_lowered(views(v@));
            assert(views(r@) =~= views(before).push(low@));
            assert(all.take(i + 1) =~= all.take(i as int).push(low@));
        }
        i += 1;
    }
    proof {
        assert(all_lowered(views(v@)).take(i as int) =~= all_lowered(views(v@)));
    }
    r
}

/// Tests whether one of the strings is `t`.
pub fn has_text(v: &Vec<String>, t: &str) -> (r: bool)
    ensures
        r == views(v@).contains(t@),
{
    let mut i: usize = 0;
    while i < v.len()
        invariant
            i <= v@.len(),
            forall|j: int| 0 <= j < i ==> (#[trigger] v@[j])@ != t@,
        decreases v@.len() - i,
    {
        if same_text(v[i].as_str(), t) {
            proof {
                assert(views(v@)[i as int] == t@);
            }
            return true;
        }
        i += 1;
    }
    proof {
        assert forall|j: int| 0 <= j < views(v@).len() implies views(v@)[j] != t@ by {
            assert(v@[j]@ != t@);
        }
    }
    false
}

/// Two texts, one after the other.
pub fn concat(a: &str, b: &str) -> (r: String)
    ensures
        r@ == a@ + b@,
{
    let mut s = a.to_owned();
    s.append(b);
    s
}

/// Three texts, one after the other.
pub fn concat3(a: &str, b: &str, c: &str) -> (r: String)
    ensures
        r@ == a@ + b@ + c@,
{
    let mut s = a.to_owned();
    s.append(b);
    s.append(c);
    s
}

/// The view of a string that may be missing.
pub open spec fn maybe(s: Option<String>) -> Option<Seq<char>> {
    match s {
        Some(s) => Some(s@),
        None => None,
    }
}

pub fn clone_maybe(s: &Option<String>) -> (r: Option<String>)
    ensures
        maybe(r) == maybe(*s),
{
    match s {
        Some(s) => Some(s.clone()),
        None => None,
    }
}

/// How many bytes a text takes in UTF-8.
pub open spec fn byte_len(t: Seq<char>) -> nat {
    vstd::utf8::encode_utf8(t).len()
}

/// Two texts, one after the other, take as many bytes as they take by themselves.
pub proof fn byte_len_adds(a: Seq<char>, b: Seq<char>)
    ensures
        byte_len(a + b) == byte_len(a) + byte_len(b),
    decreases a.len(),
{
    if a.len() == 0 {
        assert(a + b =~= b);
    } else {
        byte_len_adds(a.drop_first(), b);
        assert((a + b).drop_first() =~= a.drop_first() + b);
    }
}

/// There are no more lines than characters.
pub proof fn lines_are_bounded(t: Seq<char>)
    ensures
        lines(t).len() <= t.len(),
        t.len() > 0 ==> lines(t).len() > 0,
    decreases t.len(),
{
    if t.len() > 0 {
        let n = until(t, '\n');
        if 0 <= n < t.len() {
            lines_are_bounded(t.skip(n + 1));
        }
    }
}

pub fn byte_len_of(s: &str) -> (r: usize)
    ensures
        r == byte_len(s@),
{
    s.as_bytes().len()
}

/// The texts once `t` has been put in, unless it was there.
pub open spec fn with_text(s: Seq<Seq<char>>, t: Seq<char>) -> Seq<Seq<char>> {
    if s.contains(t) {
        s
    } else {
        s.push(t)
    }
}

/// Puts a string into a list, unless it is there.
pub fn add_once(v: &mut Vec<String>, t: String)
    ensures
        views(final(v)@) == with_text(views(old(v)@), t@),
{
    if !has_text(v, t.as_str()) {
        let ghost before = v@;
        v.push(t);
        proof {
            assert(views(v@) =~= views(before).push(t@));
        }
    }
}

/// Copies the views of strings: a clone that keeps every text.
pub fn clone_strings(v: &Vec<String>) -> (r: Vec<String>)
    ensures
        views(r@) == views(v@),
{
    let mut r: Vec<String> = Vec::new();
    let mut i: usize = 0;
    while i < v.len()
        invariant
            i <= v@.len(),
            views(r@) == views(v@).take(i as int),
        decreases v@.len() - i,
    {
        let ghost before = r@;
        let copy = v[i].clone();
        r.push(copy);
        proof {
            assert(views(r@) =~= views(before).push(v@[i as int]@));
            assert(views(v@).take(i + 1) =~= views(v@).take(i as int).push(v@[i as int]@));
        }
        i += 1;
    }
    proof {
        assert(views(v@).take(i as int) =~= views(v@));
    }
    r
}

} // verus!
