//! What texts keep when they are taken apart.

use crate::text;
use vstd::prelude::*;

verus! {

/// The text neither starts nor ends with a blank.
pub open spec fn is_bare(t: Seq<char>) -> bool {
    t.len() > 0 ==> !text::white(t[0]) && !text::white(t.last())
}

/// The text is another one with nothing but blanks before and behind it.
pub open spec fn only_blanks_around(t: Seq<char>, a: Seq<char>, inner: Seq<char>, b: Seq<char>) -> bool {
    &&& t == a + inner + b
    &&& forall|i: int| 0 <= i < a.len() ==> text::white(#[trigger] a[i])
    &&& forall|i: int| 0 <= i < b.len() ==> text::white(#[trigger] b[i])
}

/// Trimming takes off all blanks at both ends, and nothing else.
pub proof fn trimming_takes_off_blanks(t: Seq<char>)
    ensures
        is_bare(text::trim(t)),
        exists|a: Seq<char>, b: Seq<char>| #[trigger] only_blanks_around(t, a, text::trim(t), b),
        is_bare(t) ==> text::trim(t) == t,
{
    let a = start_taken_off(t);
    let rest = text::trim_start(t);
    let b = end_taken_off(rest);
    assert(t =~= a + text::trim(t) + b);
    assert(only_blanks_around(t, a, text::trim(t), b));
    if text::trim(t).len() > 0 {
        assert(rest[0] == text::trim(t)[0]);
    }
}

proof fn start_taken_off(t: Seq<char>) -> (a: Seq<char>)
    ensures
        t == a + text::trim_start(t),
        forall|i: int| 0 <= i < a.len() ==> text::white(#[trigger] a[i]),
        text::trim_start(t).len() > 0 ==> !text::white(text::trim_start(t)[0]),
        t.len() > 0 && !text::white(t[0]) ==> text::trim_start(t) == t,
    decreases t.len(),
{
    if t.len() == 0 || !text::white(t[0]) {
        assert(t =~= Seq::<char>::empty() + t);
        Seq::empty()
    } else {
        let more = start_taken_off(t.drop_first());
        let inner = text::trim_start(t);
        assert(t.drop_first() == more + inner);
        assert(t =~= seq![t[0]] + (more + inner));
        assert(t =~= seq![t[0]] + more + inner);
        seq![t[0]] + more
    }
}

proof fn end_taken_off(t: Seq<char>) -> (b: Seq<char>)
    ensures
        t == text::trim_end(t) + b,
        forall|i: int| 0 <= i < b.len() ==> text::white(#[trigger] b[i]),
        text::trim_end(t).len() > 0 ==> !text::white(text::trim_end(t).last()),
        t.len() > 0 && !text::white(t.last()) ==> text::trim_end(t) == t,
    decreases t.len(),
{
    if t.len() == 0 || !text::white(t.last()) {
        assert(t =~= t + Seq::<char>::empty());
        Seq::empty()
    } else {
        let more = end_taken_off(t.drop_last());
        let inner = text::trim_end(t);
        assert(t.drop_last() == inner + more);
        assert(t =~= (inner + more).push(t.last()));
        assert(t =~= inner + more.push(t.last()));
        more.push(t.last())
    }
}

proof fn until_separator(a: Seq<char>, c: char, r: Seq<char>)
    requires
        !a.contains(c),
    ensures
        text::until(a + seq![c] + r, c) == a.len(),
    decreases a.len(),
{
    let t = a + seq![c] + r;
    if a.len() > 0 {
        assert(a.contains(a[0]));
        assert(t[0] == a[0]);
        if a.drop_first().contains(c) {
            let i = choose|i: int| 0 <= i < a.drop_first().len() && a.drop_first()[i] == c;
            assert(a[i + 1] == c);
        }
        until_separator(a.drop_first(), c, r);
        assert(t.drop_first() =~= a.drop_first() + seq![c] + r);
    } else {
        assert(t[0] == c);
    }
}

proof fn until_without(a: Seq<char>, c: char)
    requires
        !a.contains(c),
    ensures
        text::until(a, c) == a.len(),
{
    text::until_bounds(a, c);
    if text::until(a, c) < a.len() {
        assert(a.contains(a[text::until(a, c)]));
    }
}

/// A text is split at each separator.
pub proof fn splitting_cuts_at_separators(a: Seq<char>, c: char, r: Seq<char>)
    requires
        !a.contains(c),
    ensures
        text::split(a + seq![c] + r, c) == seq![a] + text::split(r, c),
        text::split(a, c) == seq![a],
{
    let t = a + seq![c] + r;
    until_separator(a, c, r);
    until_without(a, c);
    assert(t.take(a.len() as int) =~= a);
    assert(t.skip((a.len() + 1) as int) =~= r);
}

/// A text is read line by line; a carriage return before the line feed does not count, and a
/// line feed at the end starts no further line.
pub proof fn lines_end_at_line_feeds(a: Seq<char>, r: Seq<char>)
    requires
        !a.contains('\n'),
        a.len() > 0 ==> a.last() != '\r',
    ensures
        text::lines(a + seq!['\n'] + r) == seq![a] + text::lines(r),
        text::lines(a.push('\r') + seq!['\n'] + r) == seq![a] + text::lines(r),
        a.len() > 0 ==> text::lines(a) == seq![a],
        text::lines(Seq::empty()) == Seq::<Seq<char>>::empty(),
{
    let t = a + seq!['\n'] + r;
    let back = a.push('\r');
    let u = back + seq!['\n'] + r;
    if back.contains('\n') {
        let i = choose|i: int| 0 <= i < back.len() && back[i] == '\n';
        if i < a.len() {
            assert(a[i] == '\n');
        }
    }
    until_separator(a, '\n', r);
    until_separator(back, '\n', r);
    until_without(a, '\n');
    assert(t.take(a.len() as int) =~= a);
    assert(t.skip((a.len() + 1) as int) =~= r);
    assert(u.take(back.len() as int) =~= back);
    assert(u.skip((back.len() + 1) as int) =~= r);
    assert(back.drop_last() =~= a);
}

/// A number that was written is read back.
pub proof fn numbers_are_read_back(n: nat, max: int)
    ensures
        n <= max ==> text::number(text::decimal(n), 10, max) == Some(n as int),
        n > max ==> text::number(text::decimal(n), 10, max) is None,
{
    digits_are_read_back(n);
    text::decimal_identifies(n, n);
}

proof fn digits_are_read_back(n: nat)
    ensures
        text::digits_value(text::decimal(n), 10) == Some(n as int),
        text::decimal(n)[0] != '+',
        text::decimal(n).len() > 0,
    decreases n,
{
    reveal_with_fuel(text::digits_value, 2);
    if n < 10 {
        let t = text::decimal(n);
        assert(t =~= seq![text::digit(n as int)]);
        assert(t.drop_last() =~= Seq::<char>::empty());
        assert(t.last() as u32 == 0x30 + n);
    } else {
        digits_are_read_back(n / 10);
        let t = text::decimal(n);
        let d = text::digit((n % 10) as int);
        assert(t.drop_last() =~= text::decimal(n / 10));
        assert(t.last() == d);
        assert(d as u32 == 0x30 + n % 10);
        assert((n / 10) * 10 + n % 10 == n);
        assert(t[0] == text::decimal(n / 10)[0]);
    }
}

/// A text contains what stands in it, and starts and ends with what stands there.
pub proof fn texts_contain_their_parts(a: Seq<char>, b: Seq<char>, c: Seq<char>)
    ensures
        text::contains(a + b + c, b),
        text::starts(a + b, a),
        text::ends(a + b, b),
{
    let t = a + b + c;
    assert(t.subrange(a.len() as int, (a.len() + b.len()) as int) =~= b);
    assert((a + b).subrange(0, a.len() as int) =~= a);
    assert((a + b).subrange((a + b).len() - b.len(), (a + b).len() as int) =~= b);
}

/// What a text starts with, or what starts that, it contains.
pub proof fn starts_go_on(t: Seq<char>, a: Seq<char>, b: Seq<char>, x: Seq<char>)
    requires
        text::starts(t, a + b),
    ensures
        text::starts(t, a),
        text::contains(a + b, x) ==> text::contains(t, x),
{
    let head = a + b;
    assert(t.subrange(0, head.len() as int) == head);
    assert(t.subrange(0, a.len() as int) =~= a) by {
        assert forall|i: int| 0 <= i < a.len() implies t[i] == a[i] by {
            assert(t.subrange(0, head.len() as int)[i] == head[i]);
        }
    }
    if text::contains(head, x) {
        let i = choose|i: int|
            0 <= i <= head.len() - x.len() && #[trigger] head.subrange(i, i + x.len()) == x;
        assert(t.subrange(i, i + x.len()) =~= head.subrange(i, i + x.len()));
    }
}

/// Texts in ASCII are put in small letters letter by letter, and to do so again changes
/// nothing.
pub proof fn small_letters_stay_small(t: Seq<char>, i: int)
    requires
        forall|j: int| 0 <= j < t.len() ==> (#[trigger] t[j] as u32) < 0x80,
        0 <= i < t.len(),
    ensures
        text::lowered(t).len() == t.len(),
        0x41 <= (t[i] as u32) <= 0x5a ==> text::lowered(t)[i] as u32 == (t[i] as u32) + 0x20,
        !(0x41 <= (t[i] as u32) <= 0x5a) ==> text::lowered(t)[i] == t[i],
        text::lowered(text::lowered(t)) == text::lowered(t),
{
    let low = text::lowered(t);
    assert(text::ascii(t));
    assert forall|j: int| 0 <= j < low.len() implies (#[trigger] low[j] as u32) < 0x80 && !(0x41
        <= (low[j] as u32) <= 0x5a) by {
        assert((t[j] as u32) < 0x80);
    }
    assert(text::ascii(low));
    assert(text::lowered(low) =~= low);
}

} // verus!
