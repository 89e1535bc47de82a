//! What holds of the text functions, stated without them where that can be done.
use vstd::prelude::*;

use crate::text;

verus! {

/// A text stands in another exactly if that is made of it and of what is around it.
pub proof fn has_means_around(s: Seq<char>, pat: Seq<char>)
    ensures
        text::has(s, pat) <==> exists|before: Seq<char>, after: Seq<char>|
            s == #[trigger] (before + pat + after),
{
    if text::has(s, pat) {
        let i = choose|i: int| text::occurs_at(s, pat, i);
        let before = s.take(i);
        let after = s.skip(i + pat.len());
        assert(s =~= before + pat + after);
    }
    if exists|before: Seq<char>, after: Seq<char>| s == #[trigger] (before + pat + after) {
        let (before, after) = choose|before: Seq<char>, after: Seq<char>|
            s == #[trigger] (before + pat + after);
        let i = before.len() as int;
        assert(s.subrange(i, i + pat.len()) =~= pat);
        assert(text::occurs_at(s, pat, i));
    }
}

/// The first occurrence is replaced, what stands before it stays, and what follows it is
/// replaced by itself.
pub proof fn first_occurrence_is_replaced(
    before: Seq<char>,
    after: Seq<char>,
    pat: Seq<char>,
    with: Seq<char>,
)
    requires
        pat.len() > 0,
        forall|j: int|
            0 <= j < before.len() ==> !#[trigger] text::occurs_at(before + pat + after, pat, j),
    ensures
        text::replaced(before + pat + after, pat, with) == before + with + text::replaced(
            after,
            pat,
            with,
        ),
    decreases before.len(),
{
    let s = before + pat + after;
    if before.len() == 0 {
        assert(s =~= pat + after);
        text::replaced_leading(after, pat, with);
        assert(before + with + text::replaced(after, pat, with) =~= with + text::replaced(
            after,
            pat,
            with,
        ));
    } else {
        assert(!text::occurs_at(s, pat, 0));
        let rest = before.skip(1);
        let tail = rest + pat + after;
        assert(s.skip(1) =~= tail);
        assert forall|j: int| 0 <= j < rest.len() implies !#[trigger] text::occurs_at(
            tail,
            pat,
            j,
        ) by {
            assert(!text::occurs_at(s, pat, j + 1));
            assert(tail.subrange(j, j + pat.len()) =~= s.subrange(j + 1, j + 1 + pat.len()));
        }
        first_occurrence_is_replaced(rest, after, pat, with);
        assert(seq![s[0]] + (rest + with + text::replaced(after, pat, with)) =~= before + with
            + text::replaced(after, pat, with));
    }
}

/// The number that digits stand for.
pub open spec fn value_of(digits: Seq<char>) -> int
    decreases digits.len(),
{
    if digits.len() == 0 {
        0
    } else {
        10 * value_of(digits.drop_last()) + (digits.last() as int - '0' as int)
    }
}

/// A number is written in decimal digits that stand for it, without leading zeros.
pub proof fn decimal_stands_for_its_number(n: nat)
    ensures
        value_of(text::decimal(n)) == n,
        text::decimal(n).len() > 0,
        forall|i: int|
            0 <= i < text::decimal(n).len() ==> '0' as int <= (#[trigger] text::decimal(n)[i]) as int
                <= '9' as int,
        n > 0 ==> text::decimal(n)[0] != '0',
    decreases n,
{
    let s = text::decimal(n);
    assert(s.last() as int == '0' as int + n % 10);
    if n < 10 {
        assert(s.drop_last().len() == 0);
        assert(value_of(s.drop_last()) == 0);
    } else {
        decimal_stands_for_its_number(n / 10);
        assert(s.drop_last() =~= text::decimal(n / 10));
        assert(s[0] == text::decimal(n / 10)[0]);
        assert forall|i: int| 0 <= i < s.len() implies '0' as int <= (#[trigger] s[i]) as int
            <= '9' as int by {
            if i < s.len() - 1 {
                assert(s[i] == text::decimal(n / 10)[i]);
            }
        }
    }
}

/// The white space characters, one by one.
pub proof fn white_space_characters(c: char)
    ensures
        text::is_space(c) <==> c == '\t' || c == '\n' || c == '\u{b}' || c == '\u{c}' || c == '\r'
            || c == ' ' || c == '\u{85}' || c == '\u{a0}' || c == '\u{1680}' || c == '\u{2000}'
            || c == '\u{2001}' || c == '\u{2002}' || c == '\u{2003}' || c == '\u{2004}' || c
            == '\u{2005}' || c == '\u{2006}' || c == '\u{2007}' || c == '\u{2008}' || c
            == '\u{2009}' || c == '\u{200a}' || c == '\u{2028}' || c == '\u{2029}' || c
            == '\u{202f}' || c == '\u{205f}' || c == '\u{3000}',
{
}

proof fn trimmed_start_skips(s: Seq<char>)
    ensures
        exists|from: int|
            0 <= from <= s.len() && text::trimmed_start(s) == #[trigger] s.skip(from) && (forall|
                k: int,
            |
                0 <= k < from ==> text::is_space(#[trigger] s[k])) && (from < s.len()
                ==> !text::is_space(s[from])),
    decreases s.len(),
{
    if s.len() > 0 && text::is_space(s[0]) {
        let rest = s.skip(1);
        trimmed_start_skips(rest);
        let from = choose|from: int|
            0 <= from <= rest.len() && text::trimmed_start(rest) == #[trigger] rest.skip(from) && (
            forall|k: int| 0 <= k < from ==> text::is_space(#[trigger] rest[k])) && (from
                < rest.len() ==> !text::is_space(rest[from]));
        assert(s.skip(from + 1) =~= rest.skip(from));
        assert forall|k: int| 0 <= k < from + 1 implies text::is_space(#[trigger] s[k]) by {
            if k > 0 {
                assert(rest[k - 1] == s[k]);
            }
        }
    } else {
        assert(s.skip(0) =~= s);
    }
}

proof fn trimmed_end_takes(s: Seq<char>)
    ensures
        exists|to: int|
            0 <= to <= s.len() && text::trimmed_end(s) == #[trigger] s.take(to) && (forall|k: int|
                to <= k < s.len() ==> text::is_space(#[trigger] s[k])) && (to > 0
                ==> !text::is_space(s[to - 1])),
    decreases s.len(),
{
    if s.len() > 0 && text::is_space(s.last()) {
        let rest = s.drop_last();
        trimmed_end_takes(rest);
        let to = choose|to: int|
            0 <= to <= rest.len() && text::trimmed_end(rest) == #[trigger] rest.take(to) && (forall|
                k: int,
            |
                to <= k < rest.len() ==> text::is_space(#[trigger] rest[k])) && (to > 0
                ==> !text::is_space(rest[to - 1]));
        assert(s.take(to) =~= rest.take(to));
        assert forall|k: int| to <= k < s.len() implies text::is_space(#[trigger] s[k]) by {
            if k < rest.len() {
                assert(rest[k] == s[k]);
            }
        }
    } else {
        assert(s.take(s.len() as int) =~= s);
    }
}

/// A trimmed text is the text from its first to its last character that is not white space.
pub proof fn trimmed_is_the_middle(s: Seq<char>)
    ensures
        exists|from: int, to: int|
            0 <= from <= to <= s.len() && text::trimmed(s) == #[trigger] s.subrange(from, to) && (
            forall|k: int|
                0 <= k < from || to <= k < s.len() ==> text::is_space(#[trigger] s[k])) && (from
                < to ==> !text::is_space(s[from]) && !text::is_space(s[to - 1])),
{
    trimmed_start_skips(s);
    let from = choose|from: int|
        0 <= from <= s.len() && text::trimmed_start(s) == #[trigger] s.skip(from) && (forall|
            k: int,
        |
            0 <= k < from ==> text::is_space(#[trigger] s[k])) && (from < s.len()
            ==> !text::is_space(s[from]));
    let rest = s.skip(from);
    trimmed_end_takes(rest);
    let to = choose|to: int|
        0 <= to <= rest.len() && text::trimmed_end(rest) == #[trigger] rest.take(to) && (forall|
            k: int,
        |
            to <= k < rest.len() ==> text::is_space(#[trigger] rest[k])) && (to > 0
            ==> !text::is_space(rest[to - 1]));
    assert(rest.take(to) =~= s.subrange(from, from + to));
    assert forall|k: int| 0 <= k < from || from + to <= k < s.len() implies text::is_space(
        #[trigger] s[k],
    ) by {
        if k >= from {
            assert(rest[k - from] == s[k]);
        }
    }
    if to > 0 {
        assert(rest[to - 1] == s[from + to - 1]);
    }
}

/// What follows the last separator: it holds none, and in front of it stands one, unless it is
/// the whole text.
pub proof fn after_last_is_the_rest(s: Seq<char>, sep: char)
    ensures
        !text::after_last(s, sep).contains(sep),
        text::after_last(s, sep).len() <= s.len(),
        s.skip(s.len() - text::after_last(s, sep).len()) == text::after_last(s, sep),
        text::after_last(s, sep).len() < s.len() ==> s[s.len() - text::after_last(s, sep).len()
            - 1] == sep,
    decreases s.len(),
{
    let r = text::after_last(s, sep);
    if s.len() == 0 || s.last() == sep {
        assert(s.skip(s.len() as int) =~= r);
    } else {
        let rest = s.drop_last();
        let inner = text::after_last(rest, sep);
        after_last_is_the_rest(rest, sep);
        assert(r =~= inner.push(s.last()));
        if r.contains(sep) {
            let i = choose|i: int| 0 <= i < r.len() && r[i] == sep;
            assert(inner[i] == sep);
        }
        assert(s.skip(s.len() - r.len()) =~= rest.skip(rest.len() - inner.len()).push(s.last()));
    }
}

/// Texts are in order where one begins the other, or where they first differ in a smaller code
/// point.
pub proof fn lex_order_by_first_difference(a: Seq<char>, b: Seq<char>)
    ensures
        text::lex_le(a, b) <==> {
            ||| a.len() <= b.len() && b.take(a.len() as int) == a
            ||| exists|i: int|
                0 <= i < a.len() && i < b.len() && #[trigger] a.take(i) == b.take(i) && (
                a[i] as int) < (b[i] as int)
        },
    decreases a.len(),
{
    if a.len() == 0 {
        assert(b.take(0) =~= a);
    } else if b.len() == 0 {
    } else if a[0] != b[0] {
        assert(a.take(0) =~= b.take(0));
        if a.len() <= b.len() && b.take(a.len() as int) == a {
            assert(b.take(a.len() as int)[0] == b[0]);
        }
        assert forall|i: int|
            0 <= i < a.len() && i < b.len() && #[trigger] a.take(i) == b.take(i) implies i
            == 0 by {
            if i > 0 {
                assert(a.take(i)[0] == a[0]);
                assert(b.take(i)[0] == b[0]);
            }
        }
    } else {
        let x = a.skip(1);
        let y = b.skip(1);
        lex_order_by_first_difference(x, y);
        if x.len() <= y.len() && y.take(x.len() as int) == x {
            assert(b.take(a.len() as int) =~= seq![b[0]] + y.take(x.len() as int));
            assert(a =~= seq![a[0]] + x);
        }
        if a.len() <= b.len() && b.take(a.len() as int) == a {
            assert(y.take(x.len() as int) =~= b.take(a.len() as int).skip(1));
        }
        if exists|i: int|
            0 <= i < x.len() && i < y.len() && #[trigger] x.take(i) == y.take(i) && (x[i] as int)
                < (y[i] as int) {
            let i = choose|i: int|
                0 <= i < x.len() && i < y.len() && #[trigger] x.take(i) == y.take(i) && (
                x[i] as int) < (y[i] as int);
            assert(a.take(i + 1) =~= seq![a[0]] + x.take(i));
            assert(b.take(i + 1) =~= seq![b[0]] + y.take(i));
        }
        if exists|i: int|
            0 <= i < a.len() && i < b.len() && #[trigger] a.take(i) == b.take(i) && (a[i] as int)
                < (b[i] as int) {
            let i = choose|i: int|
                0 <= i < a.len() && i < b.len() && #[trigger] a.take(i) == b.take(i) && (
                a[i] as int) < (b[i] as int);
            assert(i > 0);
            assert(x.take(i - 1) =~= a.take(i).skip(1));
            assert(y.take(i - 1) =~= b.take(i).skip(1));
        }
    }
}

/// A list is written item by item, each between the two texts.
pub proof fn wrapped_item_by_item(
    a: Seq<Seq<char>>,
    item: Seq<char>,
    b: Seq<Seq<char>>,
    before: Seq<char>,
    after: Seq<char>,
)
    ensures
        text::wrapped(a + seq![item] + b, before, after) == text::wrapped(a, before, after)
            + before + item + after + text::wrapped(b, before, after),
        text::wrapped(Seq::empty(), before, after).len() == 0,
    decreases b.len(),
{
    let all = a + seq![item] + b;
    if b.len() == 0 {
        assert(all.drop_last() =~= a);
        assert(all.last() == item);
        assert(text::wrapped(all, before, after) =~= text::wrapped(a, before, after) + before
            + item + after + text::wrapped(b, before, after));
    } else {
        assert(all.drop_last() =~= a + seq![item] + b.drop_last());
        assert(all.last() == b.last());
        wrapped_item_by_item(a, item, b.drop_last(), before, after);
        assert(text::wrapped(all, before, after) =~= text::wrapped(a, before, after) + before
            + item + after + text::wrapped(b, before, after));
    }
}

/// A joined list is its two parts joined, with the separator between them.
pub proof fn joined_part_by_part(a: Seq<Seq<char>>, b: Seq<Seq<char>>, sep: Seq<char>)
    requires
        a.len() > 0,
        b.len() > 0,
    ensures
        text::joined(a + b, sep) == text::joined(a, sep) + sep + text::joined(b, sep),
        a.len() == 1 ==> text::joined(a, sep) == a[0],
    decreases b.len(),
{
    let all = a + b;
    assert(all.last() == b.last());
    if b.len() == 1 {
        assert(all.drop_last() =~= a);
    } else {
        assert(all.drop_last() =~= a + b.drop_last());
        joined_part_by_part(a, b.drop_last(), sep);
        assert(text::joined(all, sep) =~= text::joined(a, sep) + sep + text::joined(b, sep));
    }
}

/// A list is sorted exactly if each item is in order with the next.
pub proof fn sorted_pair_by_pair(list: Seq<Seq<char>>)
    ensures
        text::is_sorted(list) <==> forall|i: int|
            0 <= i < list.len() - 1 ==> text::lex_le(#[trigger] list[i], list[i + 1]),
{
    if forall|i: int|
        0 <= i < list.len() - 1 ==> text::lex_le(#[trigger] list[i], list[i + 1]) {
        assert forall|i: int, j: int| 0 <= i <= j < list.len() implies text::lex_le(
            #[trigger] list[i],
            #[trigger] list[j],
        ) by {
            in_order_far_apart(list, i, j);
        }
    }
}

proof fn in_order_far_apart(list: Seq<Seq<char>>, i: int, j: int)
    requires
        0 <= i <= j < list.len(),
        forall|k: int| 0 <= k < list.len() - 1 ==> text::lex_le(#[trigger] list[k], list[k + 1]),
    ensures
        text::lex_le(list[i], list[j]),
    decreases j - i,
{
    if i == j {
        order_with_itself(list[i]);
    } else {
        in_order_far_apart(list, i, j - 1);
        assert(text::lex_le(list[j - 1], list[j - 1 + 1]));
        order_is_passed_on(list[i], list[j - 1], list[j]);
    }
}

proof fn order_with_itself(a: Seq<char>)
    ensures
        text::lex_le(a, a),
    decreases a.len(),
{
    if a.len() > 0 {
        order_with_itself(a.skip(1));
    }
}

proof fn order_is_passed_on(a: Seq<char>, b: Seq<char>, c: Seq<char>)
    requires
        text::lex_le(a, b),
        text::lex_le(b, c),
    ensures
        text::lex_le(a, c),
    decreases a.len(),
{
    if a.len() > 0 && a[0] == b[0] && b[0] == c[0] {
        order_is_passed_on(a.skip(1), b.skip(1), c.skip(1));
    }
}

} // verus!
