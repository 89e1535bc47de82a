//! Text as sequences of characters: searching, replacing, joining, sorting.
use vstd::prelude::*;

verus! {

/// The characters of each string of a list.
pub open spec fn views(list: Seq<String>) -> Seq<Seq<char>> {
    list.map_values(|s: String| s@)
}

/// `pat` stands in `s` at position `i`.
pub open spec fn occurs_at(s: Seq<char>, pat: Seq<char>, i: int) -> bool {
    &&& 0 <= i
    &&& i + pat.len() <= s.len()
    &&& s.subrange(i, i + pat.len()) == pat
}

/// `pat` stands somewhere in `s`.
pub open spec fn has(s: Seq<char>, pat: Seq<char>) -> bool {
    exists|i: int| occurs_at(s, pat, i)
}

/// `s` with every occurrence of `pat` replaced by `with`, taken from the left and
/// without overlap.
pub open spec fn replaced(s: Seq<char>, pat: Seq<char>, with: Seq<char>) -> Seq<char>
    decreases s.len(),
{
    if s.len() == 0 {
        s
    } else if pat.len() > 0 && occurs_at(s, pat, 0) {
        with + replaced(s.skip(pat.len() as int), pat, with)
    } else {
        seq![s[0]] + replaced(s.skip(1), pat, with)
    }
}

/// The items of `list`, one after the other, with `sep` between two neighbours.
pub open spec fn joined(list: Seq<Seq<char>>, sep: Seq<char>) -> Seq<char>
    decreases list.len(),
{
    if list.len() == 0 {
        Seq::empty()
    } else if list.len() == 1 {
        list[0]
    } else {
        joined(list.drop_last(), sep) + sep + list.last()
    }
}

/// The items of `list`, each between `before` and `after`, one after the other.
pub open spec fn wrapped(list: Seq<Seq<char>>, before: Seq<char>, after: Seq<char>) -> Seq<char>
    decreases list.len(),
{
    if list.len() == 0 {
        Seq::empty()
    } else {
        wrapped(list.drop_last(), before, after) + before + list.last() + after
    }
}

/// The decimal digit of value `d`.
pub open spec fn digit(d: nat) -> char {
    (('0' as int) + d) as char
}

/// `n` in decimal, without leading zeros.
pub open spec fn decimal(n: nat) -> Seq<char>
    decreases n,
{
    if n < 10 {
        seq![digit(n)]
    } else {
        decimal(n / 10).push(digit(n % 10))
    }
}

/// Unicode's `White_Space` property.
pub open spec fn is_space(c: char) -> bool {
    let n = c as int;
    ||| 0x09 <= n <= 0x0d
    ||| n == 0x20
    ||| n == 0x85
    ||| n == 0xa0
    ||| n == 0x1680
    ||| 0x2000 <= n <= 0x200a
    ||| n == 0x2028
    ||| n == 0x2029
    ||| n == 0x202f
    ||| n == 0x205f
    ||| n == 0x3000
}

/// `s` without the white space at its start.
pub open spec fn trimmed_start(s: Seq<char>) -> Seq<char>
    decreases s.len(),
{
    if s.len() > 0 && is_space(s[0]) {
        trimmed_start(s.skip(1))
    } else {
        s
    }
}

/// `s` without the white space at its end.
pub open spec fn trimmed_end(s: Seq<char>) -> Seq<char>
    decreases s.len(),
{
    if s.len() > 0 && is_space(s.last()) {
        trimmed_end(s.drop_last())
    } else {
        s
    }
}

/// `s` without the white space at its two ends.
pub open spec fn trimmed(s: Seq<char>) -> Seq<char> {
    trimmed_end(trimmed_start(s))
}

/// What follows the last `sep` of `s`, or all of `s` if it has none.
pub open spec fn after_last(s: Seq<char>, sep: char) -> Seq<char>
    decreases s.len(),
{
    if s.len() == 0 || s.last() == sep {
        Seq::empty()
    } else {
        after_last(s.drop_last(), sep).push(s.last())
    }
}

/// `a` comes before `b`, or equals it, in the order of their code points.
pub open spec fn lex_le(a: Seq<char>, b: Seq<char>) -> bool
    decreases a.len(),
{
    if a.len() == 0 {
        true
    } else if b.len() == 0 {
        false
    } else if a[0] == b[0] {
        lex_le(a.skip(1), b.skip(1))
    } else {
        (a[0] as int) < (b[0] as int)
    }
}

/// No item of `list` comes before an earlier one.
pub open spec fn is_sorted(list: Seq<Seq<char>>) -> bool {
    forall|i: int, j: int| 0 <= i <= j < list.len() ==> lex_le(#[trigger] list[i], #[trigger] list[j])
}

/// The characters of `s`.
pub fn chars(s: &str) -> (r: Vec<char>)
    ensures
        r@ == s@,
{
    let mut out: Vec<char> = Vec::new();
    for c in it: s.chars()
        invariant
            it.seq() == s@,
            out@ == s@.take(it.index() as int),
    {
        out.push(c);
    }
    out
}

/// Whether two strings hold the same characters.
pub fn same_text(a: &str, b: &str) -> (r: bool)
    ensures
        r == (a@ == b@),
{
    a.to_owned() == b.to_owned()
}

/// Whether `list` holds `item`.
pub fn holds(list: &[String], item: &str) -> (r: bool)
    ensures
        r == views(list@).contains(item@),
{
    let mut i: usize = 0;
    while i < list.len()
        invariant
            i <= list.len(),
            forall|j: int| 0 <= j < i ==> list@[j]@ != item@,
        decreases list.len() - i,
    {
        if same_text(list[i].as_str(), item) {
            assert(views(list@)[i as int] == item@);
            return true;
        }
        i += 1;
    }
    assert forall|j: int| 0 <= j < views(list@).len() implies views(list@)[j] != item@ by {
        assert(list@[j]@ != item@);
    }
    false
}

/// Whether `ps` stands in `cs` at position `i`.
fn stands_at(cs: &Vec<char>, ps: &Vec<char>, i: usize) -> (r: bool)
    requires
        i <= cs.len(),
    ensures
        r == occurs_at(cs@, ps@, i as int),
{
    if ps.len() > cs.len() - i {
        return false;
    }
    let mut j: usize = 0;
    while j < ps.len()
        invariant
            i <= cs.len(),
            ps.len() <= cs.len() - i,
            j <= ps.len(),
            forall|k: int| 0 <= k < j ==> cs@[i + k] == ps@[k],
        decreases ps.len() - j,
    {
        if cs[i + j] != ps[j] {
            assert(cs@.subrange(i as int, i + ps@.len())[j as int] != ps@[j as int]);
            return false;
        }
        j += 1;
    }
    assert(cs@.subrange(i as int, i + ps@.len()) =~= ps@);
    true
}

/// Whether `pat` stands somewhere in `s`.
pub fn has_text(s: &str, pat: &str) -> (r: bool)
    ensures
        r == has(s@, pat@),
{
    let cs = chars(s);
    let ps = chars(pat);
    let mut i: usize = 0;
    while i < cs.len()
        invariant
            cs@ == s@,
            ps@ == pat@,
            i <= cs.len(),
            forall|k: int| 0 <= k < i ==> !occurs_at(s@, pat@, k),
        decreases cs.len() - i,
    {
        if stands_at(&cs, &ps, i) {
            return true;
        }
        i += 1;
    }
    if ps.len() == 0 {
        assert(occurs_at(s@, pat@, i as int)) by {
            assert(s@.subrange(i as int, i as int) =~= pat@);
        }
        return true;
    }
    assert forall|k: int| !occurs_at(s@, pat@, k) by {
        if 0 <= k < i {
        }
    }
    false
}

/// `s` with every occurrence of `pat` replaced by `with`.
pub fn replace_text(s: &str, pat: &str, with: &str) -> (r: String)
    requires
        pat@.len() > 0,
    ensures
        r@ == replaced(s@, pat@, with@),
{
    let cs = chars(s);
    let ps = chars(pat);
    let n = cs.len();
    let mut out = String::new();
    let mut start: usize = 0;
    let mut i: usize = 0;
    proof {
        assert(s@.skip(0) =~= s@);
        assert(s@.subrange(0, 0) =~= Seq::<char>::empty());
        assert(out@ + Seq::<char>::empty() + replaced(s@, pat@, with@) =~= replaced(s@, pat@, with@));
    }
    while i < n
        invariant
            cs@ == s@,
            ps@ == pat@,
            n == cs.len(),
            pat@.len() > 0,
            start <= i <= n,
            out@ + s@.subrange(start as int, i as int) + replaced(s@.skip(i as int), pat@, with@)
                == replaced(s@, pat@, with@),
        decreases n - i,
    {
        let ghost rest = s@.skip(i as int);
        if stands_at(&cs, &ps, i) {
            proof {
                assert(rest.subrange(0, pat@.len() as int) =~= s@.subrange(i as int, i + pat@.len()));
                assert(occurs_at(rest, pat@, 0));
                assert(rest.skip(pat@.len() as int) =~= s@.skip(i + pat@.len()));
            }
            let ghost before = out@;
            out.append(s.substring_char(start, i));
            out.append(with);
            i = i + ps.len();
            proof {
                assert(s@.subrange(i as int, i as int) =~= Seq::<char>::empty());
                assert(out@ + s@.subrange(i as int, i as int) + replaced(s@.skip(i as int), pat@, with@)
                    =~= before + s@.subrange(start as int, i - pat@.len()) + replaced(rest, pat@, with@));
            }
            start = i;
        } else {
            proof {
                assert(!occurs_at(rest, pat@, 0)) by {
                    if occurs_at(rest, pat@, 0) {
                        assert(rest.subrange(0, pat@.len() as int)
                            =~= s@.subrange(i as int, i + pat@.len()));
                    }
                }
                assert(rest.skip(1) =~= s@.skip(i + 1));
                assert(s@.subrange(start as int, i + 1) =~= s@.subrange(start as int, i as int).push(s@[i as int]));
                assert(out@ + s@.subrange(start as int, i + 1) + replaced(s@.skip(i + 1), pat@, with@)
                    =~= out@ + s@.subrange(start as int, i as int) + replaced(rest, pat@, with@));
            }
            i += 1;
        }
    }
    proof {
        assert(s@.skip(n as int) =~= Seq::<char>::empty());
        assert(out@ + s@.subrange(start as int, n as int) + Seq::<char>::empty()
            =~= out@ + s@.subrange(start as int, n as int));
    }
    out.append(s.substring_char(start, n));
    out
}

/// The items of `list` with `sep` between two neighbours.
pub fn join_texts(list: &[String], sep: &str) -> (r: String)
    ensures
        r@ == joined(views(list@), sep@),
{
    let mut out = String::new();
    let mut i: usize = 0;
    while i < list.len()
        invariant
            i <= list.len(),
            out@ == joined(views(list@).take(i as int), sep@),
        decreases list.len() - i,
    {
        proof {
            assert(views(list@).take(i + 1).drop_last() =~= views(list@).take(i as int));
        }
        if i > 0 {
            out.append(sep);
        }
        out.append(list[i].as_str());
        i += 1;
    }
    proof {
        assert(views(list@).take(i as int) =~= views(list@));
    }
    out
}

/// The items of `list`, each between `before` and `after`.
pub fn wrap_texts(list: &[String], before: &str, after: &str) -> (r: String)
    ensures
        r@ == wrapped(views(list@), before@, after@),
{
    let mut out = String::new();
    let mut i: usize = 0;
    while i < list.len()
        invariant
            i <= list.len(),
            out@ == wrapped(views(list@).take(i as int), before@, after@),
        decreases list.len() - i,
    {
        proof {
            assert(views(list@).take(i + 1).drop_last() =~= views(list@).take(i as int));
        }
        out.append(before);
        out.append(list[i].as_str());
        out.append(after);
        i += 1;
    }
    proof {
        assert(views(list@).take(i as int) =~= views(list@));
    }
    out
}

/// The digit of value `d` as a string.
fn digit_text(d: u64) -> (r: &'static str)
    requires
        d < 10,
    ensures
        r@ == seq![digit(d as nat)],
{
    proof {
        reveal_strlit("0");
        reveal_strlit("1");
        reveal_strlit("2");
        reveal_strlit("3");
        reveal_strlit("4");
        reveal_strlit("5");
        reveal_strlit("6");
        reveal_strlit("7");
        reveal_strlit("8");
        reveal_strlit("9");
    }
    match d {
        0 => "0",
        1 => "1",
        2 => "2",
        3 => "3",
        4 => "4",
        5 => "5",
        6 => "6",
        7 => "7",
        8 => "8",
        _ => "9",
    }
}

/// `n` in decimal.
pub fn decimal_text(n: u64) -> (r: String)
    ensures
        r@ == decimal(n as nat),
    decreases n,
{
    if n < 10 {
        digit_text(n).to_owned()
    } else {
        let mut out = decimal_text(n / 10);
        let ghost head = out@;
        out.append(digit_text(n % 10));
        proof {
            assert(head + seq![digit((n % 10) as nat)] =~= head.push(digit((n % 10) as nat)));
        }
        out
    }
}

/// Whether `c` is white space.
pub fn is_space_char(c: char) -> (r: bool)
    ensures
        r == is_space(c),
{
    let n = c as u32;
    (0x09 <= n && n <= 0x0d) || n == 0x20 || n == 0x85 || n == 0xa0 || n == 0x1680 || (0x2000 <= n
        && n <= 0x200a) || n == 0x2028 || n == 0x2029 || n == 0x202f || n == 0x205f || n == 0x3000
}

/// `s` without the white space at its two ends.
pub fn trim_text(s: &str) -> (r: String)
    ensures
        r@ == trimmed(s@),
{
    let cs = chars(s);
    let n = cs.len();
    let mut i: usize = 0;
    proof {
        assert(s@.skip(0) =~= s@);
    }
    while i < n && is_space_char(cs[i])
        invariant
            cs@ == s@,
            n == cs.len(),
            i <= n,
            trimmed_start(s@) == trimmed_start(s@.skip(i as int)),
        decreases n - i,
    {
        proof {
            assert(s@.skip(i as int).skip(1) =~= s@.skip(i + 1));
        }
        i += 1;
    }
    assert(trimmed_start(s@) == s@.skip(i as int));
    let mut j: usize = n;
    proof {
        assert(s@.subrange(i as int, n as int) =~= s@.skip(i as int));
    }
    while j > i && is_space_char(cs[j - 1])
        invariant
            cs@ == s@,
            n == cs.len(),
            i <= j <= n,
            trimmed_end(s@.subrange(i as int, n as int)) == trimmed_end(s@.subrange(i as int, j as int)),
        decreases j,
    {
        proof {
            assert(s@.subrange(i as int, j as int).drop_last() =~= s@.subrange(i as int, j - 1));
        }
        j -= 1;
    }
    s.substring_char(i, j).to_owned()
}

/// What follows the last `sep` of `s`, or all of `s` if it has none.
pub fn after_last_text(s: &str, sep: char) -> (r: String)
    ensures
        r@ == after_last(s@, sep),
{
    let cs = chars(s);
    let n = cs.len();
    let mut i: usize = n;
    proof {
        assert(s@.take(n as int) =~= s@);
        assert(s@.skip(n as int) =~= Seq::<char>::empty());
        assert(after_last(s@, sep) + Seq::<char>::empty() =~= after_last(s@, sep));
    }
    while i > 0 && cs[i - 1] != sep
        invariant
            cs@ == s@,
            n == cs.len(),
            i <= n,
            after_last(s@, sep) == after_last(s@.take(i as int), sep) + s@.skip(i as int),
        decreases i,
    {
        proof {
            let head = s@.take(i as int);
            assert(head.drop_last() =~= s@.take(i - 1));
            assert(after_last(head.drop_last(), sep).push(head.last()) + s@.skip(i as int)
                =~= after_last(s@.take(i - 1), sep) + s@.skip(i - 1));
        }
        i -= 1;
    }
    proof {
        assert(after_last(s@.take(i as int), sep) =~= Seq::<char>::empty());
        assert(Seq::<char>::empty() + s@.skip(i as int) =~= s@.subrange(i as int, n as int));
    }
    s.substring_char(i, n).to_owned()
}

/// What stands in a tail of `s` stands in `s`.
pub proof fn has_in_rest(s: Seq<char>, pat: Seq<char>, from: int)
    requires
        0 <= from <= s.len(),
        has(s.skip(from), pat),
    ensures
        has(s, pat),
{
    let i = choose|i: int| occurs_at(s.skip(from), pat, i);
    assert(s.skip(from).subrange(i, i + pat.len()) =~= s.subrange(from + i, from + i + pat.len()));
    assert(occurs_at(s, pat, from + i));
}

/// Where `pat` does not stand, nothing is replaced.
pub proof fn replaced_absent(s: Seq<char>, pat: Seq<char>, with: Seq<char>)
    requires
        !self::has(s, pat),
    ensures
        replaced(s, pat, with) == s,
    decreases s.len(),
{
    if s.len() > 0 {
        if has(s.skip(1), pat) {
            has_in_rest(s, pat, 1);
        }
        replaced_absent(s.skip(1), pat, with);
        assert(seq![s[0]] + s.skip(1) =~= s);
    }
}

/// A head in which `pat` cannot begin stays, and what follows is replaced by itself.
pub proof fn replaced_after(head: Seq<char>, s: Seq<char>, pat: Seq<char>, with: Seq<char>)
    requires
        pat.len() > 0,
        !head.contains(pat[0]),
    ensures
        replaced(head + s, pat, with) == head + replaced(s, pat, with),
    decreases head.len(),
{
    if head.len() == 0 {
        assert(head + s =~= s);
        assert(head + replaced(s, pat, with) =~= replaced(s, pat, with));
    } else {
        let all = head + s;
        if occurs_at(all, pat, 0) {
            assert(all.subrange(0, pat.len() as int)[0] == head[0]);
            assert(head.contains(pat[0]));
        }
        let rest = head.skip(1);
        assert(all.skip(1) =~= rest + s);
        assert forall|c: char| rest.contains(c) implies head.contains(c) by {
            let i = choose|i: int| 0 <= i < rest.len() && rest[i] == c;
            assert(head[i + 1] == c);
        }
        replaced_after(rest, s, pat, with);
        assert(seq![all[0]] + (rest + replaced(s, pat, with)) =~= head + replaced(s, pat, with));
    }
}

/// A leading `pat` is replaced, and what follows is replaced by itself.
pub proof fn replaced_leading(s: Seq<char>, pat: Seq<char>, with: Seq<char>)
    requires
        pat.len() > 0,
    ensures
        replaced(pat + s, pat, with) == with + replaced(s, pat, with),
{
    assert((pat + s).subrange(0, pat.len() as int) =~= pat);
    assert((pat + s).skip(pat.len() as int) =~= s);
}

/// Any two texts are in order one way or the other.
pub proof fn lex_total(a: Seq<char>, b: Seq<char>)
    ensures
        lex_le(a, b) || lex_le(b, a),
    decreases a.len(),
{
    if a.len() > 0 && b.len() > 0 && a[0] == b[0] {
        lex_total(a.skip(1), b.skip(1));
    }
}

/// The order of texts carries over from neighbour to neighbour.
pub proof fn lex_transitive(a: Seq<char>, b: Seq<char>, c: Seq<char>)
    requires
        lex_le(a, b),
        lex_le(b, c),
    ensures
        lex_le(a, c),
    decreases a.len(),
{
    if a.len() > 0 && b.len() > 0 && c.len() > 0 && a[0] == b[0] && b[0] == c[0] {
        lex_transitive(a.skip(1), b.skip(1), c.skip(1));
    }
}

/// Two texts that are in order both ways are the same text.
pub proof fn lex_antisymmetric(a: Seq<char>, b: Seq<char>)
    requires
        lex_le(a, b),
        lex_le(b, a),
    ensures
        a == b,
    decreases a.len(),
{
    if a.len() > 0 && b.len() > 0 {
        lex_antisymmetric(a.skip(1), b.skip(1));
        assert(a =~= seq![a[0]] + a.skip(1));
        assert(b =~= seq![b[0]] + b.skip(1));
    } else {
        assert(a =~= b);
    }
}

/// There is one way to put texts in order.
pub proof fn sorted_is_unique(a: Seq<Seq<char>>, b: Seq<Seq<char>>)
    requires
        is_sorted(a),
        is_sorted(b),
        a.to_multiset() == b.to_multiset(),
    ensures
        a == b,
    decreases a.len(),
{
    a.to_multiset_ensures();
    b.to_multiset_ensures();
    if a.len() == 0 {
        assert(a =~= b);
    } else {
        assert(a.contains(a[0]));
        assert(b.contains(b[0]));
        assert(a.to_multiset().count(a[0]) > 0);
        assert(b.to_multiset().count(b[0]) > 0);
        assert(b.contains(a[0]));
        assert(a.contains(b[0]));
        lex_antisymmetric(a[0], b[0]);
        assert(a.remove(0).to_multiset() =~= b.remove(0).to_multiset());
        sorted_is_unique(a.remove(0), b.remove(0));
        assert(a =~= seq![a[0]] + a.remove(0));
        assert(b =~= seq![b[0]] + b.remove(0));
    }
}

proof fn multiset_of_insert(s: Seq<Seq<char>>, i: int, a: Seq<char>)
    requires
        0 <= i <= s.len(),
    ensures
        s.insert(i, a).to_multiset() == s.to_multiset().insert(a),
{
    let grown = s.insert(i, a);
    assert(grown[i] == a);
    assert(grown.remove(i) =~= s);
    grown.to_multiset_ensures();
    assert(grown.to_multiset().count(a) > 0) by {
        assert(grown.contains(a));
    }
    assert(grown.to_multiset() =~= s.to_multiset().insert(a));
}

/// The number of `c` in Unicode.
fn code_point(c: char) -> (r: u32)
    ensures
        r as int == c as int,
{
    c as u32
}

/// Whether `a` comes before `b` or equals it.
fn in_order(a: &str, b: &str) -> (r: bool)
    ensures
        r == lex_le(a@, b@),
{
    let xs = chars(a);
    let ys = chars(b);
    let mut i: usize = 0;
    proof {
        assert(a@.skip(0) =~= a@);
        assert(b@.skip(0) =~= b@);
    }
    while i < xs.len() && i < ys.len() && xs[i] == ys[i]
        invariant
            xs@ == a@,
            ys@ == b@,
            i <= xs.len(),
            i <= ys.len(),
            lex_le(a@, b@) == lex_le(a@.skip(i as int), b@.skip(i as int)),
        decreases xs.len() - i,
    {
        proof {
            assert(a@.skip(i as int).skip(1) =~= a@.skip(i + 1));
            assert(b@.skip(i as int).skip(1) =~= b@.skip(i + 1));
        }
        i += 1;
    }
    if i == xs.len() {
        true
    } else if i == ys.len() {
        false
    } else {
        code_point(xs[i]) < code_point(ys[i])
    }
}

/// The items of `list` in the order of their code points.
pub fn sort_texts(list: &[String]) -> (r: Vec<String>)
    ensures
        is_sorted(views(r@)),
        views(r@).to_multiset() == views(list@).to_multiset(),
{
    let mut out: Vec<String> = Vec::new();
    let mut i: usize = 0;
    proof {
        assert(views(out@) =~= views(list@).take(0));
    }
    while i < list.len()
        invariant
            i <= list.len(),
            is_sorted(views(out@)),
            views(out@).to_multiset() == views(list@).take(i as int).to_multiset(),
        decreases list.len() - i,
    {
        let mut p: usize = 0;
        while p < out.len() && in_order(out[p].as_str(), list[i].as_str())
            invariant
                i < list.len(),
                p <= out.len(),
                forall|k: int| 0 <= k < p ==> lex_le(#[trigger] views(out@)[k], list@[i as int]@),
            decreases out.len() - p,
        {
            p += 1;
        }
        let ghost before = views(out@);
        let ghost item = list@[i as int]@;
        out.insert(p, list[i].clone());
        proof {
            assert(views(out@) =~= before.insert(p as int, item));
            multiset_of_insert(before, p as int, item);
            assert(views(list@).take(i + 1) =~= views(list@).take(i as int).push(item));
            views(list@).take(i as int).to_multiset_ensures();
            assert forall|k: int| p <= k < before.len() implies lex_le(item, #[trigger] before[k]) by {
                lex_total(before[p as int], item);
                lex_transitive(item, before[p as int], before[k]);
            }
            lex_total(item, item);
            assert forall|a: int, b: int| 0 <= a <= b < views(out@).len() implies lex_le(
                #[trigger] views(out@)[a],
                #[trigger] views(out@)[b],
            ) by {
                let x = if a < p { a } else { a - 1 };
                let y = if b < p { b } else { b - 1 };
                if a != p && b != p {
                    assert(lex_le(before[x], before[y]));
                }
            }
        }
        i += 1;
    }
    proof {
        assert(views(list@).take(i as int) =~= views(list@));
    }
    out
}

/// The texts of `list` in a list of their own.
pub fn copy_texts(list: &[String]) -> (r: Vec<String>)
    ensures
        r@ == list@,
{
    let mut out: Vec<String> = Vec::new();
    let mut i: usize = 0;
    while i < list.len()
        invariant
            i <= list.len(),
            out@ == list@.take(i as int),
        decreases list.len() - i,
    {
        out.push(list[i].clone());
        i += 1;
    }
    out
}

} // verus!
