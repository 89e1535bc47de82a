//! What becomes of each macro call that pulls in a file, and of everything around it.
use vstd::prelude::*;

use super::relative_paths;
use crate::text;

verus! {

/// `n` steps up.
pub open spec fn up(n: nat) -> Seq<char>
    decreases n,
{
    if n == 0 {
        Seq::empty()
    } else {
        "../"@ + up((n - 1) as nat)
    }
}

/// One of the macros that pull in a file, with its `!`.
pub open spec fn pulls_in(name: Seq<char>) -> bool {
    name == "include!"@ || name == "include_str!"@ || name == "include_bytes!"@
}

/// Nothing but white space.
pub open spec fn blank(s: Seq<char>) -> bool {
    forall|i: int| 0 <= i < s.len() ==> text::is_space(#[trigger] s[i])
}

/// The first character is kept, and what follows is adjusted by itself.
pub open spec fn keeps_first(s: Seq<char>, depth: nat) -> bool {
    relative_paths::adjusted(s, depth) == seq![s[0]] + relative_paths::adjusted(s.skip(1), depth)
}

proof fn spaces_counted(a: Seq<char>, t: Seq<char>)
    requires
        blank(a),
        t.len() > 0 ==> !text::is_space(t[0]),
    ensures
        relative_paths::space_length(a + t) == a.len(),
    decreases a.len(),
{
    if a.len() == 0 {
        assert(a + t =~= t);
    } else {
        let rest = a.skip(1);
        assert forall|i: int| 0 <= i < rest.len() implies text::is_space(#[trigger] rest[i]) by {
            assert(rest[i] == a[i + 1]);
        }
        spaces_counted(rest, t);
        assert((a + t).skip(1) =~= rest + t);
        assert((a + t)[0] == a[0]);
    }
}

proof fn climbs_counted(n: nat, rest: Seq<char>)
    requires
        !text::occurs_at(rest, "../"@, 0),
    ensures
        relative_paths::climbs(up(n) + rest) == n,
        up(n).len() == 3 * n,
    decreases n,
{
    reveal_strlit("../");
    assert("../"@.len() == 3);
    if n == 0 {
        assert(up(n) + rest =~= rest);
    } else {
        let m = (n - 1) as nat;
        climbs_counted(m, rest);
        let s = up(n) + rest;
        assert(s.skip(3) =~= up(m) + rest);
        assert(s.subrange(0, 3) =~= "../"@);
        assert(text::occurs_at(s, "../"@, 0));
    }
}

proof fn name_found(name: Seq<char>, t: Seq<char>)
    requires
        pulls_in(name),
    ensures
        relative_paths::macro_length(name + t) == name.len(),
        name.len() >= 8,
{
    reveal_strlit("include!");
    reveal_strlit("include_str!");
    reveal_strlit("include_bytes!");
    assert("include!"@.len() == 8);
    assert("include_str!"@.len() == 12);
    assert("include_bytes!"@.len() == 14);
    let s = name + t;
    assert(s.subrange(0, name.len() as int) =~= name);
    assert(text::occurs_at(s, name, 0));
    assert(s[7] == name[7]);
    assert(s[8] == name[8] || name.len() == 8);
    if text::occurs_at(s, "include!"@, 0) {
        assert(s.subrange(0, 8)[7] == s[7]);
    }
    if text::occurs_at(s, "include_str!"@, 0) {
        assert(s.subrange(0, 12)[8] == s[8]);
        assert(s.subrange(0, 12)[7] == s[7]);
    }
}

proof fn bracket_and_quote(name: Seq<char>, a: Seq<char>, b: Seq<char>, t: Seq<char>)
    requires
        pulls_in(name),
        blank(a),
        blank(b),
    ensures
        ({
            let s = name + a + seq!['('] + b + seq!['"'] + t;
            let quote = name.len() + a.len() + b.len() + 2;
            &&& relative_paths::opening(s) == Some(quote)
            &&& s.skip(quote as int) == t
            &&& s.take(quote as int) == name + a + seq!['('] + b + seq!['"']
        }),
{
    let s = name + a + seq!['('] + b + seq!['"'] + t;
    let tail = seq!['"'] + t;
    let inner = seq!['('] + b + tail;
    assert(s =~= name + (a + inner));
    name_found(name, a + inner);
    assert(s.skip(name.len() as int) =~= a + inner);
    spaces_counted(a, inner);
    let bracket = name.len() + a.len();
    assert(s.skip((bracket + 1) as int) =~= b + tail);
    spaces_counted(b, tail);
    let quote = name.len() + a.len() + b.len() + 2;
    assert(s[bracket as int] == '(');
    assert(s[quote - 1] == '"');
    assert(s.skip(quote as int) =~= t);
    assert(s.take(quote as int) =~= name + a + seq!['('] + b + seq!['"']);
}

/// A call whose path climbs above the application's root climbs one step more; one whose path
/// stays inside is kept. Either way the rest of the text is adjusted by itself.
pub proof fn call_climbs_one_more_if_it_leaves(
    name: Seq<char>,
    a: Seq<char>,
    b: Seq<char>,
    n: nat,
    rest: Seq<char>,
    depth: nat,
)
    requires
        pulls_in(name),
        blank(a),
        blank(b),
        n > 0,
        !text::occurs_at(rest, "../"@, 0),
    ensures
        relative_paths::adjusted(
            name + a + seq!['('] + b + seq!['"'] + up(n) + rest,
            depth,
        ) == name + a + seq!['('] + b + seq!['"'] + up(
            if n > depth {
                n + 1
            } else {
                n
            },
        ) + relative_paths::adjusted(rest, depth),
{
    let before = name + a + seq!['('] + b + seq!['"'];
    let s = before + up(n) + rest;
    let t = up(n) + rest;
    assert(s =~= before + t);
    bracket_and_quote(name, a, b, t);
    climbs_counted(n, rest);
    reveal_strlit("../");
    assert("../"@.len() == 3);
    climbs_counted(n, Seq::empty());
    assert(up(n) + Seq::<char>::empty() =~= up(n));
    let quote = before.len();
    let end = quote + 3 * n;
    assert(relative_paths::site(s) == Some((quote, n)));
    assert(s.subrange(quote as int, end as int) =~= up(n));
    assert(s.skip(end as int) =~= rest);
    assert(s.take(quote as int) =~= before);
    let f = |prefix: Seq<char>, path: Seq<char>| relative_paths::rewritten(prefix, path, depth);
    assert(relative_paths::replaced_sites(s, f) == f(before, up(n))
        + relative_paths::replaced_sites(rest, f));
    assert(up(n + 1) == "../"@ + up(n));
    if n > depth {
        assert(before + "../"@ + up(n) =~= before + up(n + 1));
    }
}

/// Text that does not begin with one of the macros keeps its first character.
pub proof fn other_text_stays(s: Seq<char>, depth: nat)
    requires
        s.len() > 0,
        !text::occurs_at(s, "include!"@, 0),
        !text::occurs_at(s, "include_str!"@, 0),
        !text::occurs_at(s, "include_bytes!"@, 0),
    ensures
        keeps_first(s, depth),
{
}

/// Nothing is made of nothing.
pub proof fn no_text_stays(depth: nat)
    ensures
        relative_paths::adjusted(Seq::empty(), depth).len() == 0,
{
}

/// So does a macro whose name is not followed by a bracket and a quote.
pub proof fn call_of_something_else_stays(
    name: Seq<char>,
    a: Seq<char>,
    b: Seq<char>,
    t: Seq<char>,
    depth: nat,
)
    requires
        pulls_in(name),
        blank(a),
        blank(b),
        t.len() > 0 ==> !text::is_space(t[0]),
    ensures
        t.len() == 0 || t[0] != '(' ==> keeps_first(name + a + t, depth),
        t.len() == 0 || t[0] != '"' ==> keeps_first(name + a + seq!['('] + b + t, depth),
{
    let s = name + a + t;
    assert(s =~= name + (a + t));
    name_found(name, a + t);
    assert(s.skip(name.len() as int) =~= a + t);
    spaces_counted(a, t);
    let bracket = name.len() + a.len();
    if t.len() > 0 {
        assert(s[bracket as int] == t[0]);
    }
    if t.len() == 0 || t[0] != '(' {
        assert(relative_paths::opening(s) is None);
        assert(relative_paths::site(s) is None);
    }
    let open = name + a + seq!['('] + b + t;
    let inner = seq!['('] + (b + t);
    assert(open =~= name + (a + inner));
    name_found(name, a + inner);
    assert(open.skip(name.len() as int) =~= a + inner);
    spaces_counted(a, inner);
    assert(open.skip((bracket + 1) as int) =~= b + t);
    spaces_counted(b, t);
    let quote = bracket + 1 + b.len();
    if t.len() > 0 {
        assert(open[quote as int] == t[0]);
    }
    if t.len() == 0 || t[0] != '"' {
        assert(relative_paths::opening(open) is None);
        assert(relative_paths::site(open) is None);
    }
}

/// And so does a call whose path does not begin with a step up.
pub proof fn call_inside_stays(
    name: Seq<char>,
    a: Seq<char>,
    b: Seq<char>,
    rest: Seq<char>,
    depth: nat,
)
    requires
        pulls_in(name),
        blank(a),
        blank(b),
        !text::occurs_at(rest, "../"@, 0),
    ensures
        keeps_first(name + a + seq!['('] + b + seq!['"'] + rest, depth),
{
    bracket_and_quote(name, a, b, rest);
    let s = name + a + seq!['('] + b + seq!['"'] + rest;
    assert(relative_paths::climbs(rest) == 0);
    assert(relative_paths::site(s) is None);
}

} // verus!
