//! Relative paths in Rust sources that lead out of the application's directory.
//!
//! An application moves from `<source>/<app>/` to `<target>/apps/<app>/`, one level deeper.
//! A path in a macro that pulls in a file, if it climbs above the application's root,
//! needs one more `../`.
use vstd::prelude::*;

use crate::text;

verus! {

/// The length of the name and the `!` of `include!`, `include_bytes!` or `include_str!` at
/// the start of `s`; 0 if none stands there.
pub open spec fn macro_length(s: Seq<char>) -> nat {
    if text::occurs_at(s, "include!"@, 0) {
        8
    } else if text::occurs_at(s, "include_str!"@, 0) {
        12
    } else if text::occurs_at(s, "include_bytes!"@, 0) {
        14
    } else {
        0
    }
}

/// The number of white space characters at the start of `s`.
pub open spec fn space_length(s: Seq<char>) -> nat
    decreases s.len(),
{
    if s.len() > 0 && text::is_space(s[0]) {
        1 + space_length(s.skip(1))
    } else {
        0
    }
}

/// The position just behind the opening quote of one of the macros at the start of `s`,
/// white space allowed before and behind the bracket; `None` if `s` does not start so.
pub open spec fn opening(s: Seq<char>) -> Option<nat> {
    let name = macro_length(s);
    let bracket = name + space_length(s.skip(name as int));
    let quote = bracket + 1 + space_length(s.skip((bracket + 1) as int));
    if name > 0 && bracket < s.len() && s[bracket as int] == '(' && quote < s.len()
        && s[quote as int] == '"' {
        Some(quote + 1)
    } else {
        None
    }
}

/// The number of `../` at the start of `s`.
pub open spec fn climbs(s: Seq<char>) -> nat
    decreases s.len(),
{
    if s.len() >= 3 && text::occurs_at(s, "../"@, 0) {
        1 + climbs(s.skip(3))
    } else {
        0
    }
}

/// The two parts of a macro call at the start of `s` whose path starts with `../`: the
/// length up to and with the quote, and the number of `../` behind it.
pub open spec fn site(s: Seq<char>) -> Option<(nat, nat)> {
    match opening(s) {
        Some(quote) => {
            let n = climbs(s.skip(quote as int));
            if n > 0 {
                Some((quote, n))
            } else {
                None
            }
        },
        None => None,
    }
}

proof fn climbs_fit(s: Seq<char>)
    ensures
        3 * climbs(s) <= s.len(),
        climbs(s.take(3 * climbs(s) as int)) == climbs(s),
    decreases s.len(),
{
    reveal_strlit("../");
    if s.len() >= 3 && text::occurs_at(s, "../"@, 0) {
        let rest = s.skip(3);
        climbs_fit(rest);
        let n = climbs(rest);
        let run = s.take(3 * (n + 1) as int);
        assert(run.skip(3) =~= rest.take(3 * n as int));
        assert(run.subrange(0, 3) =~= s.subrange(0, 3));
    } else {
        assert(s.take(0).len() == 0);
    }
}

/// The parts of a call lie inside `s`, and the second is the run of `../` that was counted.
pub proof fn site_fits(s: Seq<char>)
    ensures
        match site(s) {
            Some((quote, n)) => {
                &&& 0 < quote
                &&& quote + 3 * n <= s.len()
                &&& climbs(s.subrange(quote as int, (quote + 3 * n) as int)) == n
                &&& text::occurs_at(s, "include"@, 0)
                &&& text::occurs_at(s, "../"@, quote as int)
            },
            None => true,
        },
{
    if let Some((quote, n)) = site(s) {
        let tail = s.skip(quote as int);
        climbs_fit(tail);
        assert(tail.take(3 * n as int) =~= s.subrange(quote as int, (quote + 3 * n) as int));
        reveal_strlit("../");
        assert(tail.subrange(0, 3) =~= s.subrange(quote as int, (quote + 3) as int));
        reveal_strlit("include");
        reveal_strlit("include!");
        reveal_strlit("include_str!");
        reveal_strlit("include_bytes!");
        let head = s.subrange(0, macro_length(s) as int);
        assert forall|i: int| 0 <= i < 7 implies s[i] == "include"@[i] by {
            assert(head[i] == s[i]);
        }
        assert(s.subrange(0, 7) =~= "include"@);
    }
}

/// `s` with every such call, taken from the left and without overlap, replaced by what `f`
/// makes of its two parts.
pub open spec fn replaced_sites(
    s: Seq<char>,
    f: spec_fn(Seq<char>, Seq<char>) -> Seq<char>,
) -> Seq<char>
    decreases s.len(),
{
    if s.len() == 0 {
        s
    } else {
        proof {
            site_fits(s);
        }
        match site(s) {
            Some((quote, n)) => {
                let end = quote + 3 * n;
                f(s.take(quote as int), s.subrange(quote as int, end as int)) + replaced_sites(
                    s.skip(end as int),
                    f,
                )
            },
            None => seq![s[0]] + replaced_sites(s.skip(1), f),
        }
    }
}

/// A macro call with one more `../` if its path climbs above the application's root, which
/// is `depth` levels up.
pub open spec fn rewritten(prefix: Seq<char>, path: Seq<char>, depth: nat) -> Seq<char> {
    if climbs(path) > depth {
        prefix + "../"@ + path
    } else {
        prefix + path
    }
}

/// A source at that depth with the paths that lead out of the application adjusted.
pub open spec fn adjusted(s: Seq<char>, depth: nat) -> Seq<char> {
    replaced_sites(s, |prefix: Seq<char>, path: Seq<char>| rewritten(prefix, path, depth))
}

/// The pattern of a macro call whose path starts with `../`.
pub open spec fn site_pattern() -> Seq<char> {
    r#"(include(?:_bytes|_str)?!\s*\(\s*")((\.\./)+(.*?))"#@
}

/// The number of `../` at the start of `path`.
fn count_climbs(path: &str) -> (r: usize)
    ensures
        r as nat == climbs(path@),
{
    let cs = text::chars(path);
    let mut n: usize = 0;
    let mut i: usize = 0;
    proof {
        reveal_strlit("../");
        assert(path@.skip(0) =~= path@);
    }
    while cs.len() - i >= 3 && cs[i] == '.' && cs[i + 1] == '.' && cs[i + 2] == '/'
        invariant
            cs@ == path@,
            i <= cs.len(),
            n <= i,
            climbs(path@) == n + climbs(path@.skip(i as int)),
        decreases cs.len() - i,
    {
        proof {
            let rest = path@.skip(i as int);
            reveal_strlit("../");
            assert(rest.subrange(0, 3) =~= "../"@);
            assert(rest.skip(3) =~= path@.skip(i + 3));
        }
        n += 1;
        i += 3;
    }
    proof {
        let rest = path@.skip(i as int);
        if rest.len() >= 3 && text::occurs_at(rest, "../"@, 0) {
            assert(rest.subrange(0, 3)[0] == '.');
            assert(rest.subrange(0, 3)[1] == '.');
            assert(rest.subrange(0, 3)[2] == '/');
        }
    }
    n
}

/// Adds one more `../` to a macro call whose path climbs above the application's root.
pub fn rewrite_path(prefix: &str, path: &str, depth: usize) -> (r: String)
    ensures
        r@ == rewritten(prefix@, path@, depth as nat),
{
    let head = prefix.to_owned();
    if count_climbs(path) > depth {
        head.concat("../").concat(path)
    } else {
        head.concat(path)
    }
}

/// `Regex::new` and `Regex::replace_all`: replaces every match of `pattern` in `content`,
/// from the left and without overlap, by what `rewrite_path` makes of the first two groups.
/// The pattern's last group is lazy and ends the pattern, so it matches nothing, and the
/// second group is the run of `../`; `\s` is Unicode's white space.
#[verifier::external_body]
fn replace_matches(pattern: &str, content: &str, depth: usize) -> (r: String)
    requires
        pattern@ == site_pattern(),
    ensures
        r@ == replaced_sites(
            content@,
            |prefix: Seq<char>, path: Seq<char>| rewritten(prefix, path, depth as nat),
        ),
{
    let re = regex::Regex::new(pattern).unwrap();
    re.replace_all(content, |caps: &regex::Captures| rewrite_path(&caps[1], &caps[2], depth))
        .to_string()
}

/// Adjusts the relative paths in a Rust source that lead out of the application.
///
/// `depth` is the depth of the file below the application's root: that of
/// `src/app/window.rs` is 2.
pub fn adjust_relative_paths(content: &str, depth: usize) -> (r: String)
    ensures
        r@ == adjusted(content@, depth as nat),
{
    replace_matches(r#"(include(?:_bytes|_str)?!\s*\(\s*")((\.\./)+(.*?))"#, content, depth)
}

/// The number of macro calls in `s` whose path climbs more than `depth` levels.
pub open spec fn escapes(s: Seq<char>, depth: nat) -> nat
    decreases s.len(),
{
    if s.len() == 0 {
        0
    } else {
        proof {
            site_fits(s);
        }
        match site(s) {
            Some((quote, n)) => (if n > depth {
                1nat
            } else {
                0nat
            }) + escapes(s.skip((quote + 3 * n) as int), depth),
            None => escapes(s.skip(1), depth),
        }
    }
}

/// One level is added for each path that leads out of the application, and nothing else is
/// changed in length.
pub proof fn adjusted_length(s: Seq<char>, depth: nat)
    ensures
        adjusted(s, depth).len() == s.len() + 3 * escapes(s, depth),
    decreases s.len(),
{
    reveal_strlit("../");
    if s.len() > 0 {
        site_fits(s);
        match site(s) {
            Some((quote, n)) => adjusted_length(s.skip((quote + 3 * n) as int), depth),
            None => adjusted_length(s.skip(1), depth),
        }
    }
}

/// A source without a path that leads out of the application is left as it is.
pub proof fn adjusted_within(s: Seq<char>, depth: nat)
    requires
        escapes(s, depth) == 0,
    ensures
        adjusted(s, depth) == s,
    decreases s.len(),
{
    if s.len() > 0 {
        site_fits(s);
        match site(s) {
            Some((quote, n)) => {
                let end = (quote + 3 * n) as int;
                adjusted_within(s.skip(end), depth);
                assert(s.take(quote as int) + s.subrange(quote as int, end) + s.skip(end) =~= s);
            },
            None => {
                adjusted_within(s.skip(1), depth);
                assert(seq![s[0]] + s.skip(1) =~= s);
            },
        }
    }
}

/// A source is changed exactly where it has a path that leads out of the application.
pub proof fn adjusted_changes(s: Seq<char>, depth: nat)
    ensures
        adjusted(s, depth) == s <==> escapes(s, depth) == 0,
{
    adjusted_length(s, depth);
    if escapes(s, depth) == 0 {
        adjusted_within(s, depth);
    }
}

/// A source that does not hold both the macros' common name and a `../` has no path to
/// adjust, at any depth.
pub proof fn nothing_to_adjust(s: Seq<char>, depth: nat)
    requires
        !text::has(s, "include"@) || !text::has(s, "../"@),
    ensures
        escapes(s, depth) == 0,
    decreases s.len(),
{
    if s.len() > 0 {
        site_fits(s);
        assert(site(s) is None);
        let rest = s.skip(1);
        if text::has(rest, "include"@) && text::has(rest, "../"@) {
            text::has_in_rest(s, "include"@, 1);
            text::has_in_rest(s, "../"@, 1);
        }
        nothing_to_adjust(rest, depth);
    }
}

/// What a source file is to be replaced by, or `None` if it stays as it is.
pub fn adjust_source(content: &str, depth: usize) -> (r: Option<String>)
    ensures
        match r {
            Some(out) => out@ == adjusted(content@, depth as nat) && out@ != content@,
            None => adjusted(content@, depth as nat) == content@,
        },
{
    if !text::has_text(content, "include") || !text::has_text(content, "../") {
        proof {
            nothing_to_adjust(content@, depth as nat);
            adjusted_within(content@, depth as nat);
        }
        return None;
    }
    let out = adjust_relative_paths(content, depth);
    if text::same_text(out.as_str(), content) {
        None
    } else {
        Some(out)
    }
}

} // verus!
