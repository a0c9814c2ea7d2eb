//! Engine discovery helpers: reading what the search path and the registry
//! turn up, and recognising the engine's file by its name.

use vstd::prelude::*;
use crate::path::{base_name, base_name_of, join, join_spec};
use crate::platform::{binary_spec, separator_spec, Platform};

verus! {

/// Whitespace as Unicode defines it (the property `White_Space`).
pub open spec fn is_space(c: char) -> bool {
    ('\t' <= c && c <= '\r') || c == ' ' || c == '\u{85}' || c == '\u{a0}' || c == '\u{1680}'
        || ('\u{2000}' <= c && c <= '\u{200a}') || c == '\u{2028}' || c == '\u{2029}' || c
        == '\u{202f}' || c == '\u{205f}' || c == '\u{3000}'
}

fn is_space_char(c: char) -> (r: bool)
    ensures
        r == is_space(c),
{
    ('\t' <= c && c <= '\r') || c == ' ' || c == '\u{85}' || c == '\u{a0}' || c == '\u{1680}'
        || ('\u{2000}' <= c && c <= '\u{200a}') || c == '\u{2028}' || c == '\u{2029}' || c
        == '\u{202f}' || c == '\u{205f}' || c == '\u{3000}'
}

/// Everything before the first line feed.
pub open spec fn first_line(s: Seq<char>) -> Seq<char>
    decreases s.len(),
{
    if s.len() == 0 || s[0] == '\n' {
        Seq::empty()
    } else {
        seq![s[0]] + first_line(s.drop_first())
    }
}

/// `s` without leading whitespace.
pub open spec fn trim_start(s: Seq<char>) -> Seq<char>
    decreases s.len(),
{
    if s.len() > 0 && is_space(s[0]) {
        trim_start(s.drop_first())
    } else {
        s
    }
}

/// `s` without trailing whitespace.
pub open spec fn trim_end(s: Seq<char>) -> Seq<char>
    decreases s.len(),
{
    if s.len() > 0 && is_space(s.last()) {
        trim_end(s.drop_last())
    } else {
        s
    }
}

/// The candidate that the output of `which` or `where` names: its first
/// line without surrounding whitespace, unless that is empty.
pub open spec fn search_candidate(out: Seq<char>) -> Option<Seq<char>> {
    let c = trim_end(trim_start(first_line(out)));
    if c.len() == 0 {
        None
    } else {
        Some(c)
    }
}

proof fn lemma_first_line_prefix(s: Seq<char>, i: int)
    requires
        0 <= i <= s.len(),
        forall|j: int| 0 <= j < i ==> s[j] != '\n',
        i == s.len() || s[i] == '\n',
    ensures
        first_line(s) == s.subrange(0, i),
    decreases s.len(),
{
    if s.len() == 0 || s[0] == '\n' {
        assert(i == 0);
        assert(s.subrange(0, i) =~= Seq::<char>::empty());
    } else {
        let t = s.drop_first();
        assert forall|j: int| 0 <= j < i - 1 implies t[j] != '\n' by {
            assert(t[j] == s[j + 1]);
        }
        lemma_first_line_prefix(t, i - 1);
        assert(seq![s[0]] + t.subrange(0, i - 1) =~= s.subrange(0, i));
    }
}

/// The candidate path in the output of a search-path lookup.
pub fn parse_search_output(out: &str) -> (r: Option<String>)
    ensures
        match r {
            Some(p) => search_candidate(out@) == Some(p@),
            None => search_candidate(out@) is None,
        },
{
    let n = out.unicode_len();
    let mut end: usize = 0;
    while end < n && out.get_char(end) != '\n'
        invariant
            end <= n,
            n == out@.len(),
            forall|j: int| 0 <= j < end ==> out@[j] != '\n',
        decreases n - end,
    {
        end = end + 1;
    }
    proof {
        lemma_first_line_prefix(out@, end as int);
    }
    let line = out.substring_char(0, end);
    let mut a: usize = 0;
    assert(line@.subrange(0, end as int) =~= line@);
    while a < end && is_space_char(line.get_char(a))
        invariant
            a <= end,
            line@.len() == end,
            trim_start(line@) == trim_start(line@.subrange(a as int, end as int)),
        decreases end - a,
    {
        proof {
            let t = line@.subrange(a as int, end as int);
            assert(t.drop_first() =~= line@.subrange(a + 1, end as int));
        }
        a = a + 1;
    }
    let mut b: usize = end;
    let ghost ts = line@.subrange(a as int, end as int);
    assert(trim_start(line@) == ts) by {
        if a < end {
            assert(ts[0] == line@[a as int]);
        } else {
            assert(ts.len() == 0);
        }
    }
    assert(ts =~= line@.subrange(a as int, b as int));
    while b > a && is_space_char(line.get_char(b - 1))
        invariant
            a <= b <= end,
            line@.len() == end,
            trim_end(ts) == trim_end(line@.subrange(a as int, b as int)),
        decreases b - a,
    {
        proof {
            let t = line@.subrange(a as int, b as int);
            assert(t.drop_last() =~= line@.subrange(a as int, b - 1));
        }
        b = b - 1;
    }
    let ghost tb = line@.subrange(a as int, b as int);
    assert(trim_end(tb) == tb) by {
        if b > a {
            assert(tb.last() == line@[b - 1]);
        }
    }
    if b == a {
        None
    } else {
        Some(String::from_str(line.substring_char(a, b)))
    }
}

/// `a` and `b` are the same letter up to ASCII case.
pub open spec fn same_ignoring_ascii_case(a: char, b: char) -> bool {
    a == b || ('A' <= a && a <= 'Z' && b as u32 == a as u32 + 32) || ('A' <= b && b <= 'Z'
        && a as u32 == b as u32 + 32)
}

/// `x` and `y` spell the same name up to ASCII case.
pub open spec fn name_matches(x: Seq<char>, y: Seq<char>) -> bool {
    x.len() == y.len() && forall|i: int| 0 <= i < x.len() ==> same_ignoring_ascii_case(x[i], y[i])
}

/// Whether `x` and `y` spell the same name up to ASCII case.
pub fn names_match(x: &str, y: &str) -> (r: bool)
    ensures
        r == name_matches(x@, y@),
{
    let n = x.unicode_len();
    if n != y.unicode_len() {
        return false;
    }
    let mut i: usize = 0;
    while i < n
        invariant
            i <= n,
            n == x@.len(),
            n == y@.len(),
            forall|j: int| 0 <= j < i ==> same_ignoring_ascii_case(x@[j], y@[j]),
        decreases n - i,
    {
        let a = x.get_char(i);
        let b = y.get_char(i);
        let same = a == b || ('A' <= a && a <= 'Z' && b as u32 == a as u32 + 32) || ('A' <= b
            && b <= 'Z' && a as u32 == b as u32 + 32);
        if !same {
            return false;
        }
        i = i + 1;
    }
    true
}

/// A file at `path` is the engine: its name is the engine's, up to ASCII
/// case.
pub open spec fn is_engine_file(p: Platform, path: Seq<char>) -> bool {
    name_matches(base_name(p, path), binary_spec(p))
}

/// Whether a file at `path` is the engine.
pub fn is_engine_path(p: Platform, path: &str) -> (r: bool)
    ensures
        r == is_engine_file(p, path@),
{
    let name = base_name_of(p, path);
    names_match(name.as_str(), p.binary_name())
}

/// The engine inside an installation recorded in the registry:
/// `<dir>/program/<binary>`.
pub open spec fn registry_candidate_spec(p: Platform, dir: Seq<char>) -> Seq<char> {
    join_spec(join_spec(dir, separator_spec(p), "program"@), separator_spec(p), binary_spec(p))
}

/// The engine inside the installation directory `dir`.
pub fn registry_candidate(p: Platform, dir: &str) -> (r: String)
    ensures
        r@ == registry_candidate_spec(p, dir@),
{
    let prog = join(dir, p.separator(), "program");
    join(prog.as_str(), p.separator(), p.binary_name())
}

} // verus!
