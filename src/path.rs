//! Paths as plain strings: separators, base names, stems and the PDF
//! destination of an input document.

use vstd::prelude::*;
use crate::platform::Platform;

verus! {

/// Index of the last character of `s` equal to `a` or `b`, or -1.
pub open spec fn last_of(s: Seq<char>, a: char, b: char) -> int
    decreases s.len(),
{
    if s.len() == 0 {
        -1
    } else if s.last() == a || s.last() == b {
        s.len() - 1
    } else {
        last_of(s.drop_last(), a, b)
    }
}

/// The index `last_of` gives lies in the sequence, or is -1.
pub proof fn lemma_last_of_bounds(s: Seq<char>, a: char, b: char)
    ensures
        -1 <= last_of(s, a, b) < s.len(),
        last_of(s, a, b) >= 0 ==> (s[last_of(s, a, b)] == a || s[last_of(s, a, b)] == b),
    decreases s.len(),
{
    if s.len() > 0 {
        lemma_last_of_bounds(s.drop_last(), a, b);
    }
}

/// The character that separates path components besides `/`: `\` on
/// Windows, none elsewhere (written as `/` again).
pub open spec fn alt_sep(p: Platform) -> char {
    if p == Platform::Windows {
        '\\'
    } else {
        '/'
    }
}

/// `c` separates path components on `p`.
pub open spec fn is_sep(p: Platform, c: char) -> bool {
    c == '/' || c == alt_sep(p)
}

/// Index of the last path separator of `s`, or -1.
pub open spec fn last_sep(p: Platform, s: Seq<char>) -> int {
    last_of(s, '/', alt_sep(p))
}

/// `s` without its trailing separators.
pub open spec fn trim_seps(p: Platform, s: Seq<char>) -> Seq<char>
    decreases s.len(),
{
    if s.len() > 0 && is_sep(p, s.last()) {
        trim_seps(p, s.drop_last())
    } else {
        s
    }
}

/// The final component of a path: what follows its last separator, once
/// trailing separators are dropped.
pub open spec fn base_name(p: Platform, s: Seq<char>) -> Seq<char> {
    let t = trim_seps(p, s);
    t.subrange(last_sep(p, t) + 1, t.len() as int)
}

/// The directory part of a path, trailing separators dropped: what precedes
/// its final component, the root itself when that is all that precedes it,
/// or `.` when the path has a single component.
pub open spec fn parent_dir(p: Platform, s: Seq<char>) -> Seq<char> {
    let t = trim_seps(p, s);
    if last_sep(p, t) < 0 {
        "."@
    } else {
        let h = trim_seps(p, t.subrange(0, last_sep(p, t)));
        if h.len() == 0 {
            t.subrange(0, 1)
        } else {
            h
        }
    }
}

/// A file name without its extension. A name whose only dot leads it keeps
/// that dot; an empty name, `.` and `..` have no stem and give `output`.
pub open spec fn stem(name: Seq<char>) -> Seq<char> {
    if name.len() == 0 || name == "."@ || name == ".."@ {
        "output"@
    } else if last_of(name, '.', '.') > 0 {
        name.subrange(0, last_of(name, '.', '.'))
    } else {
        name
    }
}

/// Where the PDF made from `input` goes: `<dir>/<stem>.pdf`, with `dir` the
/// given output directory or else the input's own directory.
pub open spec fn output_path_spec(
    p: Platform,
    input: Seq<char>,
    output_dir: Option<Seq<char>>,
) -> Seq<char> {
    let dir = match output_dir {
        Some(d) => d,
        None => parent_dir(p, input),
    };
    dir + "/"@ + stem(base_name(p, input)) + ".pdf"@
}

/// The view of an optional string slice.
pub open spec fn opt_str_view(o: Option<&str>) -> Option<Seq<char>> {
    match o {
        Some(d) => Some(d@),
        None => None,
    }
}

/// The view of an optional string.
pub open spec fn opt_view(o: Option<String>) -> Option<Seq<char>> {
    match o {
        Some(s) => Some(s@),
        None => None,
    }
}

/// The views of a list of strings.
pub open spec fn views(v: Seq<String>) -> Seq<Seq<char>> {
    v.map_values(|s: String| s@)
}

/// `base` extended by `name` with the separator `sep` between them; no
/// separator is added when `base` is empty or already ends in `/` or `sep`.
pub open spec fn join_spec(base: Seq<char>, sep: Seq<char>, name: Seq<char>) -> Seq<char> {
    if base.len() == 0 {
        name
    } else if base.last() == '/' || (sep.len() > 0 && base.last() == sep.last()) {
        base + name
    } else {
        base + sep + name
    }
}

/// Finds the last character of `s` equal to `a` or `b`.
pub fn rfind(s: &str, a: char, b: char) -> (r: Option<usize>)
    ensures
        match r {
            Some(i) => last_of(s@, a, b) == i as int,
            None => last_of(s@, a, b) == -1,
        },
        r is Some ==> r.unwrap() < s@.len(),
{
    proof {
        lemma_last_of_bounds(s@, a, b);
    }
    let n = s.unicode_len();
    let mut i: usize = n;
    assert(s@.subrange(0, n as int) =~= s@);
    while i > 0
        invariant
            i <= n,
            n == s@.len(),
            last_of(s@, a, b) == last_of(s@.subrange(0, i as int), a, b),
        decreases i,
    {
        let c = s.get_char(i - 1);
        let ghost pre = s@.subrange(0, i as int);
        if c == a || c == b {
            return Some(i - 1);
        }
        assert(pre.drop_last() =~= s@.subrange(0, i - 1));
        i = i - 1;
    }
    assert(s@.subrange(0, 0).len() == 0);
    None
}

/// The separator besides `/` on `p`.
pub fn alt_sep_char(p: Platform) -> (r: char)
    ensures
        r == alt_sep(p),
{
    if p == Platform::Windows {
        '\\'
    } else {
        '/'
    }
}

/// The length of `s` without its trailing separators.
pub fn trimmed_len(p: Platform, s: &str) -> (r: usize)
    ensures
        r <= s@.len(),
        trim_seps(p, s@) == s@.subrange(0, r as int),
{
    let n = s.unicode_len();
    let a = alt_sep_char(p);
    let mut i: usize = n;
    assert(s@.subrange(0, n as int) =~= s@);
    while i > 0 && (s.get_char(i - 1) == '/' || s.get_char(i - 1) == a)
        invariant
            i <= n,
            n == s@.len(),
            a == alt_sep(p),
            trim_seps(p, s@) == trim_seps(p, s@.subrange(0, i as int)),
        decreases i,
    {
        assert(s@.subrange(0, i as int).drop_last() =~= s@.subrange(0, i - 1));
        i = i - 1;
    }
    proof {
        let t = s@.subrange(0, i as int);
        if i > 0 {
            assert(t.last() == s@[i - 1]);
        }
    }
    i
}

/// The final component of `path`.
pub fn base_name_of(p: Platform, path: &str) -> (r: String)
    ensures
        r@ == base_name(p, path@),
{
    let k = trimmed_len(p, path);
    let t = path.substring_char(0, k);
    let start: usize = match rfind(t, '/', alt_sep_char(p)) {
        Some(i) => i + 1,
        None => 0,
    };
    String::from_str(t.substring_char(start, k))
}

/// The directory part of `path`, or `.` when it has a single component.
pub fn parent_dir_of(p: Platform, path: &str) -> (r: String)
    ensures
        r@ == parent_dir(p, path@),
{
    let k = trimmed_len(p, path);
    let t = path.substring_char(0, k);
    match rfind(t, '/', alt_sep_char(p)) {
        Some(i) => {
            let h = t.substring_char(0, i);
            let m = trimmed_len(p, h);
            if m == 0 {
                String::from_str(t.substring_char(0, 1))
            } else {
                String::from_str(h.substring_char(0, m))
            }
        },
        None => String::from_str("."),
    }
}

/// The file name `name` without its extension.
pub fn stem_of(name: &str) -> (r: String)
    ensures
        r@ == stem(name@),
{
    let n = name.unicode_len();
    if n == 0 || (n == 1 && name.get_char(0) == '.') || (n == 2 && name.get_char(0) == '.'
        && name.get_char(1) == '.') {
        proof {
            reveal_strlit(".");
            reveal_strlit("..");
        }
        assert(name@.len() == 0 || name@ =~= "."@ || name@ =~= ".."@);
        return String::from_str("output");
    }
    proof {
        reveal_strlit(".");
        reveal_strlit("..");
    }
    assert(name@ != "."@ && name@ != ".."@) by {
        if name@ == "."@ {
            assert(name@[0] == '.');
        }
        if name@ == ".."@ {
            assert(name@[0] == '.' && name@[1] == '.');
        }
    }
    match rfind(name, '.', '.') {
        Some(i) => {
            if i > 0 {
                String::from_str(name.substring_char(0, i))
            } else {
                String::from_str(name.substring_char(0, n))
            }
        },
        None => String::from_str(name.substring_char(0, n)),
    }
}

/// The destination of the PDF made from `input`: `<output_dir>/<stem>.pdf`
/// when an output directory is given, else next to the input.
pub fn output_path(p: Platform, input: &str, output_dir: Option<&str>) -> (r: String)
    ensures
        r@ == output_path_spec(p, input@, opt_str_view(output_dir)),
{
    let dir = match output_dir {
        Some(d) => String::from_str(d),
        None => parent_dir_of(p, input),
    };
    let base = base_name_of(p, input);
    let st = stem_of(base.as_str());
    let r = dir.concat("/");
    let r = r.concat(st.as_str());
    r.concat(".pdf")
}

/// Joins `name` onto `base` with the separator `sep`.
pub fn join(base: &str, sep: &str, name: &str) -> (r: String)
    ensures
        r@ == join_spec(base@, sep@, name@),
{
    let n = base.unicode_len();
    if n == 0 {
        return String::from_str(name);
    }
    let last = base.get_char(n - 1);
    let m = sep.unicode_len();
    if last == '/' || (m > 0 && last == sep.get_char(m - 1)) {
        String::from_str(base).concat(name)
    } else {
        String::from_str(base).concat(sep).concat(name)
    }
}

} // verus!
