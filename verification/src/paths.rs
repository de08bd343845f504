//! The library's model of file paths.
//!
//! Paths are held as text. A path is a run of segments separated by
//! separators: `/` everywhere, and also `\` on platforms whose main
//! separator is `\`. Trailing separators are ignored, and so is a trailing
//! `.` segment that follows a separator (`a/b/.` is `a/b`). The file name is
//! the last segment unless that segment is `.` or `..`; the parent is what
//! precedes that segment; stem and extension split the file name at its last dot, a
//! single leading dot counting as part of the stem.

use vstd::prelude::*;
use crate::text::string_from_range;
use crate::text::chars_of;

verus! {

/// Whether `c` separates path segments.
pub open spec fn is_sep(c: char, windows: bool) -> bool {
    c == '/' || (windows && c == '\\')
}

/// Length of `p[..n]` once its trailing separators are dropped.
pub open spec fn trim_end(p: Seq<char>, w: bool, n: int) -> int
    decreases n,
{
    if n <= 0 {
        0
    } else if is_sep(p[n - 1], w) {
        trim_end(p, w, n - 1)
    } else {
        n
    }
}

/// Start of the last segment of `p[..n]` (just after the last separator).
pub open spec fn seg_start(p: Seq<char>, w: bool, n: int) -> int
    decreases n,
{
    if n <= 0 {
        0
    } else if is_sep(p[n - 1], w) {
        n
    } else {
        seg_start(p, w, n - 1)
    }
}

/// End of `p[..n]` once trailing separators, and trailing `.` segments that
/// follow a separator, are dropped.
pub open spec fn eff_end(p: Seq<char>, w: bool, n: int) -> int
    decreases n,
{
    let t = trim_end(p, w, n);
    let s = seg_start(p, w, t);
    if 0 < s && s + 1 == t && t <= n && p[s] == '.' {
        eff_end(p, w, s)
    } else {
        t
    }
}

pub open spec fn dot() -> Seq<char> {
    seq!['.']
}

pub open spec fn dot_dot() -> Seq<char> {
    seq!['.', '.']
}

/// The final segment of `p` with trailing separators ignored.
pub open spec fn last_segment(p: Seq<char>, w: bool) -> Seq<char> {
    let t = eff_end(p, w, p.len() as int);
    p.subrange(seg_start(p, w, t), t)
}

/// The file name of `p`: its last segment, unless that is empty, `.` or `..`.
pub open spec fn spec_file_name(p: Seq<char>, w: bool) -> Option<Seq<char>> {
    let seg = last_segment(p, w);
    if seg.len() == 0 || seg == dot() || seg == dot_dot() {
        None
    } else {
        Some(seg)
    }
}

/// The parent of `p`: `None` for an empty path or a bare root; the root for a
/// path of one segment below the root; the empty path for a path of one
/// relative segment; otherwise the text before the last segment, without its
/// trailing separators.
pub open spec fn spec_parent(p: Seq<char>, w: bool) -> Option<Seq<char>> {
    let t = eff_end(p, w, p.len() as int);
    if t == 0 {
        None
    } else {
        let s = seg_start(p, w, t);
        let h = trim_end(p, w, s);
        if h == 0 {
            if s > 0 {
                Some(p.subrange(0, 1))
            } else {
                Some(Seq::<char>::empty())
            }
        } else {
            Some(p.subrange(0, h))
        }
    }
}

/// Index of the last `.` in `name[..n]`, or -1.
pub open spec fn last_dot(name: Seq<char>, n: int) -> int
    decreases n,
{
    if n <= 0 {
        -1
    } else if name[n - 1] == '.' {
        n - 1
    } else {
        last_dot(name, n - 1)
    }
}

/// The stem of a file name: the text before its last dot, or the whole name
/// when it has no dot or only a leading one.
pub open spec fn stem_of_name(name: Seq<char>) -> Seq<char> {
    let d = last_dot(name, name.len() as int);
    if d <= 0 {
        name
    } else {
        name.subrange(0, d)
    }
}

/// The extension of a file name: the text after its last dot, if that dot is
/// not the first char.
pub open spec fn extension_of_name(name: Seq<char>) -> Option<Seq<char>> {
    let d = last_dot(name, name.len() as int);
    if d <= 0 {
        None
    } else {
        Some(name.subrange(d + 1, name.len() as int))
    }
}

pub open spec fn spec_file_stem(p: Seq<char>, w: bool) -> Option<Seq<char>> {
    match spec_file_name(p, w) {
        Some(n) => Some(stem_of_name(n)),
        None => None,
    }
}

pub open spec fn spec_extension(p: Seq<char>, w: bool) -> Option<Seq<char>> {
    match spec_file_name(p, w) {
        Some(n) => extension_of_name(n),
        None => None,
    }
}

/// Reads `std::path::MAIN_SEPARATOR`, the separator of the platform the
/// program was built for. Nothing is stated of it: it is a fact of the
/// machine, not of any argument.
#[verifier::external_body]
fn main_separator() -> (c: char) {
    std::path::MAIN_SEPARATOR
}

/// Whether this platform separates path segments with `\` as well as `/`.
/// Nothing ties two calls together in the contracts: the functions that ask
/// it state their result for either convention, and their `_on` variants,
/// which take the convention as an argument, state it exactly (so "the same
/// path gives the same result" is stated there).
pub fn platform_uses_backslash() -> bool {
    main_separator() == '\\'
}

pub fn is_sep_exec(c: char, w: bool) -> (r: bool)
    ensures
        r == is_sep(c, w),
{
    c == '/' || (w && c == '\\')
}

pub fn trim_end_exec(p: &[char], w: bool, n: usize) -> (r: usize)
    requires
        n <= p@.len(),
    ensures
        r == trim_end(p@, w, n as int),
        r <= n,
{
    let mut k = n;
    while k > 0 && is_sep_exec(p[k - 1], w)
        invariant
            k <= n <= p@.len(),
            trim_end(p@, w, n as int) == trim_end(p@, w, k as int),
        decreases k,
    {
        k = k - 1;
    }
    k
}

pub fn seg_start_exec(p: &[char], w: bool, n: usize) -> (r: usize)
    requires
        n <= p@.len(),
    ensures
        r == seg_start(p@, w, n as int),
        r <= n,
{
    let mut k = n;
    while k > 0 && !is_sep_exec(p[k - 1], w)
        invariant
            k <= n <= p@.len(),
            seg_start(p@, w, n as int) == seg_start(p@, w, k as int),
        decreases k,
    {
        k = k - 1;
    }
    k
}

pub fn last_dot_exec(name: &[char], n: usize) -> (r: Option<usize>)
    requires
        n <= name@.len(),
    ensures
        match r {
            Some(d) => d == last_dot(name@, n as int) && d < n,
            None => last_dot(name@, n as int) == -1,
        },
{
    let mut k = n;
    while k > 0 && name[k - 1] != '.'
        invariant
            k <= n <= name@.len(),
            last_dot(name@, n as int) == last_dot(name@, k as int),
        decreases k,
    {
        k = k - 1;
    }
    if k == 0 {
        None
    } else {
        Some(k - 1)
    }
}

pub fn eff_end_exec(p: &[char], w: bool, n: usize) -> (r: usize)
    requires
        n <= p@.len(),
    ensures
        r == eff_end(p@, w, n as int),
        r <= n,
{
    let mut k = n;
    loop
        invariant
            k <= n <= p@.len(),
            eff_end(p@, w, n as int) == eff_end(p@, w, k as int),
        decreases k,
    {
        let t = trim_end_exec(p, w, k);
        let s = seg_start_exec(p, w, t);
        if 0 < s && s < t && t - s == 1 && p[s] == '.' {
            k = s;
        } else {
            return t;
        }
    }
}

/// The range `[start, end)` of the file name within `p`, if it has one.
pub fn file_name_range(p: &[char], w: bool) -> (r: Option<(usize, usize)>)
    ensures
        match r {
            Some((s, e)) => {
                &&& s <= e <= p@.len()
                &&& spec_file_name(p@, w) == Some(p@.subrange(s as int, e as int))
            },
            None => spec_file_name(p@, w) is None,
        },
{
    let t = eff_end_exec(p, w, p.len());
    let s = seg_start_exec(p, w, t);
    let len = t - s;
    let ghost seg = p@.subrange(s as int, t as int);
    if len == 0 {
        return None;
    }
    if len == 1 && p[s] == '.' {
        assert(seg =~= dot());
        return None;
    }
    if len == 2 && p[s] == '.' && p[s + 1] == '.' {
        assert(seg =~= dot_dot());
        return None;
    }
    assert(seg.len() == len);
    assert(seg != dot()) by {
        if seg == dot() {
            assert(dot().len() == 1 && dot()[0] == '.');
            assert(seg[0] == p@[s as int]);
        }
    }
    assert(seg != dot_dot()) by {
        if seg == dot_dot() {
            assert(dot_dot().len() == 2 && dot_dot()[0] == '.' && dot_dot()[1] == '.');
            assert(seg[0] == p@[s as int] && seg[1] == p@[s + 1]);
        }
    }
    Some((s, t))
}

/// The file name of `path` on a platform that does (`windows`) or does not
/// treat `\` as a separator.
pub fn file_name_on(path: &str, windows: bool) -> (r: Option<String>)
    ensures
        match r {
            Some(n) => spec_file_name(path@, windows) == Some(n@),
            None => spec_file_name(path@, windows) is None,
        },
{
    let p = chars_of(path);
    match file_name_range(p.as_slice(), windows) {
        Some((s, e)) => Some(string_from_range(p.as_slice(), s, e)),
        None => None,
    }
}

/// The parent of `path` (see `spec_parent`).
pub fn parent_on(path: &str, windows: bool) -> (r: Option<String>)
    ensures
        match r {
            Some(n) => spec_parent(path@, windows) == Some(n@),
            None => spec_parent(path@, windows) is None,
        },
{
    let pv = chars_of(path);
    let p = pv.as_slice();
    let t = eff_end_exec(p, windows, p.len());
    if t == 0 {
        return None;
    }
    let s = seg_start_exec(p, windows, t);
    let h = trim_end_exec(p, windows, s);
    if h == 0 {
        if s > 0 {
            Some(string_from_range(p, 0, 1))
        } else {
            let e = String::new();
            assert(e@ =~= Seq::<char>::empty());
            Some(e)
        }
    } else {
        Some(string_from_range(p, 0, h))
    }
}

/// Where the stem of the file name `name` ends, and where its extension
/// starts if it has one.
pub fn split_name(name: &[char]) -> (r: (usize, Option<usize>))
    ensures
        r.0 <= name@.len(),
        stem_of_name(name@) == name@.subrange(0, r.0 as int),
        match r.1 {
            Some(x) => x <= name@.len() && extension_of_name(name@) == Some(
                name@.subrange(x as int, name@.len() as int),
            ),
            None => extension_of_name(name@) is None,
        },
{
    match last_dot_exec(name, name.len()) {
        Some(d) if d > 0 => (d, Some(d + 1)),
        _ => {
            assert(name@.subrange(0, name@.len() as int) =~= name@);
            (name.len(), None)
        },
    }
}

/// The stem of the file name of `path`.
pub fn file_stem_on(path: &str, windows: bool) -> (r: Option<String>)
    ensures
        match r {
            Some(n) => spec_file_stem(path@, windows) == Some(n@),
            None => spec_file_stem(path@, windows) is None,
        },
{
    let pv = chars_of(path);
    let p = pv.as_slice();
    match file_name_range(p, windows) {
        None => None,
        Some((s, e)) => {
            let name = string_from_range(p, s, e);
            let nv = chars_of(name.as_str());
            let (stem_end, _) = split_name(nv.as_slice());
            Some(string_from_range(nv.as_slice(), 0, stem_end))
        },
    }
}

} // verus!
