//! Paths compared as `std::path::Path` compares them: component by
//! component, not char by char. A path splits into an optional root (a
//! leading separator) or a leading `.`, then its segments, where empty and
//! `.` segments are skipped and `..` is a component of its own. Two paths
//! are equal when their components are; they are ordered by their
//! components, the root before a leading `.`, that before `..`, that before
//! any name, and names by their text. (Windows drive and share prefixes are
//! not parsed, as nowhere in the library's path model.)
//!
//! For the screens, each path gets a key: a text whose char order and
//! equality are exactly those of the components (`lemma_path_key_order`).

use vstd::prelude::*;
use crate::paths::is_sep;
use crate::paths::is_sep_exec;
use crate::paths::dot;
use crate::paths::dot_dot;
use crate::text::chars_of;
use crate::text::push_char;
use crate::text::lex_lt;
use crate::text::lex_lt_from;

verus! {

/// A component of a path.
pub ghost enum PathPart {
    Root,
    Cur,
    Parent,
    Normal(Seq<char>),
}

/// Where the segment that starts at `i` ends: the next separator, or the end.
pub open spec fn seg_end(p: Seq<char>, w: bool, i: int) -> int
    decreases p.len() - i,
{
    if i >= p.len() {
        p.len() as int
    } else if is_sep(p[i], w) {
        i
    } else {
        seg_end(p, w, i + 1)
    }
}

/// The segment from `i` runs up to, not over, the next separator.
pub proof fn lemma_seg_end_bounds(p: Seq<char>, w: bool, i: int)
    requires
        0 <= i,
    ensures
        i <= seg_end(p, w, i) || p.len() < i,
        seg_end(p, w, i) <= p.len() || p.len() < i,
        forall|k: int| i <= k < seg_end(p, w, i) ==> !is_sep(#[trigger] p[k], w),
        seg_end(p, w, i) < p.len() ==> is_sep(p[seg_end(p, w, i)], w),
    decreases p.len() - i,
{
    if i < p.len() && !is_sep(p[i], w) {
        lemma_seg_end_bounds(p, w, i + 1);
    }
}

/// The component a segment gives, if any.
pub open spec fn seg_part(seg: Seq<char>) -> Seq<PathPart> {
    if seg.len() == 0 || seg == dot() {
        Seq::empty()
    } else if seg == dot_dot() {
        seq![PathPart::Parent]
    } else {
        seq![PathPart::Normal(seg)]
    }
}

/// The components of the segments from index `i` on.
pub open spec fn body_parts(p: Seq<char>, w: bool, i: int) -> Seq<PathPart>
    decreases p.len() + 1 - i,
{
    if i < 0 || i >= p.len() {
        Seq::empty()
    } else {
        let e = seg_end(p, w, i);
        proof {
            lemma_seg_end_bounds(p, w, i);
        }
        seg_part(p.subrange(i, e)) + body_parts(p, w, e + 1)
    }
}

/// The components of `p` (with `\` a separator too when `w`).
pub open spec fn path_parts(p: Seq<char>, w: bool) -> Seq<PathPart> {
    let head = if p.len() > 0 && is_sep(p[0], w) {
        seq![PathPart::Root]
    } else if p == dot() || (p.len() >= 2 && p[0] == '.' && is_sep(p[1], w)) {
        seq![PathPart::Cur]
    } else {
        Seq::<PathPart>::empty()
    };
    head + body_parts(p, w, 0)
}

pub open spec fn part_rank(x: PathPart) -> int {
    match x {
        PathPart::Root => 0,
        PathPart::Cur => 1,
        PathPart::Parent => 2,
        PathPart::Normal(_) => 3,
    }
}

pub open spec fn part_name(x: PathPart) -> Seq<char> {
    match x {
        PathPart::Normal(s) => s,
        _ => Seq::empty(),
    }
}

/// The order of components: by kind, names by their text.
pub open spec fn part_lt(x: PathPart, y: PathPart) -> bool {
    part_rank(x) < part_rank(y) || (part_rank(x) == part_rank(y) && lex_lt(part_name(x), part_name(y)))
}

/// The order of component lists: the first differing component decides; a
/// list comes before its extensions.
pub open spec fn parts_lt(a: Seq<PathPart>, b: Seq<PathPart>) -> bool
    decreases a.len(),
{
    if a.len() == 0 {
        b.len() > 0
    } else if b.len() == 0 {
        false
    } else if a[0] != b[0] {
        part_lt(a[0], b[0])
    } else {
        parts_lt(a.drop_first(), b.drop_first())
    }
}

/// `p` comes before `q` as paths.
pub open spec fn path_lt(p: Seq<char>, q: Seq<char>, w: bool) -> bool {
    parts_lt(path_parts(p, w), path_parts(q, w))
}

/// A name with each char preceded by `\u{1}`.
pub open spec fn enc_name(n: Seq<char>) -> Seq<char>
    decreases n.len(),
{
    if n.len() == 0 {
        Seq::empty()
    } else {
        enc_name(n.drop_last()) + seq!['\u{1}', n.last()]
    }
}

pub open spec fn rank_char(x: PathPart) -> char {
    match x {
        PathPart::Root => '\u{2}',
        PathPart::Cur => '\u{3}',
        PathPart::Parent => '\u{4}',
        PathPart::Normal(_) => '\u{5}',
    }
}

/// The key of a component: its kind, its name, and a closing `\u{0}`.
pub open spec fn part_key(x: PathPart) -> Seq<char> {
    seq![rank_char(x)] + enc_name(part_name(x)) + seq!['\u{0}']
}

pub open spec fn parts_key(a: Seq<PathPart>) -> Seq<char>
    decreases a.len(),
{
    if a.len() == 0 {
        Seq::empty()
    } else {
        part_key(a[0]) + parts_key(a.drop_first())
    }
}

/// The key of path `p`: the keys of its components, in order.
pub open spec fn path_key(p: Seq<char>, w: bool) -> Seq<char> {
    parts_key(path_parts(p, w))
}

proof fn lemma_parts_key_prepend(x: PathPart, a: Seq<PathPart>)
    ensures
        parts_key(seq![x] + a) == part_key(x) + parts_key(a),
{
    assert((seq![x] + a).drop_first() =~= a);
}

/// Appends `enc_name(cs[from..to])`.
fn push_enc_name(out: &mut String, cs: &Vec<char>, from: usize, to: usize)
    requires
        from <= to <= cs@.len(),
    ensures
        final(out)@ == old(out)@ + enc_name(cs@.subrange(from as int, to as int)),
{
    let mut k = from;
    while k < to
        invariant
            from <= k <= to <= cs@.len(),
            out@ == old(out)@ + enc_name(cs@.subrange(from as int, k as int)),
        decreases to - k,
    {
        let ghost before = out@;
        push_char(out, '\u{1}');
        push_char(out, cs[k]);
        proof {
            let s = cs@.subrange(from as int, k + 1);
            assert(s.drop_last() =~= cs@.subrange(from as int, k as int));
            assert(s.last() == cs@[k as int]);
            assert(out@ =~= before + seq!['\u{1}', cs@[k as int]]);
        }
        k = k + 1;
    }
}

/// The key of `p` (see `path_key`).
pub fn path_key_on(p: &str, w: bool) -> (r: String)
    ensures
        r@ == path_key(p@, w),
{
    let cs = chars_of(p);
    let n = cs.len();
    let mut out = String::new();
    let ghost head = if cs@.len() > 0 && is_sep(cs@[0], w) {
        seq![PathPart::Root]
    } else if cs@ == dot() || (cs@.len() >= 2 && cs@[0] == '.' && is_sep(cs@[1], w)) {
        seq![PathPart::Cur]
    } else {
        Seq::<PathPart>::empty()
    };
    if n > 0 && is_sep_exec(cs[0], w) {
        push_char(&mut out, '\u{2}');
        push_char(&mut out, '\u{0}');
    } else if (n == 1 && cs[0] == '.') || (n >= 2 && cs[0] == '.' && is_sep_exec(cs[1], w)) {
        push_char(&mut out, '\u{3}');
        push_char(&mut out, '\u{0}');
        proof {
            if n == 1 {
                assert(cs@ =~= dot());
            }
        }
    } else {
        proof {
            if cs@ == dot() {
                assert(cs@[0] == '.');
            }
        }
    }
    proof {
        assert(path_parts(cs@, w) == head + body_parts(cs@, w, 0));
        assert(enc_name(Seq::<char>::empty()) == Seq::<char>::empty());
        if head.len() == 1 {
            lemma_parts_key_prepend(head[0], body_parts(cs@, w, 0));
            assert(head + body_parts(cs@, w, 0) == seq![head[0]] + body_parts(cs@, w, 0));
            assert(out@ =~= part_key(head[0]));
        } else {
            assert(head + body_parts(cs@, w, 0) =~= body_parts(cs@, w, 0));
            assert(out@ =~= Seq::<char>::empty());
        }
    }
    let ghost target = path_key(cs@, w);
    let mut i: usize = 0;
    while i < n
        invariant
            n == cs@.len(),
            i <= n,
            out@ + parts_key(body_parts(cs@, w, i as int)) == target,
        decreases n - i,
    {
        let mut e = i;
        while e < n && !is_sep_exec(cs[e], w)
            invariant
                i <= e <= n == cs@.len(),
                seg_end(cs@, w, i as int) == seg_end(cs@, w, e as int),
            decreases n - e,
        {
            e = e + 1;
        }
        let ghost seg = cs@.subrange(i as int, e as int);
        let ghost rest = body_parts(cs@, w, e + 1);
        let ghost before = out@;
        assert(body_parts(cs@, w, i as int) == seg_part(seg) + rest);
        if e == i || (e - i == 1 && cs[i] == '.') {
            proof {
                if e == i + 1 {
                    assert(seg =~= dot());
                }
                assert(seg_part(seg) + rest =~= rest);
            }
        } else if e - i == 2 && cs[i] == '.' && cs[i + 1] == '.' {
            push_char(&mut out, '\u{4}');
            push_char(&mut out, '\u{0}');
            proof {
                assert(seg =~= dot_dot());
                lemma_parts_key_prepend(PathPart::Parent, rest);
                assert(enc_name(Seq::<char>::empty()) == Seq::<char>::empty());
                assert(out@ =~= before + part_key(PathPart::Parent));
            }
        } else {
            push_char(&mut out, '\u{5}');
            let ghost mid = out@;
            push_enc_name(&mut out, &cs, i, e);
            push_char(&mut out, '\u{0}');
            proof {
                assert(seg != dot()) by {
                    if seg == dot() {
                        assert(seg.len() == 1 && seg[0] == cs@[i as int]);
                    }
                }
                assert(seg != dot_dot()) by {
                    if seg == dot_dot() {
                        assert(seg.len() == 2 && seg[0] == cs@[i as int] && seg[1] == cs@[i + 1]);
                    }
                }
                lemma_parts_key_prepend(PathPart::Normal(seg), rest);
                assert(out@ =~= before + part_key(PathPart::Normal(seg)));
            }
        }
        proof {
            assert(out@ + parts_key(rest) == target);
        }
        if e >= n {
            i = n;
            proof {
                assert(body_parts(cs@, w, n as int) == Seq::<PathPart>::empty());
                assert(body_parts(cs@, w, e + 1) == Seq::<PathPart>::empty());
            }
        } else {
            i = e + 1;
        }
    }
    proof {
        assert(body_parts(cs@, w, i as int) == Seq::<PathPart>::empty());
        assert(out@ =~= target);
    }
    out
}

} // verus!

verus! {

proof fn lemma_enc_name_shape(n: Seq<char>)
    ensures
        enc_name(n).len() == 2 * n.len(),
        forall|j: int|
            0 <= j < 2 * n.len() ==> #[trigger] enc_name(n)[j] == (if j % 2 == 0 { '\u{1}' } else { n[j / 2] }),
    decreases n.len(),
{
    if n.len() > 0 {
        let d = n.drop_last();
        lemma_enc_name_shape(d);
        let e = enc_name(d);
        assert(enc_name(n) == e + seq!['\u{1}', n.last()]);
        assert forall|j: int| 0 <= j < 2 * n.len() implies #[trigger] enc_name(n)[j] == (if j % 2 == 0 {
            '\u{1}'
        } else {
            n[j / 2]
        }) by {
            if j < e.len() {
                assert(enc_name(n)[j] == e[j]);
                if j % 2 != 0 {
                    assert(d[j / 2] == n[j / 2]);
                }
            } else if j == e.len() {
                assert(j % 2 == 0);
            } else {
                assert(j % 2 == 1 && j / 2 == n.len() - 1);
            }
        }
    }
}

/// The chars of a component key followed by more text.
proof fn lemma_key_index(r: char, n: Seq<char>, rest: Seq<char>)
    ensures
        ({
            let a = seq![r] + enc_name(n) + seq!['\u{0}'] + rest;
            &&& a.len() == 2 + 2 * n.len() + rest.len()
            &&& a[0] == r
            &&& forall|j: int| 1 <= j <= 2 * n.len() ==> a[j] == enc_name(n)[j - 1]
            &&& a[1 + 2 * n.len() as int] == '\u{0}'
        }),
{
    lemma_enc_name_shape(n);
    let e = enc_name(n);
    let a1 = seq![r] + e;
    let a2 = a1 + seq!['\u{0}'];
    let a = a2 + rest;
    assert forall|j: int| 1 <= j <= 2 * n.len() implies a[j] == e[j - 1] by {
        assert(a[j] == a2[j]);
        assert(a2[j] == a1[j]);
    }
    assert(a[1 + 2 * n.len() as int] == a2[1 + 2 * n.len() as int]);
}

/// Equal stretches do not decide the order.
proof fn lemma_lex_skip(a: Seq<char>, b: Seq<char>, i: int, k: int)
    requires
        0 <= i <= k <= a.len(),
        k <= b.len(),
        forall|j: int| i <= j < k ==> a[j] == b[j],
    ensures
        lex_lt_from(a, b, i) == lex_lt_from(a, b, k),
    decreases k - i,
{
    if i < k {
        lemma_lex_skip(a, b, i + 1, k);
    }
}

/// A common prefix does not decide the order.
proof fn lemma_lex_common_prefix(x: Seq<char>, y: Seq<char>, z: Seq<char>)
    ensures
        lex_lt(x + y, x + z) == lex_lt(y, z),
{
    lemma_lex_skip(x + y, x + z, 0, x.len() as int);
    lemma_lex_shift(x, y, z, 0);
}

proof fn lemma_lex_shift(x: Seq<char>, y: Seq<char>, z: Seq<char>, i: int)
    requires
        0 <= i,
    ensures
        lex_lt_from(x + y, x + z, x.len() + i) == lex_lt_from(y, z, i),
    decreases y.len() - i,
{
    if i < y.len() && i < z.len() && y[i] == z[i] {
        lemma_lex_shift(x, y, z, i + 1);
    }
}

/// Where two names first differ at or after `i`, or where the shorter one
/// ends.
proof fn lemma_first_difference(s: Seq<char>, t: Seq<char>, i: int) -> (m: int)
    requires
        0 <= i <= s.len(),
        i <= t.len(),
        forall|j: int| 0 <= j < i ==> s[j] == t[j],
    ensures
        i <= m <= s.len(),
        m <= t.len(),
        forall|j: int| 0 <= j < m ==> s[j] == t[j],
        m == s.len() || m == t.len() || s[m] != t[m],
    decreases s.len() - i,
{
    if i < s.len() && i < t.len() && s[i] == t[i] {
        lemma_first_difference(s, t, i + 1)
    } else {
        i
    }
}

proof fn lemma_name_keys_order(s: Seq<char>, t: Seq<char>, r: char, ra: Seq<char>, rb: Seq<char>)
    requires
        s != t,
    ensures
        lex_lt(seq![r] + enc_name(s) + seq!['\u{0}'] + ra, seq![r] + enc_name(t) + seq!['\u{0}'] + rb) == lex_lt(s, t),
{
    let a = seq![r] + enc_name(s) + seq!['\u{0}'] + ra;
    let b = seq![r] + enc_name(t) + seq!['\u{0}'] + rb;
    lemma_enc_name_shape(s);
    lemma_enc_name_shape(t);
    lemma_key_index(r, s, ra);
    lemma_key_index(r, t, rb);
    let m = lemma_first_difference(s, t, 0);
    assert forall|j: int| 0 <= j < 1 + 2 * m implies a[j] == b[j] by {
        if j > 0 {
            assert(a[j] == enc_name(s)[j - 1] && b[j] == enc_name(t)[j - 1]);
            if (j - 1) % 2 != 0 {
                assert((j - 1) / 2 < m);
                assert(s[(j - 1) / 2] == t[(j - 1) / 2]);
            }
        }
    }
    lemma_lex_skip(a, b, 0, 1 + 2 * m);
    lemma_lex_skip(s, t, 0, m);
    let p = 1 + 2 * m;
    if m < s.len() && m < t.len() {
        assert(a[p] == enc_name(s)[2 * m] && b[p] == enc_name(t)[2 * m]);
        assert((2 * m) % 2 == 0 && (2 * m + 1) % 2 == 1 && (2 * m + 1) / 2 == m);
        assert(a[p + 1] == enc_name(s)[2 * m + 1] && b[p + 1] == enc_name(t)[2 * m + 1]);
        assert(a[p] == '\u{1}' && b[p] == '\u{1}');
        assert(a[p + 1] == s[m] && b[p + 1] == t[m]);
        lemma_lex_skip(a, b, p, p + 1);
    } else if m == s.len() && m < t.len() {
        assert(b[p] == enc_name(t)[2 * m]);
        assert((2 * m) % 2 == 0);
        assert(a[p] == '\u{0}' && b[p] == '\u{1}');
    } else if m == t.len() && m < s.len() {
        assert(a[p] == enc_name(s)[2 * m]);
        assert((2 * m) % 2 == 0);
        assert(a[p] == '\u{1}' && b[p] == '\u{0}');
    } else {
        assert(s =~= t);
    }
}

proof fn lemma_part_key_prefix(x: PathPart, rest: Seq<PathPart>)
    ensures
        parts_key(seq![x] + rest) == seq![rank_char(x)] + enc_name(part_name(x)) + seq!['\u{0}'] + parts_key(rest),
{
    lemma_parts_key_prepend(x, rest);
}

proof fn lemma_parts_key_order(a: Seq<PathPart>, b: Seq<PathPart>)
    ensures
        lex_lt(parts_key(a), parts_key(b)) == parts_lt(a, b),
    decreases a.len(),
{
    if a.len() == 0 {
        if b.len() > 0 {
            assert(parts_key(b).len() > 0);
        }
    } else if b.len() == 0 {
    } else {
        let x = a[0];
        let y = b[0];
        assert(a =~= seq![x] + a.drop_first());
        assert(b =~= seq![y] + b.drop_first());
        lemma_part_key_prefix(x, a.drop_first());
        lemma_part_key_prefix(y, b.drop_first());
        if x == y {
            lemma_lex_common_prefix(part_key(x), parts_key(a.drop_first()), parts_key(b.drop_first()));
            assert(parts_key(a) == part_key(x) + parts_key(a.drop_first()));
            assert(parts_key(b) == part_key(x) + parts_key(b.drop_first()));
            lemma_parts_key_order(a.drop_first(), b.drop_first());
        } else if rank_char(x) != rank_char(y) {
            let ka = parts_key(a);
            let kb = parts_key(b);
            assert(ka[0] == rank_char(x) && kb[0] == rank_char(y));
        } else {
            let s = part_name(x);
            let t = part_name(y);
            assert(s != t);
            lemma_name_keys_order(
                s,
                t,
                rank_char(x),
                parts_key(a.drop_first()),
                parts_key(b.drop_first()),
            );
        }
    }
}

proof fn lemma_parts_trichotomy(a: Seq<PathPart>, b: Seq<PathPart>)
    ensures
        parts_lt(a, b) || parts_lt(b, a) || a == b,
    decreases a.len(),
{
    if a.len() > 0 && b.len() > 0 {
        if a[0] == b[0] {
            lemma_parts_trichotomy(a.drop_first(), b.drop_first());
            if a.drop_first() == b.drop_first() {
                assert(a.drop_first().len() == b.drop_first().len());
                assert(a.len() == b.len());
                assert forall|i: int| 0 <= i < a.len() implies a[i] == b[i] by {
                    if i > 0 {
                        assert(a[i] == a.drop_first()[i - 1]);
                        assert(b[i] == b.drop_first()[i - 1]);
                    }
                }
                assert(a =~= b);
            }
        } else if part_rank(a[0]) == part_rank(b[0]) {
            if !lex_lt(part_name(a[0]), part_name(b[0])) && !lex_lt(part_name(b[0]), part_name(a[0])) {
                crate::text::lemma_lex_total(part_name(a[0]), part_name(b[0]));
            }
        }
    } else if a.len() == 0 && b.len() == 0 {
        assert(a =~= b);
    }
}

/// The key of a path orders and tells paths apart exactly as their
/// components do: one key comes before another when its path comes before
/// the other's, and two keys are equal when the paths have the same
/// components.
pub proof fn lemma_path_key_order(p: Seq<char>, q: Seq<char>, w: bool)
    ensures
        lex_lt(path_key(p, w), path_key(q, w)) == path_lt(p, q, w),
        (path_key(p, w) == path_key(q, w)) == (path_parts(p, w) == path_parts(q, w)),
{
    let a = path_parts(p, w);
    let b = path_parts(q, w);
    lemma_parts_key_order(a, b);
    lemma_parts_key_order(b, a);
    lemma_parts_trichotomy(a, b);
    crate::text::lemma_lex_irreflexive(parts_key(a));
}

} // verus!
