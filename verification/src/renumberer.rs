//! The naming side of renumbering a folder: which files count as numbered,
//! the name a file keeps without its number, and the temporary and final
//! names of the two-pass rename. The renames themselves are done by the
//! caller.

use vstd::prelude::*;
use crate::data::tags::digits_end;
use crate::data::tags::dec_value;
use crate::domain::sort::SortKey;
use crate::domain::sort::stable_order;
use crate::domain::sort::key_views;
use crate::domain::sort::is_stable_sort;
use crate::domain::sort::is_index_perm;
use crate::domain::sort::permuted_by;
use crate::paths::spec_file_stem;
use crate::paths::spec_extension;
use crate::paths::is_sep;
use crate::paths::file_stem_on;
use crate::paths::file_name_range;
use crate::paths::split_name;
use crate::paths::platform_uses_backslash;
use crate::text::chars_of;
use crate::text::is_digit;
use crate::text::is_digit_exec;
use crate::text::is_ascii_alnum;
use crate::text::is_ascii_alnum_exec;
use crate::text::push_char;
use crate::text::push_str;
use crate::text::push_decimal;
use crate::text::push_two_digits;
use crate::text::spec_decimal;
use crate::text::spec_zero_padded;
use crate::text::digit_char;
use crate::data::tags::digit_value;
use crate::text::string_from_range;

verus! {

/// A char that may follow a leading track number: space, `-`, `_` or `.`.
pub open spec fn is_number_separator(c: char) -> bool {
    c == ' ' || c == '-' || c == '_' || c == '.'
}

/// A stem that starts with digits followed by a separator char.
pub open spec fn stem_has_track_prefix(stem: Seq<char>) -> bool {
    let k = digits_end(stem, 0);
    0 < k < stem.len() && is_number_separator(stem[k])
}

/// The stem of the path's file name, or the empty text.
pub open spec fn stem_or_empty(p: Seq<char>, w: bool) -> Seq<char> {
    match spec_file_stem(p, w) {
        Some(s) => s,
        None => Seq::<char>::empty(),
    }
}

pub open spec fn spec_has_track_prefix(p: Seq<char>, w: bool) -> bool {
    stem_has_track_prefix(stem_or_empty(p, w))
}

/// Where the run of separator chars that starts at `i` ends.
pub open spec fn separators_end(s: Seq<char>, i: int) -> int
    decreases s.len() - i,
{
    if 0 <= i < s.len() && is_number_separator(s[i]) {
        separators_end(s, i + 1)
    } else {
        i
    }
}

/// The stem without its leading digits and the separator chars after them.
pub open spec fn strip_prefix_of_stem(stem: Seq<char>) -> Seq<char> {
    let a = stem.skip(digits_end(stem, 0));
    a.skip(separators_end(a, 0))
}

pub open spec fn spec_strip_existing_prefix(p: Seq<char>, w: bool) -> Seq<char> {
    strip_prefix_of_stem(stem_or_empty(p, w))
}

/// Non-alphanumeric chars replaced by `_`, cut to 40 chars.
pub open spec fn spec_sanitize(s: Seq<char>) -> Seq<char> {
    let m = s.map_values(|c: char| if is_ascii_alnum(c) { c } else { '_' });
    if m.len() <= 40 {
        m
    } else {
        m.take(40)
    }
}

fn digits_end_exec(s: &[char], i: usize) -> (r: usize)
    requires
        i <= s@.len(),
    ensures
        r == digits_end(s@, i as int),
        i <= r <= s@.len(),
{
    let mut k = i;
    while k < s.len() && is_digit_exec(s[k])
        invariant
            i <= k <= s@.len(),
            digits_end(s@, i as int) == digits_end(s@, k as int),
        decreases s@.len() - k,
    {
        k = k + 1;
    }
    k
}

fn separators_end_exec(s: &[char], i: usize) -> (r: usize)
    requires
        i <= s@.len(),
    ensures
        r == separators_end(s@, i as int),
        i <= r <= s@.len(),
{
    let mut k = i;
    while k < s.len() && (s[k] == ' ' || s[k] == '-' || s[k] == '_' || s[k] == '.')
        invariant
            i <= k <= s@.len(),
            separators_end(s@, i as int) == separators_end(s@, k as int),
        decreases s@.len() - k,
    {
        k = k + 1;
    }
    k
}

fn stem_or_empty_on(path: &str, w: bool) -> (r: Vec<char>)
    ensures
        r@ == stem_or_empty(path@, w),
{
    match file_stem_on(path, w) {
        Some(s) => chars_of(s.as_str()),
        None => {
            let v: Vec<char> = Vec::new();
            assert(v@ =~= Seq::<char>::empty());
            v
        },
    }
}

pub fn has_track_prefix_on(path: &str, windows: bool) -> (r: bool)
    ensures
        r == spec_has_track_prefix(path@, windows),
{
    let stem = stem_or_empty_on(path, windows);
    let k = digits_end_exec(stem.as_slice(), 0);
    k > 0 && k < stem.len() && (stem[k] == ' ' || stem[k] == '-' || stem[k] == '_' || stem[k] == '.')
}

/// Whether the file stem of `path` starts with a track number, on this
/// platform.
pub fn has_track_prefix(path: &str) -> (r: bool)
    ensures
        r == spec_has_track_prefix(path@, false) || r == spec_has_track_prefix(path@, true),
{
    has_track_prefix_on(path, platform_uses_backslash())
}

pub fn strip_existing_prefix_on(path: &str, windows: bool) -> (r: String)
    ensures
        r@ == spec_strip_existing_prefix(path@, windows),
{
    let stem = stem_or_empty_on(path, windows);
    let k = digits_end_exec(stem.as_slice(), 0);
    let ghost a = stem@.skip(k as int);
    let m = separators_end_exec(stem.as_slice(), k);
    proof {
        lemma_separators_end_shift(stem@, k as int, k as int);
    }
    let r = string_from_range(stem.as_slice(), m, stem.len());
    assert(r@ =~= a.skip(separators_end(a, 0)));
    r
}

proof fn lemma_separators_end_shift(s: Seq<char>, k: int, i: int)
    requires
        0 <= k <= i <= s.len(),
    ensures
        separators_end(s, i) == k + separators_end(s.skip(k), i - k),
    decreases s.len() - i,
{
    if i < s.len() && is_number_separator(s[i]) {
        assert(s.skip(k)[i - k] == s[i]);
        lemma_separators_end_shift(s, k, i + 1);
    }
}

/// The file stem of `path` without its leading track number, on this
/// platform.
pub fn strip_existing_prefix(path: &str) -> (r: String)
    ensures
        r@ == spec_strip_existing_prefix(path@, false) || r@ == spec_strip_existing_prefix(path@, true),
{
    strip_existing_prefix_on(path, platform_uses_backslash())
}

/// `s` with every char that is not an ASCII letter or digit replaced by `_`,
/// cut to its first 40 chars.
pub fn sanitize(s: &str) -> (r: String)
    ensures
        r@ == spec_sanitize(s@),
{
    let cs = chars_of(s);
    let ghost m = s@.map_values(|c: char| if is_ascii_alnum(c) { c } else { '_' });
    let n = if cs.len() <= 40 { cs.len() } else { 40 };
    let mut out = String::new();
    let mut i: usize = 0;
    while i < n
        invariant
            cs@ == s@,
            m == s@.map_values(|c: char| if is_ascii_alnum(c) { c } else { '_' }),
            n <= cs@.len(),
            i <= n,
            out@ == m.take(i as int),
        decreases n - i,
    {
        let c = cs[i];
        push_char(&mut out, if is_ascii_alnum_exec(c) { c } else { '_' });
        assert(m.take(i + 1) =~= m.take(i as int).push(m[i as int]));
        i = i + 1;
    }
    if cs.len() <= 40 {
        assert(m.take(n as int) =~= m);
    }
    out
}

/// The extension of the path's file name, or the empty text.
pub open spec fn ext_or_empty(p: Seq<char>, w: bool) -> Seq<char> {
    match spec_extension(p, w) {
        Some(e) => e,
        None => Seq::<char>::empty(),
    }
}

/// The name a file is moved to in the first pass.
pub open spec fn spec_temp_name(pid: nat, nanos: nat, i: nat, clean_stem: Seq<char>, ext: Seq<char>) -> Seq<char> {
    ".tmp_renumber_"@ + spec_decimal(pid) + "_"@ + spec_decimal(nanos) + "_"@ + spec_decimal(i) + "_"@
        + spec_sanitize(clean_stem) + "."@ + ext
}

/// The name a file ends with: its number padded to two digits, " - ", the
/// stem without its old number, and the extension if there is one.
pub open spec fn spec_final_name(idx: nat, clean_stem: Seq<char>, ext: Seq<char>) -> Seq<char> {
    let base = spec_zero_padded(idx, 2) + " - "@ + clean_stem;
    if ext.len() == 0 {
        base
    } else {
        base + "."@ + ext
    }
}

/// `name` inside `folder`, joined with the platform separator unless the
/// folder is empty or already ends with a separator.
pub open spec fn spec_join(folder: Seq<char>, name: Seq<char>, w: bool) -> Seq<char> {
    if folder.len() == 0 {
        name
    } else if is_sep(folder.last(), w) {
        folder + name
    } else {
        folder.push(if w { '\\' } else { '/' }) + name
    }
}

/// One file of a renumbering: where it is, where the first pass moves it,
/// and where it ends.
#[derive(Debug)]
pub struct RenumberStep {
    pub source: String,
    pub temp: String,
    pub target: String,
    pub target_name: String,
}

pub open spec fn spec_step(folder: Seq<char>, src: Seq<char>, i: nat, pid: nat, nanos: nat, w: bool, st: RenumberStep) -> bool {
    let clean = spec_strip_existing_prefix(src, w);
    let ext = ext_or_empty(src, w);
    &&& st.source@ == src
    &&& st.temp@ == spec_join(folder, spec_temp_name(pid, nanos, i, clean, ext), w)
    &&& st.target_name@ == spec_final_name(i + 1, clean, ext)
    &&& st.target@ == spec_join(folder, st.target_name@, w)
}

fn join_on(folder: &str, name: &str, w: bool) -> (r: String)
    ensures
        r@ == spec_join(folder@, name@, w),
{
    let fv = chars_of(folder);
    let mut out = folder.to_owned();
    if fv.len() > 0 && !crate::paths::is_sep_exec(fv[fv.len() - 1], w) {
        push_char(&mut out, if w { '\\' } else { '/' });
    }
    push_str(&mut out, name);
    out
}

fn ext_or_empty_on(path: &str, w: bool) -> (r: String)
    ensures
        r@ == ext_or_empty(path@, w),
{
    let p = chars_of(path);
    match file_name_range(p.as_slice(), w) {
        None => String::new(),
        Some((s, e)) => {
            let name = string_from_range(p.as_slice(), s, e);
            let nv = chars_of(name.as_str());
            match split_name(nv.as_slice()).1 {
                None => String::new(),
                Some(x) => string_from_range(nv.as_slice(), x, nv.len()),
            }
        },
    }
}

/// The steps of renumbering the files `files` (already in their final order)
/// of `folder`: file `i` gets number `i + 1`.
pub fn renumber_plan_on(folder: &str, files: &Vec<String>, pid: u32, nanos: u128, windows: bool) -> (plan: Vec<RenumberStep>)
    ensures
        plan@.len() == files@.len(),
        forall|i: int| 0 <= i < files@.len() ==> spec_step(folder@, #[trigger] files@[i]@, i as nat, pid as nat, nanos as nat, windows, plan@[i]),
{
    let mut plan: Vec<RenumberStep> = Vec::new();
    let mut i: usize = 0;
    while i < files.len()
        invariant
            i <= files@.len(),
            plan@.len() == i,
            forall|k: int| 0 <= k < i ==> spec_step(folder@, #[trigger] files@[k]@, k as nat, pid as nat, nanos as nat, windows, plan@[k]),
        decreases files@.len() - i,
    {
        let src = &files[i];
        let clean = strip_existing_prefix_on(src.as_str(), windows);
        let ext = ext_or_empty_on(src.as_str(), windows);
        let mut tmp = String::new();
        push_str(&mut tmp, ".tmp_renumber_");
        push_decimal(&mut tmp, pid as u128);
        push_str(&mut tmp, "_");
        push_decimal(&mut tmp, nanos);
        push_str(&mut tmp, "_");
        push_decimal(&mut tmp, i as u128);
        push_str(&mut tmp, "_");
        let san = sanitize(clean.as_str());
        push_str(&mut tmp, san.as_str());
        push_str(&mut tmp, ".");
        push_str(&mut tmp, ext.as_str());
        assert(tmp@ =~= spec_temp_name(pid as nat, nanos as nat, i as nat, clean@, ext@));
        let mut name = String::new();
        push_two_digits(&mut name, (i as u128) + 1);
        push_str(&mut name, " - ");
        push_str(&mut name, clean.as_str());
        if !ext.as_str().is_empty() {
            push_str(&mut name, ".");
            push_str(&mut name, ext.as_str());
        }
        assert(name@ =~= spec_final_name((i + 1) as nat, clean@, ext@));
        let step = RenumberStep {
            source: src.clone(),
            temp: join_on(folder, tmp.as_str(), windows),
            target: join_on(folder, name.as_str(), windows),
            target_name: name,
        };
        plan.push(step);
        i = i + 1;
    }
    plan
}

/// The renumbering steps on this platform.
pub fn renumber_plan(folder: &str, files: &Vec<String>, pid: u32, nanos: u128) -> (plan: Vec<RenumberStep>)
    ensures
        plan@.len() == files@.len(),
        (forall|i: int| 0 <= i < files@.len() ==> spec_step(folder@, #[trigger] files@[i]@, i as nat, pid as nat, nanos as nat, false, plan@[i]))
            || (forall|i: int| 0 <= i < files@.len() ==> spec_step(folder@, #[trigger] files@[i]@, i as nat, pid as nat, nanos as nat, true, plan@[i])),
{
    renumber_plan_on(folder, files, pid, nanos, platform_uses_backslash())
}

proof fn lemma_digit_char_reads_back(d: nat)
    requires
        d < 10,
    ensures
        is_digit(digit_char(d)),
        digit_value(digit_char(d)) == d,
{
    assert(((d + 48) as char) as int == d + 48);
}

proof fn lemma_decimal_reads_back(n: nat)
    ensures
        forall|i: int| 0 <= i < spec_decimal(n).len() ==> is_digit(#[trigger] spec_decimal(n)[i]),
        dec_value(spec_decimal(n)) == n,
    decreases n,
{
    if n < 10 {
        lemma_digit_char_reads_back(n);
        assert(spec_decimal(n).drop_last() =~= Seq::<char>::empty());
        assert(dec_value(Seq::<char>::empty()) == 0);
        assert(dec_value(spec_decimal(n)) == dec_value(spec_decimal(n).drop_last()) * 10 + digit_value(
            spec_decimal(n).last(),
        ));
    } else {
        lemma_decimal_reads_back(n / 10);
        lemma_digit_char_reads_back(n % 10);
        assert(spec_decimal(n).drop_last() =~= spec_decimal(n / 10));
        assert(spec_decimal(n).last() == digit_char(n % 10));
        assert(dec_value(spec_decimal(n)) == dec_value(spec_decimal(n).drop_last()) * 10 + digit_value(
            spec_decimal(n).last(),
        ));
        assert((n / 10) * 10 + n % 10 == n);
    }
}

proof fn lemma_leading_zeros_read_back(k: nat, d: Seq<char>)
    ensures
        dec_value(Seq::new(k, |i: int| '0') + d) == dec_value(d),
    decreases d.len(), k,
{
    let z = Seq::new(k, |i: int| '0');
    if d.len() == 0 {
        assert(z + d =~= z);
        if k > 0 {
            assert(z.drop_last() =~= Seq::new((k - 1) as nat, |i: int| '0'));
            lemma_leading_zeros_read_back((k - 1) as nat, d);
            assert(Seq::new((k - 1) as nat, |i: int| '0') + d =~= Seq::new((k - 1) as nat, |i: int| '0'));
        }
    } else {
        assert((z + d).drop_last() =~= z + d.drop_last());
        lemma_leading_zeros_read_back(k, d.drop_last());
    }
}

proof fn lemma_zero_padded_reads_back(n: nat, w: nat)
    ensures
        forall|i: int| 0 <= i < spec_zero_padded(n, w).len() ==> is_digit(#[trigger] spec_zero_padded(n, w)[i]),
        dec_value(spec_zero_padded(n, w)) == n,
{
    lemma_decimal_reads_back(n);
    let d = spec_decimal(n);
    if d.len() < w {
        let k = (w - d.len()) as nat;
        lemma_leading_zeros_read_back(k, d);
        let z = Seq::new(k, |i: int| '0');
        assert forall|i: int| 0 <= i < (z + d).len() implies is_digit(#[trigger] (z + d)[i]) by {
            if i >= k {
                assert((z + d)[i] == d[i - k]);
            }
        }
    }
}

proof fn lemma_digits_end_at(s: Seq<char>, i: int, k: int)
    requires
        0 <= i <= k < s.len(),
        forall|m: int| 0 <= m < k ==> is_digit(#[trigger] s[m]),
        !is_digit(s[k]),
    ensures
        digits_end(s, i) == k,
    decreases k - i,
{
    if i < k {
        lemma_digits_end_at(s, i + 1, k);
    }
}

/// A number written in digits and followed by a non-digit can be read off
/// the front of the text.
proof fn lemma_number_prefix_unique(p: Seq<char>, x: Seq<char>, q: Seq<char>, y: Seq<char>)
    requires
        forall|i: int| 0 <= i < p.len() ==> is_digit(#[trigger] p[i]),
        forall|i: int| 0 <= i < q.len() ==> is_digit(#[trigger] q[i]),
        x.len() > 0,
        !is_digit(x[0]),
        y.len() > 0,
        !is_digit(y[0]),
        p + x == q + y,
    ensures
        p == q,
{
    let a = p + x;
    let b = q + y;
    assert forall|m: int| 0 <= m < p.len() implies is_digit(#[trigger] a[m]) by {
        assert(a[m] == p[m]);
    }
    assert forall|m: int| 0 <= m < q.len() implies is_digit(#[trigger] b[m]) by {
        assert(b[m] == q[m]);
    }
    assert(a[p.len() as int] == x[0]);
    assert(b[q.len() as int] == y[0]);
    lemma_digits_end_at(a, 0, p.len() as int);
    lemma_digits_end_at(b, 0, q.len() as int);
    assert(p =~= a.take(p.len() as int));
    assert(q =~= b.take(q.len() as int));
}

proof fn lemma_join_keeps_names_apart(folder: Seq<char>, x: Seq<char>, y: Seq<char>, w: bool)
    requires
        x != y,
    ensures
        spec_join(folder, x, w) != spec_join(folder, y, w),
{
    let pre: Seq<char> = if folder.len() == 0 {
        Seq::empty()
    } else if is_sep(folder.last(), w) {
        folder
    } else {
        folder.push(if w { '\\' } else { '/' })
    };
    assert(spec_join(folder, x, w) =~= pre + x);
    assert(spec_join(folder, y, w) =~= pre + y);
    assert((pre + x).skip(pre.len() as int) =~= x);
    assert((pre + y).skip(pre.len() as int) =~= y);
}

/// The two-pass rename never sends two files to one name: in a plan, the
/// final names, the final paths and the temporary paths of different files
/// all differ.
#[verifier::spinoff_prover]
pub proof fn lemma_plan_names_distinct(
    folder: Seq<char>,
    files: Seq<String>,
    pid: nat,
    nanos: nat,
    w: bool,
    plan: Seq<RenumberStep>,
    i: int,
    j: int,
)
    requires
        plan.len() == files.len(),
        forall|k: int| 0 <= k < files.len() ==> spec_step(folder, #[trigger] files[k]@, k as nat, pid, nanos, w, plan[k]),
        0 <= i < j < plan.len(),
    ensures
        plan[i].target_name@ != plan[j].target_name@,
        plan[i].target@ != plan[j].target@,
        plan[i].temp@ != plan[j].temp@,
{
    assert(spec_step(folder, files[i]@, i as nat, pid, nanos, w, plan[i]));
    assert(spec_step(folder, files[j]@, j as nat, pid, nanos, w, plan[j]));
    let ci = spec_strip_existing_prefix(files[i]@, w);
    let cj = spec_strip_existing_prefix(files[j]@, w);
    let ei = ext_or_empty(files[i]@, w);
    let ej = ext_or_empty(files[j]@, w);
    // Final names start with the file's number, then " - ".
    let ni = spec_final_name((i + 1) as nat, ci, ei);
    let nj = spec_final_name((j + 1) as nat, cj, ej);
    let pi = spec_zero_padded((i + 1) as nat, 2);
    let pj = spec_zero_padded((j + 1) as nat, 2);
    lemma_zero_padded_reads_back((i + 1) as nat, 2);
    lemma_zero_padded_reads_back((j + 1) as nat, 2);
    reveal_strlit(" - ");
    reveal_strlit("_");
    let ri = ni.skip(pi.len() as int);
    let rj = nj.skip(pj.len() as int);
    assert(ni =~= pi + ri);
    assert(nj =~= pj + rj);
    assert(ri[0] == ' ');
    assert(rj[0] == ' ');
    if ni == nj {
        lemma_number_prefix_unique(pi, ri, pj, rj);
    }
    lemma_join_keeps_names_apart(folder, ni, nj, w);
    // Temporary names share their start up to the file's index.
    let head = ".tmp_renumber_"@ + spec_decimal(pid) + "_"@ + spec_decimal(nanos) + "_"@;
    let ti = spec_temp_name(pid, nanos, i as nat, ci, ei);
    let tj = spec_temp_name(pid, nanos, j as nat, cj, ej);
    let di = spec_decimal(i as nat);
    let dj = spec_decimal(j as nat);
    lemma_decimal_reads_back(i as nat);
    lemma_decimal_reads_back(j as nat);
    let ui = ti.skip((head.len() + di.len()) as int);
    let uj = tj.skip((head.len() + dj.len()) as int);
    assert(ti =~= head + (di + ui));
    assert(tj =~= head + (dj + uj));
    assert(ui[0] == '_');
    assert(uj[0] == '_');
    if ti == tj {
        assert((head + (di + ui)).skip(head.len() as int) =~= di + ui);
        assert((head + (dj + uj)).skip(head.len() as int) =~= dj + uj);
        lemma_number_prefix_unique(di, ui, dj, uj);
    }
    lemma_join_keeps_names_apart(folder, ti, tj, w);
}

/// No temporary path of a plan is the final path of any file of it: the
/// temporary names start with a dot, the final names with a digit.
#[verifier::spinoff_prover]
pub proof fn lemma_plan_temps_never_targets(
    folder: Seq<char>,
    files: Seq<String>,
    pid: nat,
    nanos: nat,
    w: bool,
    plan: Seq<RenumberStep>,
    i: int,
    j: int,
)
    requires
        plan.len() == files.len(),
        forall|k: int| 0 <= k < files.len() ==> spec_step(folder, #[trigger] files[k]@, k as nat, pid, nanos, w, plan[k]),
        0 <= i < plan.len(),
        0 <= j < plan.len(),
    ensures
        plan[i].temp@ != plan[j].target@,
{
    assert(spec_step(folder, files[i]@, i as nat, pid, nanos, w, plan[i]));
    assert(spec_step(folder, files[j]@, j as nat, pid, nanos, w, plan[j]));
    reveal_strlit(".tmp_renumber_");
    let ti = spec_temp_name(pid, nanos, i as nat, spec_strip_existing_prefix(files[i]@, w), ext_or_empty(files[i]@, w));
    let nj = spec_final_name((j + 1) as nat, spec_strip_existing_prefix(files[j]@, w), ext_or_empty(files[j]@, w));
    lemma_zero_padded_reads_back((j + 1) as nat, 2);
    lemma_decimal_reads_back((j + 1) as nat);
    assert(ti[0] == '.');
    assert(is_digit(spec_zero_padded((j + 1) as nat, 2)[0]));
    assert(nj[0] == spec_zero_padded((j + 1) as nat, 2)[0]);
    lemma_join_keeps_names_apart(folder, ti, nj, w);
}

proof fn lemma_strip_common_head(h: Seq<char>, a: Seq<char>, b: Seq<char>)
    requires
        h + a == h + b,
    ensures
        a == b,
{
    assert((h + a).skip(h.len() as int) =~= a);
    assert((h + b).skip(h.len() as int) =~= b);
}

/// A decimal number followed by a non-digit is read back off the front.
proof fn lemma_decimal_then_rest(m: nat, x: Seq<char>, n: nat, y: Seq<char>)
    requires
        spec_decimal(m) + x == spec_decimal(n) + y,
        x.len() > 0,
        !is_digit(x[0]),
        y.len() > 0,
        !is_digit(y[0]),
    ensures
        m == n,
        x == y,
{
    lemma_decimal_reads_back(m);
    lemma_decimal_reads_back(n);
    lemma_number_prefix_unique(spec_decimal(m), x, spec_decimal(n), y);
    lemma_strip_common_head(spec_decimal(m), x, y);
}

proof fn lemma_assoc(a: Seq<char>, b: Seq<char>, c: Seq<char>)
    ensures
        (a + b) + c == a + (b + c),
{
    assert((a + b) + c =~= a + (b + c));
}

/// A temporary name is the fixed head, the process id, "_", the clock
/// reading, "_", and the rest.
#[verifier::spinoff_prover]
proof fn lemma_temp_name_shape(pid: nat, nanos: nat, i: nat, s: Seq<char>, e: Seq<char>)
    ensures
        spec_temp_name(pid, nanos, i, s, e) == ".tmp_renumber_"@ + (spec_decimal(pid) + ("_"@ + (spec_decimal(nanos)
            + ("_"@ + (spec_decimal(i) + "_"@ + spec_sanitize(s) + "."@ + e))))),
{
    let h = ".tmp_renumber_"@;
    let p = spec_decimal(pid);
    let u = "_"@;
    let n = spec_decimal(nanos);
    let r = spec_decimal(i) + u + spec_sanitize(s) + "."@ + e;
    let d = spec_decimal(i);
    let q = spec_sanitize(s);
    let o = "."@;
    // Regroup ((((((((h p) u) n) u) d) u) q) o) e from the right.
    lemma_assoc(h + p + u + n + u + d + u + q, o, e);
    lemma_assoc(h + p + u + n + u + d + u, q, o + e);
    lemma_assoc(h + p + u + n + u + d, u, q + (o + e));
    lemma_assoc(h + p + u + n + u, d, u + (q + (o + e)));
    lemma_assoc(d + u, q, o + e);
    lemma_assoc(d, u, q + (o + e));
    lemma_assoc(d + u + q, o, e);
    lemma_assoc(d + u, q, o);
    lemma_assoc(h + p + u + n, u, r);
    lemma_assoc(h + p + u, n, u + r);
    lemma_assoc(h + p, u, n + (u + r));
    lemma_assoc(h, p, u + (n + (u + r)));
}

/// Equal temporary names come from the same process id and clock reading.
#[verifier::spinoff_prover]
proof fn lemma_temp_name_spells_run(
    pid1: nat,
    nanos1: nat,
    i1: nat,
    s1: Seq<char>,
    e1: Seq<char>,
    pid2: nat,
    nanos2: nat,
    i2: nat,
    s2: Seq<char>,
    e2: Seq<char>,
)
    requires
        spec_temp_name(pid1, nanos1, i1, s1, e1) == spec_temp_name(pid2, nanos2, i2, s2, e2),
    ensures
        pid1 == pid2,
        nanos1 == nanos2,
{
    reveal_strlit("_");
    let head = ".tmp_renumber_"@;
    let u = "_"@;
    let r1 = u + (spec_decimal(i1) + u + spec_sanitize(s1) + "."@ + e1);
    let r2 = u + (spec_decimal(i2) + u + spec_sanitize(s2) + "."@ + e2);
    let x1 = u + (spec_decimal(nanos1) + r1);
    let x2 = u + (spec_decimal(nanos2) + r2);
    lemma_temp_name_shape(pid1, nanos1, i1, s1, e1);
    lemma_temp_name_shape(pid2, nanos2, i2, s2, e2);
    lemma_strip_common_head(head, spec_decimal(pid1) + x1, spec_decimal(pid2) + x2);
    assert(x1[0] == '_');
    assert(x2[0] == '_');
    lemma_decimal_then_rest(pid1, x1, pid2, x2);
    lemma_strip_common_head(u, spec_decimal(nanos1) + r1, spec_decimal(nanos2) + r2);
    assert(r1[0] == '_');
    assert(r2[0] == '_');
    lemma_decimal_then_rest(nanos1, r1, nanos2, r2);
}

/// Renumberings made under different process ids or clock readings never
/// share a temporary path, whatever files they move: the temporary name
/// spells out the process id and the clock reading.
#[verifier::spinoff_prover]
pub proof fn lemma_runs_use_distinct_temps(
    folder: Seq<char>,
    w: bool,
    files1: Seq<String>,
    pid1: nat,
    nanos1: nat,
    plan1: Seq<RenumberStep>,
    i: int,
    files2: Seq<String>,
    pid2: nat,
    nanos2: nat,
    plan2: Seq<RenumberStep>,
    j: int,
)
    requires
        plan1.len() == files1.len(),
        forall|k: int| 0 <= k < files1.len() ==> spec_step(folder, #[trigger] files1[k]@, k as nat, pid1, nanos1, w, plan1[k]),
        plan2.len() == files2.len(),
        forall|k: int| 0 <= k < files2.len() ==> spec_step(folder, #[trigger] files2[k]@, k as nat, pid2, nanos2, w, plan2[k]),
        0 <= i < plan1.len(),
        0 <= j < plan2.len(),
        pid1 != pid2 || nanos1 != nanos2,
    ensures
        plan1[i].temp@ != plan2[j].temp@,
{
    assert(spec_step(folder, files1[i]@, i as nat, pid1, nanos1, w, plan1[i]));
    assert(spec_step(folder, files2[j]@, j as nat, pid2, nanos2, w, plan2[j]));
    let (s1, e1) = (spec_strip_existing_prefix(files1[i]@, w), ext_or_empty(files1[i]@, w));
    let (s2, e2) = (spec_strip_existing_prefix(files2[j]@, w), ext_or_empty(files2[j]@, w));
    let t1 = spec_temp_name(pid1, nanos1, i as nat, s1, e1);
    let t2 = spec_temp_name(pid2, nanos2, j as nat, s2, e2);
    if t1 == t2 {
        lemma_temp_name_spells_run(pid1, nanos1, i as nat, s1, e1, pid2, nanos2, j as nat, s2, e2);
    }
    lemma_join_keeps_names_apart(folder, t1, t2, w);
}

/// How many of the paths have a file stem that starts with a track number.
pub open spec fn count_prefixed(files: Seq<String>, w: bool) -> nat
    decreases files.len(),
{
    if files.len() == 0 {
        0
    } else {
        count_prefixed(files.drop_last(), w) + (if spec_has_track_prefix(files.last()@, w) { 1nat } else { 0nat })
    }
}

pub fn count_prefixed_on(files: &Vec<String>, windows: bool) -> (r: usize)
    ensures
        r == count_prefixed(files@, windows),
{
    let mut n: usize = 0;
    let mut i: usize = 0;
    while i < files.len()
        invariant
            i <= files@.len(),
            n == count_prefixed(files@.take(i as int), windows),
            n <= i,
        decreases files@.len() - i,
    {
        assert(files@.take(i + 1).drop_last() =~= files@.take(i as int));
        if has_track_prefix_on(files[i].as_str(), windows) {
            n = n + 1;
        }
        i = i + 1;
    }
    assert(files@.take(files@.len() as int) =~= files@);
    n
}

/// How many of the paths are numbered, on this platform.
pub fn count_prefixed_files(files: &Vec<String>) -> (r: usize)
    ensures
        r == count_prefixed(files@, false) || r == count_prefixed(files@, true),
{
    count_prefixed_on(files, platform_uses_backslash())
}

/// Puts the paths in ascending text order.
pub fn sort_paths(paths: &mut Vec<String>)
    ensures
        is_stable_sort(
            old(paths)@,
            final(paths)@,
            old(paths)@.map_values(|s: String| (0int, s@)),
        ),
{
    let ghost p0 = paths@;
    let mut keys: Vec<SortKey> = Vec::new();
    let mut i: usize = 0;
    while i < paths.len()
        invariant
            paths@ == p0,
            i <= p0.len(),
            keys@.len() == i,
            forall|k: int| 0 <= k < i ==> #[trigger] keys@[k]@ == (0int, p0[k]@),
        decreases p0.len() - i,
    {
        keys.push(SortKey { num: 0, text: chars_of(paths[i].as_str()) });
        i = i + 1;
    }
    assert(key_views(keys@) =~= p0.map_values(|s: String| (0int, s@)));
    let perm = stable_order(&keys);
    let mut out: Vec<String> = Vec::new();
    let mut j: usize = 0;
    while j < perm.len()
        invariant
            paths@ == p0,
            is_index_perm(perm@, p0.len()),
            j <= perm@.len(),
            out@.len() == j,
            forall|k: int| 0 <= k < j ==> #[trigger] out@[k] == p0[perm@[k] as int],
        decreases perm@.len() - j,
    {
        out.push(paths[perm[j]].clone());
        j = j + 1;
    }
    assert(permuted_by(p0, out@, perm@));
    *paths = out;
}

} // verus!
