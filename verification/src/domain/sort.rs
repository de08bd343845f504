//! Orderings of song lists: stable sorts by a per-song key, ascending or
//! descending, and a shuffle.

use vstd::prelude::*;
use vstd::set_lib::lemma_int_range;
use vstd::set_lib::lemma_subset_equality;
use vstd::set_lib::set_int_range;
use std::collections::hash_map::DefaultHasher;
use std::hash::Hasher;
use vstd::bytes::spec_u64_to_le_bytes;
use vstd::bytes::u64_to_le_bytes;
use vstd::std_specs::hash::DefaultHasherAdditionalSpecFns;
use std::time::Duration;
use std::time::SystemTime;
use std::time::SystemTimeError;
use crate::domain::song::Song;
use crate::paths::spec_file_name;
use crate::paths::file_name_on;
use crate::paths::platform_uses_backslash;
use crate::text::spec_lowercase;
use crate::text::lowercase;
use crate::text::chars_of;
use crate::text::lex_lt;
use crate::text::lex_less;
use crate::text::lemma_lex_irreflexive;
use crate::text::lemma_lex_transitive;
use crate::text::lemma_lex_total;

verus! {

/// The orders the song list can be shown in.
#[derive(Debug, Clone, Copy, PartialEq, Eq, Structural)]
pub enum SortOption {
    TitleAsc,
    TitleDesc,
    ArtistAsc,
    ArtistDesc,
    AlbumAsc,
    AlbumDesc,
    DurationAsc,
    DurationDesc,
    TrackNoAsc,
    TrackNoDesc,
    FilenameAsc,
    FilenameDesc,
    Shuffle,
}

// ---------------------------------------------------------------------------
// Keys and their order
// ---------------------------------------------------------------------------

/// A sort key: a number compared first, then a text compared
/// lexicographically.
pub struct SortKey {
    pub num: u128,
    pub text: Vec<char>,
}

impl View for SortKey {
    type V = (int, Seq<char>);

    open spec fn view(&self) -> (int, Seq<char>) {
        (self.num as int, self.text@)
    }
}

/// Strict order on keys.
pub open spec fn key_lt(a: (int, Seq<char>), b: (int, Seq<char>)) -> bool {
    a.0 < b.0 || (a.0 == b.0 && lex_lt(a.1, b.1))
}

/// No key is below itself.
pub proof fn lemma_key_irreflexive(a: (int, Seq<char>))
    ensures
        !key_lt(a, a),
{
    lemma_lex_irreflexive(a.1);
}

/// The key order is transitive.
pub proof fn lemma_key_transitive(a: (int, Seq<char>), b: (int, Seq<char>), c: (int, Seq<char>))
    requires
        key_lt(a, b),
        key_lt(b, c),
    ensures
        key_lt(a, c),
{
    if a.0 == b.0 && b.0 == c.0 {
        lemma_lex_transitive(a.1, b.1, c.1);
    }
}

/// Two keys neither of which is below the other are equal: the key order
/// is total, so an order by keys is determined up to equal keys.
pub proof fn lemma_key_total(a: (int, Seq<char>), b: (int, Seq<char>))
    requires
        !key_lt(a, b),
        !key_lt(b, a),
    ensures
        a == b,
{
    lemma_lex_total(a.1, b.1);
}

pub fn key_less(a: &SortKey, b: &SortKey) -> (r: bool)
    ensures
        r == key_lt(a@, b@),
{
    if a.num < b.num {
        true
    } else if a.num > b.num {
        false
    } else {
        lex_less(a.text.as_slice(), b.text.as_slice())
    }
}

pub open spec fn key_views(keys: Seq<SortKey>) -> Seq<(int, Seq<char>)> {
    keys.map_values(|k: SortKey| k@)
}

// ---------------------------------------------------------------------------
// Permutations and stable order
// ---------------------------------------------------------------------------

/// `p` lists each index below `n` exactly once.
pub open spec fn is_index_perm(p: Seq<usize>, n: nat) -> bool {
    &&& p.len() == n
    &&& forall|i: int| 0 <= i < n ==> #[trigger] p[i] < n
    &&& forall|i: int, j: int| 0 <= i < j < n ==> #[trigger] p[i] != #[trigger] p[j]
}

/// Taking the keys in the order `p` gives them in non-decreasing order, and
/// indices with equal keys keep their relative order.
pub open spec fn sorted_stably(keys: Seq<(int, Seq<char>)>, p: Seq<usize>) -> bool {
    &&& forall|i: int, j: int|
        0 <= i < j < p.len() ==> !key_lt(keys[#[trigger] p[j] as int], keys[#[trigger] p[i] as int])
    &&& forall|i: int, j: int|
        0 <= i < j < p.len() && keys[#[trigger] p[i] as int] == keys[#[trigger] p[j] as int] ==> p[i]
            < p[j]
}

/// `new` is `old` rearranged by `p`.
pub open spec fn permuted_by<T>(old: Seq<T>, new: Seq<T>, p: Seq<usize>) -> bool {
    &&& is_index_perm(p, old.len())
    &&& new.len() == old.len()
    &&& forall|i: int| 0 <= i < new.len() ==> #[trigger] new[i] == old[p[i] as int]
}

/// `new` holds the items of `old`, each as often, in some order.
pub open spec fn is_permutation<T>(old: Seq<T>, new: Seq<T>) -> bool {
    exists|p: Seq<usize>| permuted_by(old, new, p)
}

/// `new` is the stable sort of `old` by `keys` (one key per item of `old`).
pub open spec fn is_stable_sort<T>(old: Seq<T>, new: Seq<T>, keys: Seq<(int, Seq<char>)>) -> bool {
    &&& keys.len() == old.len()
    &&& exists|p: Seq<usize>| permuted_by(old, new, p) && sorted_stably(keys, p)
}

proof fn lemma_insert_keeps_order(keys: Seq<(int, Seq<char>)>, p: Seq<usize>, i: usize, pos: int)
    requires
        i < keys.len(),
        is_index_perm(p, i as nat),
        sorted_stably(keys, p),
        0 <= pos <= p.len(),
        forall|q: int| 0 <= q < pos ==> !key_lt(keys[i as int], keys[#[trigger] p[q] as int]),
        pos < p.len() ==> key_lt(keys[i as int], keys[p[pos] as int]),
    ensures
        is_index_perm(p.insert(pos, i), (i + 1) as nat),
        sorted_stably(keys, p.insert(pos, i)),
{
    let np = p.insert(pos, i);
    let n = (i + 1) as int;
    assert forall|a: int| 0 <= a < n implies #[trigger] np[a] < n by {
        if a < pos {
            assert(np[a] == p[a]);
        } else if a > pos {
            assert(np[a] == p[a - 1]);
        }
    }
    assert forall|a: int, b: int| 0 <= a < b < n implies #[trigger] np[a] != #[trigger] np[b] by {
        if a < pos && b < pos {
            assert(np[a] == p[a] && np[b] == p[b]);
        } else if a < pos && b == pos {
            assert(np[a] == p[a]);
        } else if a < pos && b > pos {
            assert(np[a] == p[a] && np[b] == p[b - 1]);
        } else if a == pos {
            assert(np[b] == p[b - 1]);
        } else {
            assert(np[a] == p[a - 1] && np[b] == p[b - 1]);
        }
    }
    let ki = keys[i as int];
    assert forall|a: int, b: int| 0 <= a < b < np.len() implies !key_lt(
        keys[#[trigger] np[b] as int],
        keys[#[trigger] np[a] as int],
    ) by {
        if b < pos {
            assert(np[a] == p[a] && np[b] == p[b]);
        } else if b == pos {
            assert(np[a] == p[a]);
        } else if a < pos {
            assert(np[a] == p[a] && np[b] == p[b - 1]);
        } else if a == pos {
            assert(np[b] == p[b - 1]);
            let kp = keys[p[pos] as int];
            let kb = keys[p[b - 1] as int];
            if key_lt(kb, ki) {
                if b - 1 == pos {
                    lemma_key_transitive(kb, ki, kp);
                    lemma_key_irreflexive(kp);
                } else {
                    lemma_key_transitive(kb, ki, kp);
                }
            }
        } else {
            assert(np[a] == p[a - 1] && np[b] == p[b - 1]);
        }
    }
    assert forall|a: int, b: int|
        0 <= a < b < np.len() && keys[#[trigger] np[a] as int] == keys[#[trigger] np[b] as int]
            implies np[a] < np[b] by {
        if b < pos {
            assert(np[a] == p[a] && np[b] == p[b]);
        } else if b == pos {
            assert(np[a] == p[a]);
        } else if a < pos {
            assert(np[a] == p[a] && np[b] == p[b - 1]);
        } else if a == pos {
            assert(np[b] == p[b - 1]);
            let kp = keys[p[pos] as int];
            let kb = keys[p[b - 1] as int];
            if b - 1 == pos {
                lemma_key_irreflexive(ki);
            } else {
                assert(!key_lt(kb, kp));
            }
        } else {
            assert(np[a] == p[a - 1] && np[b] == p[b - 1]);
        }
    }
}

/// The order in which the items must be taken to sort them stably by `keys`.
pub fn stable_order(keys: &Vec<SortKey>) -> (perm: Vec<usize>)
    ensures
        is_index_perm(perm@, keys@.len()),
        sorted_stably(key_views(keys@), perm@),
{
    let ghost kv = key_views(keys@);
    let mut perm: Vec<usize> = Vec::new();
    let mut i: usize = 0;
    while i < keys.len()
        invariant
            i <= keys@.len(),
            kv == key_views(keys@),
            is_index_perm(perm@, i as nat),
            sorted_stably(kv, perm@),
        decreases keys@.len() - i,
    {
        let mut pos: usize = 0;
        while pos < perm.len() && !key_less(&keys[i], &keys[perm[pos]])
            invariant
                i < keys@.len(),
                kv == key_views(keys@),
                is_index_perm(perm@, i as nat),
                pos <= perm@.len(),
                forall|q: int| 0 <= q < pos ==> !key_lt(kv[i as int], kv[#[trigger] perm@[q] as int]),
            decreases perm@.len() - pos,
        {
            pos = pos + 1;
        }
        proof {
            lemma_insert_keeps_order(kv, perm@, i, pos as int);
        }
        perm.insert(pos, i);
        i = i + 1;
    }
    perm
}

/// Rearranges `songs` so they are stably sorted by `keys` (one key per
/// song), ascending, or, when `descending`, the reverse of that order.
pub fn sort_songs_by_keys(songs: &mut Vec<Song>, keys: &Vec<SortKey>, descending: bool)
    requires
        keys@.len() == old(songs)@.len(),
    ensures
        !descending ==> is_stable_sort(old(songs)@, final(songs)@, key_views(keys@)),
        descending ==> is_stable_sort(old(songs)@, final(songs)@.reverse(), key_views(keys@)),
{
    let perm = stable_order(keys);
    let n = songs.len();
    let mut out: Vec<Song> = Vec::new();
    let mut j: usize = 0;
    while j < n
        invariant
            n == songs@.len(),
            is_index_perm(perm@, n as nat),
            j <= n,
            out@.len() == j,
            forall|k: int| 0 <= k < j ==> #[trigger] out@[k] == songs@[(if descending {
                perm@[n - 1 - k]
            } else {
                perm@[k]
            }) as int],
        decreases n - j,
    {
        let idx = if descending { perm[n - 1 - j] } else { perm[j] };
        out.push(songs[idx].clone());
        j = j + 1;
    }
    proof {
        let ghost asc = if descending { out@.reverse() } else { out@ };
        assert forall|k: int| 0 <= k < asc.len() implies #[trigger] asc[k] == songs@[perm@[k] as int] by {
            if descending {
                assert(asc[k] == out@[n - 1 - k]);
            }
        }
        assert(permuted_by(songs@, asc, perm@));
    }
    *songs = out;
}

// ---------------------------------------------------------------------------
// The sort options
// ---------------------------------------------------------------------------

impl SortOption {
    pub const ALL: [SortOption; 13] = [
        SortOption::TitleAsc,
        SortOption::TitleDesc,
        SortOption::ArtistAsc,
        SortOption::ArtistDesc,
        SortOption::AlbumAsc,
        SortOption::AlbumDesc,
        SortOption::DurationAsc,
        SortOption::DurationDesc,
        SortOption::TrackNoAsc,
        SortOption::TrackNoDesc,
        SortOption::FilenameAsc,
        SortOption::FilenameDesc,
        SortOption::Shuffle,
    ];

    /// The text shown for the option in the sort menu.
    pub open spec fn spec_label(self) -> &'static str {
        match self {
            SortOption::TitleAsc => "Title \u{2191}",
            SortOption::TitleDesc => "Title \u{2193}",
            SortOption::ArtistAsc => "Artist \u{2191}",
            SortOption::ArtistDesc => "Artist \u{2193}",
            SortOption::AlbumAsc => "Album \u{2191}",
            SortOption::AlbumDesc => "Album \u{2193}",
            SortOption::DurationAsc => "Duration \u{2191}",
            SortOption::DurationDesc => "Duration \u{2193}",
            SortOption::TrackNoAsc => "Track # \u{2191}",
            SortOption::TrackNoDesc => "Track # \u{2193}",
            SortOption::FilenameAsc => "Filename \u{2191}",
            SortOption::FilenameDesc => "Filename \u{2193}",
            SortOption::Shuffle => "Shuffle",
        }
    }

    pub fn label(self) -> (r: &'static str)
        ensures
            r == self.spec_label(),
    {
        match self {
            SortOption::TitleAsc => "Title \u{2191}",
            SortOption::TitleDesc => "Title \u{2193}",
            SortOption::ArtistAsc => "Artist \u{2191}",
            SortOption::ArtistDesc => "Artist \u{2193}",
            SortOption::AlbumAsc => "Album \u{2191}",
            SortOption::AlbumDesc => "Album \u{2193}",
            SortOption::DurationAsc => "Duration \u{2191}",
            SortOption::DurationDesc => "Duration \u{2193}",
            SortOption::TrackNoAsc => "Track # \u{2191}",
            SortOption::TrackNoDesc => "Track # \u{2193}",
            SortOption::FilenameAsc => "Filename \u{2191}",
            SortOption::FilenameDesc => "Filename \u{2193}",
            SortOption::Shuffle => "Shuffle",
        }
    }

    /// Whether the option lists songs in the reverse of its key order.
    pub open spec fn is_descending(self) -> bool {
        self is TitleDesc || self is ArtistDesc || self is AlbumDesc || self is DurationDesc
            || self is TrackNoDesc || self is FilenameDesc
    }
}

/// The lower-cased file name of the song's path, or the empty text.
pub open spec fn spec_filename_lower(p: Seq<char>, windows: bool) -> Seq<char> {
    match spec_file_name(p, windows) {
        Some(n) => spec_lowercase(n),
        None => Seq::<char>::empty(),
    }
}

/// The key by which `opt` orders a song (ascending; descending options take
/// the reverse). Text keys are lower-cased, so they ignore case; a missing
/// track number sorts last in both directions.
pub open spec fn spec_sort_key(opt: SortOption, s: Song, windows: bool) -> (int, Seq<char>) {
    match opt {
        SortOption::TitleAsc | SortOption::TitleDesc => (0, spec_lowercase(s.title@)),
        SortOption::ArtistAsc | SortOption::ArtistDesc => (0, spec_lowercase(s.artist@)),
        SortOption::AlbumAsc | SortOption::AlbumDesc => (0, spec_lowercase(s.album@)),
        SortOption::DurationAsc | SortOption::DurationDesc => (
            s.duration_ns as int,
            Seq::<char>::empty(),
        ),
        SortOption::TrackNoAsc => (
            match s.track_no {
                Some(t) => t as int,
                None => u32::MAX as int,
            },
            Seq::<char>::empty(),
        ),
        SortOption::TrackNoDesc => (
            match s.track_no {
                Some(t) => t as int,
                None => 0,
            },
            Seq::<char>::empty(),
        ),
        SortOption::FilenameAsc | SortOption::FilenameDesc => (
            0,
            spec_filename_lower(s.path@, windows),
        ),
        SortOption::Shuffle => (0, Seq::<char>::empty()),
    }
}

pub open spec fn spec_sort_keys(songs: Seq<Song>, opt: SortOption, windows: bool) -> Seq<(int, Seq<char>)> {
    songs.map_values(|s: Song| spec_sort_key(opt, s, windows))
}

/// `new` is `old` in the order `opt` gives (for an order other than shuffle).
pub open spec fn sorted_by_option(old: Seq<Song>, new: Seq<Song>, opt: SortOption, windows: bool) -> bool {
    let keys = spec_sort_keys(old, opt, windows);
    if opt.is_descending() {
        is_stable_sort(old, new.reverse(), keys)
    } else {
        is_stable_sort(old, new, keys)
    }
}

/// Every index below `n` occurs in an index permutation of `n`.
proof fn lemma_index_perm_onto(p: Seq<usize>, n: nat, v: int) -> (m: int)
    requires
        is_index_perm(p, n),
        0 <= v < n,
    ensures
        0 <= m < n,
        p[m] == v,
{
    let q = p.map_values(|x: usize| x as int);
    assert(q.no_duplicates()) by {
        assert forall|i: int, j: int| 0 <= i < q.len() && 0 <= j < q.len() && i != j implies q[i] != q[j] by {
            if i < j {
                assert(p[i] != p[j]);
            } else {
                assert(p[j] != p[i]);
            }
        }
    }
    q.unique_seq_to_set();
    lemma_int_range(0, n as int);
    assert(q.to_set().subset_of(set_int_range(0, n as int))) by {
        assert forall|x: int| q.to_set().contains(x) implies set_int_range(0, n as int).contains(x) by {
            let k = choose|k: int| 0 <= k < q.len() && q[k] == x;
            assert(p[k] < n);
        }
    }
    lemma_subset_equality(q.to_set(), set_int_range(0, n as int));
    assert(set_int_range(0, n as int).contains(v));
    assert(q.to_set().contains(v));
    let m = choose|m: int| 0 <= m < q.len() && q[m] == v;
    m
}

/// The order in which a stable sort puts items: by key, then by position.
pub open spec fn placed_before(keys: Seq<(int, Seq<char>)>, a: int, b: int) -> bool {
    key_lt(keys[a], keys[b]) || (keys[a] == keys[b] && a < b)
}

proof fn lemma_sorted_stably_before(keys: Seq<(int, Seq<char>)>, p: Seq<usize>, i: int, j: int)
    requires
        sorted_stably(keys, p),
        0 <= i < j < p.len(),
    ensures
        placed_before(keys, p[i] as int, p[j] as int),
{
    let a = keys[p[i] as int];
    let b = keys[p[j] as int];
    if !key_lt(a, b) {
        lemma_key_total(a, b);
    }
}

proof fn lemma_placed_before_asymmetric(keys: Seq<(int, Seq<char>)>, a: int, b: int)
    ensures
        !(placed_before(keys, a, b) && placed_before(keys, b, a)),
{
    if key_lt(keys[a], keys[b]) && key_lt(keys[b], keys[a]) {
        lemma_key_transitive(keys[a], keys[b], keys[a]);
        lemma_key_irreflexive(keys[a]);
    } else if key_lt(keys[a], keys[b]) {
        lemma_key_irreflexive(keys[a]);
    } else if key_lt(keys[b], keys[a]) {
        lemma_key_irreflexive(keys[b]);
    }
}

/// There is only one stable order of given keys.
proof fn lemma_stable_order_unique(keys: Seq<(int, Seq<char>)>, p: Seq<usize>, q: Seq<usize>)
    requires
        is_index_perm(p, keys.len()),
        is_index_perm(q, keys.len()),
        sorted_stably(keys, p),
        sorted_stably(keys, q),
    ensures
        p == q,
{
    let n = keys.len();
    assert forall|i: int| 0 <= i < n implies p[i] == q[i] by {
        lemma_stable_order_agrees(keys, p, q, i);
    }
    assert(p =~= q);
}

proof fn lemma_stable_order_agrees(keys: Seq<(int, Seq<char>)>, p: Seq<usize>, q: Seq<usize>, i: int)
    requires
        is_index_perm(p, keys.len()),
        is_index_perm(q, keys.len()),
        sorted_stably(keys, p),
        sorted_stably(keys, q),
        0 <= i < keys.len(),
    ensures
        p[i] == q[i],
    decreases i,
{
    let n = keys.len();
    if p[i] != q[i] {
        let m = lemma_index_perm_onto(p, n, q[i] as int);
        let m2 = lemma_index_perm_onto(q, n, p[i] as int);
        if m < i {
            lemma_stable_order_agrees(keys, p, q, m);
            assert(q[m] == q[i]);
        }
        if m2 < i {
            lemma_stable_order_agrees(keys, p, q, m2);
            assert(p[m2] == p[i]);
        }
        assert(m > i && m2 > i) by {
            if m == i {
                assert(p[i] == q[i]);
            }
            if m2 == i {
                assert(q[i] == p[i]);
            }
            if m < i {
                assert(q[m] != q[i]);
            }
            if m2 < i {
                assert(p[m2] != p[i]);
            }
        }
        lemma_sorted_stably_before(keys, p, i, m);
        lemma_sorted_stably_before(keys, q, i, m2);
        lemma_placed_before_asymmetric(keys, p[i] as int, q[i] as int);
    }
}

/// There is only one stable sort of `old` by `keys`.
pub proof fn lemma_stable_sort_unique<T>(old: Seq<T>, a: Seq<T>, b: Seq<T>, keys: Seq<(int, Seq<char>)>)
    requires
        is_stable_sort(old, a, keys),
        is_stable_sort(old, b, keys),
    ensures
        a == b,
{
    let p = choose|p: Seq<usize>| permuted_by(old, a, p) && sorted_stably(keys, p);
    let q = choose|q: Seq<usize>| permuted_by(old, b, q) && sorted_stably(keys, q);
    lemma_stable_order_unique(keys, p, q);
    assert(a =~= b);
}

/// On one platform, the descending order by title, artist, album, duration
/// or file name is the ascending order reversed, ties included.
#[verifier::spinoff_prover]
pub proof fn lemma_descending_reverses_ascending(
    old: Seq<Song>,
    asc: Seq<Song>,
    desc: Seq<Song>,
    up: SortOption,
    down: SortOption,
    w: bool,
)
    requires
        (up == SortOption::TitleAsc && down == SortOption::TitleDesc) || (up == SortOption::ArtistAsc
            && down == SortOption::ArtistDesc) || (up == SortOption::AlbumAsc && down == SortOption::AlbumDesc)
            || (up == SortOption::DurationAsc && down == SortOption::DurationDesc) || (up
            == SortOption::FilenameAsc && down == SortOption::FilenameDesc),
        sorted_by_option(old, asc, up, w),
        sorted_by_option(old, desc, down, w),
    ensures
        desc == asc.reverse(),
{
    let k = spec_sort_keys(old, up, w);
    assert(k =~= spec_sort_keys(old, down, w)) by {
        assert forall|i: int| 0 <= i < old.len() implies #[trigger] spec_sort_key(up, old[i], w) == spec_sort_key(
            down,
            old[i],
            w,
        ) by {}
    }
    assert(!up.is_descending() && down.is_descending());
    assert(is_stable_sort(old, asc, k));
    assert(is_stable_sort(old, desc.reverse(), k));
    lemma_stable_sort_unique(old, asc, desc.reverse(), k);
    assert(desc =~= desc.reverse().reverse());
}

/// A track number, or `missing` for a song without one.
pub open spec fn track_or(t: Option<u32>, missing: int) -> int {
    match t {
        Some(n) => n as int,
        None => missing,
    }
}

/// In a sorted list, no song's key is below the key of a song before it
/// (after it, for a descending option).
proof fn lemma_sorted_keys_in_order(old: Seq<Song>, new: Seq<Song>, opt: SortOption, w: bool)
    requires
        sorted_by_option(old, new, opt, w),
    ensures
        new.len() == old.len(),
        !opt.is_descending() ==> forall|i: int, j: int|
            0 <= i < j < new.len() ==> !key_lt(spec_sort_key(opt, #[trigger] new[j], w), spec_sort_key(opt, #[trigger] new[i], w)),
        opt.is_descending() ==> forall|i: int, j: int|
            0 <= i < j < new.len() ==> !key_lt(spec_sort_key(opt, #[trigger] new[i], w), spec_sort_key(opt, #[trigger] new[j], w)),
{
    let keys = spec_sort_keys(old, opt, w);
    let sorted = if opt.is_descending() { new.reverse() } else { new };
    assert(is_stable_sort(old, sorted, keys));
    let p = choose|p: Seq<usize>| permuted_by(old, sorted, p) && sorted_stably(keys, p);
    assert(sorted.len() == old.len());
    assert forall|a: int, b: int| 0 <= a < b < sorted.len() implies !key_lt(
        spec_sort_key(opt, #[trigger] sorted[b], w),
        spec_sort_key(opt, #[trigger] sorted[a], w),
    ) by {
        assert(!key_lt(keys[p[b] as int], keys[p[a] as int]));
        assert(sorted[a] == old[p[a] as int] && sorted[b] == old[p[b] as int]);
    }
    if opt.is_descending() {
        assert forall|i: int, j: int| 0 <= i < j < new.len() implies !key_lt(
            spec_sort_key(opt, #[trigger] new[i], w),
            spec_sort_key(opt, #[trigger] new[j], w),
        ) by {
            let n = new.len() as int;
            assert(sorted[n - 1 - j] == new[j] && sorted[n - 1 - i] == new[i]);
        }
    }
}

/// What each order compares, field by field: after sorting by title, artist
/// or album, no song's lower-cased title, artist or album comes before that
/// of a song earlier in the list (later, for the descending orders); by
/// duration, durations never fall (never rise); by track number, numbers
/// never fall (never rise), a song without one counting as after every other
/// either way; by file name, lower-cased file names never fall (never rise).
pub proof fn lemma_sort_orders_by_field(old: Seq<Song>, new: Seq<Song>, opt: SortOption, w: bool)
    requires
        sorted_by_option(old, new, opt, w),
    ensures
        opt == SortOption::TitleAsc ==> forall|i: int, j: int|
            #![trigger new[i], new[j]]
            0 <= i < j < new.len() ==> !lex_lt(spec_lowercase(new[j].title@), spec_lowercase(new[i].title@)),
        opt == SortOption::TitleDesc ==> forall|i: int, j: int|
            #![trigger new[i], new[j]]
            0 <= i < j < new.len() ==> !lex_lt(spec_lowercase(new[i].title@), spec_lowercase(new[j].title@)),
        opt == SortOption::ArtistAsc ==> forall|i: int, j: int|
            #![trigger new[i], new[j]]
            0 <= i < j < new.len() ==> !lex_lt(spec_lowercase(new[j].artist@), spec_lowercase(new[i].artist@)),
        opt == SortOption::ArtistDesc ==> forall|i: int, j: int|
            #![trigger new[i], new[j]]
            0 <= i < j < new.len() ==> !lex_lt(spec_lowercase(new[i].artist@), spec_lowercase(new[j].artist@)),
        opt == SortOption::AlbumAsc ==> forall|i: int, j: int|
            #![trigger new[i], new[j]]
            0 <= i < j < new.len() ==> !lex_lt(spec_lowercase(new[j].album@), spec_lowercase(new[i].album@)),
        opt == SortOption::AlbumDesc ==> forall|i: int, j: int|
            #![trigger new[i], new[j]]
            0 <= i < j < new.len() ==> !lex_lt(spec_lowercase(new[i].album@), spec_lowercase(new[j].album@)),
        opt == SortOption::DurationAsc ==> forall|i: int, j: int|
            #![trigger new[i], new[j]]
            0 <= i < j < new.len() ==> new[i].duration_ns <= new[j].duration_ns,
        opt == SortOption::DurationDesc ==> forall|i: int, j: int|
            #![trigger new[i], new[j]]
            0 <= i < j < new.len() ==> new[i].duration_ns >= new[j].duration_ns,
        opt == SortOption::TrackNoAsc ==> forall|i: int, j: int|
            #![trigger new[i], new[j]]
            0 <= i < j < new.len() ==> track_or(new[i].track_no, u32::MAX as int) <= track_or(new[j].track_no, u32::MAX as int),
        opt == SortOption::TrackNoDesc ==> forall|i: int, j: int|
            #![trigger new[i], new[j]]
            0 <= i < j < new.len() ==> track_or(new[i].track_no, 0) >= track_or(new[j].track_no, 0),
        opt == SortOption::FilenameAsc ==> forall|i: int, j: int|
            #![trigger new[i], new[j]]
            0 <= i < j < new.len() ==> !lex_lt(spec_filename_lower(new[j].path@, w), spec_filename_lower(new[i].path@, w)),
        opt == SortOption::FilenameDesc ==> forall|i: int, j: int|
            #![trigger new[i], new[j]]
            0 <= i < j < new.len() ==> !lex_lt(spec_filename_lower(new[i].path@, w), spec_filename_lower(new[j].path@, w)),
{
    lemma_sorted_keys_in_order(old, new, opt, w);
    match opt {
        SortOption::TitleAsc => {
            assert forall|i: int, j: int| #![trigger new[i], new[j]] 0 <= i < j < new.len() implies !lex_lt(spec_lowercase(new[j].title@), spec_lowercase(new[i].title@)) by {
                assert(!key_lt(spec_sort_key(opt, new[j], w), spec_sort_key(opt, new[i], w)));
            }
        },
        SortOption::TitleDesc => {
            assert forall|i: int, j: int| #![trigger new[i], new[j]] 0 <= i < j < new.len() implies !lex_lt(spec_lowercase(new[i].title@), spec_lowercase(new[j].title@)) by {
                assert(!key_lt(spec_sort_key(opt, new[i], w), spec_sort_key(opt, new[j], w)));
            }
        },
        SortOption::ArtistAsc => {
            assert forall|i: int, j: int| #![trigger new[i], new[j]] 0 <= i < j < new.len() implies !lex_lt(spec_lowercase(new[j].artist@), spec_lowercase(new[i].artist@)) by {
                assert(!key_lt(spec_sort_key(opt, new[j], w), spec_sort_key(opt, new[i], w)));
            }
        },
        SortOption::ArtistDesc => {
            assert forall|i: int, j: int| #![trigger new[i], new[j]] 0 <= i < j < new.len() implies !lex_lt(spec_lowercase(new[i].artist@), spec_lowercase(new[j].artist@)) by {
                assert(!key_lt(spec_sort_key(opt, new[i], w), spec_sort_key(opt, new[j], w)));
            }
        },
        SortOption::AlbumAsc => {
            assert forall|i: int, j: int| #![trigger new[i], new[j]] 0 <= i < j < new.len() implies !lex_lt(spec_lowercase(new[j].album@), spec_lowercase(new[i].album@)) by {
                assert(!key_lt(spec_sort_key(opt, new[j], w), spec_sort_key(opt, new[i], w)));
            }
        },
        SortOption::AlbumDesc => {
            assert forall|i: int, j: int| #![trigger new[i], new[j]] 0 <= i < j < new.len() implies !lex_lt(spec_lowercase(new[i].album@), spec_lowercase(new[j].album@)) by {
                assert(!key_lt(spec_sort_key(opt, new[i], w), spec_sort_key(opt, new[j], w)));
            }
        },
        SortOption::DurationAsc => {
            assert forall|i: int, j: int| #![trigger new[i], new[j]] 0 <= i < j < new.len() implies new[i].duration_ns <= new[j].duration_ns by {
                assert(!key_lt(spec_sort_key(opt, new[j], w), spec_sort_key(opt, new[i], w)));
            }
        },
        SortOption::DurationDesc => {
            assert forall|i: int, j: int| #![trigger new[i], new[j]] 0 <= i < j < new.len() implies new[i].duration_ns >= new[j].duration_ns by {
                assert(!key_lt(spec_sort_key(opt, new[i], w), spec_sort_key(opt, new[j], w)));
            }
        },
        SortOption::TrackNoAsc => {
            assert forall|i: int, j: int| #![trigger new[i], new[j]] 0 <= i < j < new.len() implies track_or(new[i].track_no, u32::MAX as int) <= track_or(new[j].track_no, u32::MAX as int) by {
                assert(!key_lt(spec_sort_key(opt, new[j], w), spec_sort_key(opt, new[i], w)));
            }
        },
        SortOption::TrackNoDesc => {
            assert forall|i: int, j: int| #![trigger new[i], new[j]] 0 <= i < j < new.len() implies track_or(new[i].track_no, 0) >= track_or(new[j].track_no, 0) by {
                assert(!key_lt(spec_sort_key(opt, new[i], w), spec_sort_key(opt, new[j], w)));
            }
        },
        SortOption::FilenameAsc => {
            assert forall|i: int, j: int| #![trigger new[i], new[j]] 0 <= i < j < new.len() implies !lex_lt(spec_filename_lower(new[j].path@, w), spec_filename_lower(new[i].path@, w)) by {
                assert(!key_lt(spec_sort_key(opt, new[j], w), spec_sort_key(opt, new[i], w)));
            }
        },
        SortOption::FilenameDesc => {
            assert forall|i: int, j: int| #![trigger new[i], new[j]] 0 <= i < j < new.len() implies !lex_lt(spec_filename_lower(new[i].path@, w), spec_filename_lower(new[j].path@, w)) by {
                assert(!key_lt(spec_sort_key(opt, new[i], w), spec_sort_key(opt, new[j], w)));
            }
        },
        SortOption::Shuffle => {},
    }
}

/// The lower-cased file name of `s`'s path, or the empty string.
pub fn filename_lower(s: &Song, windows: bool) -> (r: String)
    ensures
        r@ == spec_filename_lower(s.path@, windows),
{
    match file_name_on(s.path.as_str(), windows) {
        Some(n) => lowercase(n.as_str()),
        None => {
            let e = String::new();
            assert(e@ =~= Seq::<char>::empty());
            e
        },
    }
}

fn text_key(s: &str) -> (k: SortKey)
    ensures
        k@ == (0int, spec_lowercase(s@)),
{
    let l = lowercase(s);
    SortKey { num: 0, text: chars_of(l.as_str()) }
}

fn num_key(n: u128) -> (k: SortKey)
    ensures
        k@ == (n as int, Seq::<char>::empty()),
{
    let k = SortKey { num: n, text: Vec::new() };
    assert(k.text@ =~= Seq::<char>::empty());
    k
}

/// The key of `s` under `opt` (not a shuffle).
pub fn sort_key(opt: SortOption, s: &Song, windows: bool) -> (k: SortKey)
    requires
        opt != SortOption::Shuffle,
    ensures
        k@ == spec_sort_key(opt, *s, windows),
{
    match opt {
        SortOption::TitleAsc | SortOption::TitleDesc => text_key(s.title.as_str()),
        SortOption::ArtistAsc | SortOption::ArtistDesc => text_key(s.artist.as_str()),
        SortOption::AlbumAsc | SortOption::AlbumDesc => text_key(s.album.as_str()),
        SortOption::DurationAsc | SortOption::DurationDesc => num_key(s.duration_ns),
        SortOption::TrackNoAsc => num_key(
            match s.track_no {
                Some(t) => t as u128,
                None => u32::MAX as u128,
            },
        ),
        SortOption::TrackNoDesc => num_key(
            match s.track_no {
                Some(t) => t as u128,
                None => 0,
            },
        ),
        _ => {
            let l = filename_lower(s, windows);
            SortKey { num: 0, text: chars_of(l.as_str()) }
        },
    }
}

/// The shuffle key of a song: a fresh `DefaultHasher` fed the song id and
/// the nonce, each as its eight little-endian bytes.
pub open spec fn spec_shuffle_key(id: i64, nonce: u64) -> u64 {
    DefaultHasher::spec_finish(seq![spec_u64_to_le_bytes(id as u64), spec_u64_to_le_bytes(nonce)])
}

/// The shuffle keys of `s` under `nonce`, as sort keys.
pub open spec fn shuffle_keys(s: Seq<Song>, nonce: u64) -> Seq<(int, Seq<char>)> {
    s.map_values(|x: Song| (spec_shuffle_key(x.id, nonce) as int, Seq::<char>::empty()))
}

fn shuffle_key(id: i64, nonce: u64) -> (r: u64)
    ensures
        r == spec_shuffle_key(id, nonce),
{
    let mut h = DefaultHasher::new();
    let a = u64_to_le_bytes(id as u64);
    h.write(a.as_slice());
    let b = u64_to_le_bytes(nonce);
    h.write(b.as_slice());
    assert(h@ =~= seq![spec_u64_to_le_bytes(id as u64), spec_u64_to_le_bytes(nonce)]);
    h.finish()
}

#[verifier::external_type_specification]
#[verifier::external_body]
pub struct ExSystemTime(std::time::SystemTime);

#[verifier::external_type_specification]
#[verifier::external_body]
pub struct ExSystemTimeError(std::time::SystemTimeError);

/// Calls `SystemTime::now`. Nothing is stated of the clock.
#[verifier::external_body]
fn system_now() -> SystemTime {
    SystemTime::now()
}

/// Calls `SystemTime::duration_since` with the Unix epoch: the time since
/// the epoch, or an error for a time before it. Nothing is stated of it.
#[verifier::external_body]
fn since_unix_epoch(t: &SystemTime) -> Result<Duration, SystemTimeError> {
    t.duration_since(SystemTime::UNIX_EPOCH)
}

/// Calls `Duration::as_nanos`. Nothing is stated of it (the library holds
/// no model of `Duration`).
#[verifier::external_body]
fn duration_nanos(d: &Duration) -> u128 {
    d.as_nanos()
}

/// Nanoseconds since the Unix epoch per the system clock, truncated to 64
/// bits, or 0 if the clock is before the epoch.
fn clock_nanos() -> u64 {
    let now = system_now();
    match since_unix_epoch(&now) {
        Ok(d) => duration_nanos(&d) as u64,
        Err(_) => 0,
    }
}

/// Orders `songs` by `opt` on a platform that does (`windows`) or does not
/// use `\` separators; a shuffle is a stable sort by the songs' shuffle keys
/// under `nonce`.
pub fn sort_songs_on(songs: &mut Vec<Song>, opt: SortOption, windows: bool, nonce: u64)
    ensures
        opt != SortOption::Shuffle ==> sorted_by_option(old(songs)@, final(songs)@, opt, windows),
        opt == SortOption::Shuffle ==> is_stable_sort(old(songs)@, final(songs)@, shuffle_keys(old(songs)@, nonce)),
{
    let ghost old_songs = songs@;
    let mut keys: Vec<SortKey> = Vec::new();
    let mut i: usize = 0;
    while i < songs.len()
        invariant
            songs@ == old_songs,
            i <= songs@.len(),
            keys@.len() == i,
            opt != SortOption::Shuffle ==> forall|k: int| 0 <= k < i ==> #[trigger] keys@[k]@ == spec_sort_key(opt, songs@[k], windows),
            opt == SortOption::Shuffle ==> forall|k: int| 0 <= k < i ==> #[trigger] keys@[k]@ == (spec_shuffle_key(songs@[k].id, nonce) as int, Seq::<char>::empty()),
        decreases songs@.len() - i,
    {
        let k = if opt == SortOption::Shuffle {
            let k = SortKey { num: shuffle_key(songs[i].id, nonce) as u128, text: Vec::new() };
            assert(k.text@ =~= Seq::<char>::empty());
            k
        } else {
            sort_key(opt, &songs[i], windows)
        };
        keys.push(k);
        i = i + 1;
    }
    let descending = match opt {
        SortOption::TitleDesc | SortOption::ArtistDesc | SortOption::AlbumDesc
        | SortOption::DurationDesc | SortOption::TrackNoDesc | SortOption::FilenameDesc => true,
        _ => false,
    };
    proof {
        if opt != SortOption::Shuffle {
            assert(key_views(keys@) =~= spec_sort_keys(old_songs, opt, windows));
        } else {
            assert(key_views(keys@) =~= shuffle_keys(old_songs, nonce));
        }
    }
    sort_songs_by_keys(songs, &keys, descending);
}

/// Orders `songs` by `opt` on this platform; a shuffle uses the current time
/// as its nonce.
pub fn sort_songs(songs: &mut Vec<Song>, opt: SortOption)
    ensures
        opt != SortOption::Shuffle ==> (sorted_by_option(old(songs)@, final(songs)@, opt, false)
            || sorted_by_option(old(songs)@, final(songs)@, opt, true)),
        opt == SortOption::Shuffle ==> exists|nonce: u64| is_stable_sort(old(songs)@, final(songs)@, #[trigger] shuffle_keys(old(songs)@, nonce)),
        opt == SortOption::Shuffle ==> is_permutation(old(songs)@, final(songs)@),
{
    let nonce = if opt == SortOption::Shuffle { clock_nanos() } else { 0 };
    sort_songs_on(songs, opt, platform_uses_backslash(), nonce);
    proof {
        if opt == SortOption::Shuffle {
            assert(is_stable_sort(old(songs)@, songs@, shuffle_keys(old(songs)@, nonce)));
            let p = choose|p: Seq<usize>| permuted_by(old(songs)@, songs@, p) && sorted_stably(shuffle_keys(old(songs)@, nonce), p);
            assert(permuted_by(old(songs)@, songs@, p));
        }
    }
}

} // verus!
