//! The song list screen's view: the library filtered by the search text,
//! ordered by the chosen sort, cut into pages; cached per library version,
//! sort and search text.

use vstd::prelude::*;
use crate::data::library::Library;
use crate::domain::song::Song;
use crate::domain::sort::SortOption;
use crate::domain::sort::sort_songs;
use crate::domain::sort::sorted_by_option;
use crate::domain::sort::is_permutation;
use crate::text::spec_lowercase;
use crate::text::lowercase;
use crate::text::chars_of;

verus! {

/// Songs per page.
pub const PAGE_SIZE: usize = 50;

/// `needle` occurs in `hay`.
pub open spec fn contains_text(hay: Seq<char>, needle: Seq<char>) -> bool {
    exists|i: int| 0 <= i && i + needle.len() <= hay.len() && #[trigger] hay.subrange(i, i + needle.len()) == needle
}

fn matches_at(hay: &[char], needle: &[char], i: usize) -> (r: bool)
    requires
        i + needle@.len() <= hay@.len(),
    ensures
        r == (hay@.subrange(i as int, i + needle@.len()) == needle@),
{
    let hl = hay.len();
    let mut k: usize = 0;
    while k < needle.len()
        invariant
            hl == hay@.len(),
            i + needle@.len() <= hay@.len(),
            k <= needle@.len(),
            forall|m: int| 0 <= m < k ==> hay@[i + m] == needle@[m],
        decreases needle@.len() - k,
    {
        if hay[i + k] != needle[k] {
            assert(hay@.subrange(i as int, i + needle@.len())[k as int] != needle@[k as int]);
            return false;
        }
        k = k + 1;
    }
    assert(hay@.subrange(i as int, i + needle@.len()) =~= needle@);
    true
}

pub fn contains_text_exec(hay: &[char], needle: &[char]) -> (r: bool)
    ensures
        r == contains_text(hay@, needle@),
{
    if needle.len() > hay.len() {
        return false;
    }
    let last = hay.len() - needle.len();
    let mut i: usize = 0;
    loop
        invariant
            last == hay@.len() - needle@.len(),
            needle@.len() <= hay@.len(),
            i <= last,
            forall|j: int| 0 <= j < i ==> #[trigger] hay@.subrange(j, j + needle@.len()) != needle@,
        decreases last - i,
    {
        if matches_at(hay, needle, i) {
            return true;
        }
        if i == last {
            proof {
                if contains_text(hay@, needle@) {
                    let j = choose|j: int| 0 <= j && j + needle@.len() <= hay@.len() && #[trigger] hay@.subrange(j, j + needle@.len()) == needle@;
                    assert(j <= i);
                }
            }
            return false;
        }
        i = i + 1;
    }
}

/// A song matches the lower-cased search text when its lower-cased title,
/// artist or album contains it.
pub open spec fn song_matches(s: Song, q: Seq<char>) -> bool {
    contains_text(spec_lowercase(s.title@), q) || contains_text(spec_lowercase(s.artist@), q)
        || contains_text(spec_lowercase(s.album@), q)
}

/// The songs of `s` that match `q`, in order.
pub open spec fn matching(s: Seq<Song>, q: Seq<char>) -> Seq<Song>
    decreases s.len(),
{
    if s.len() == 0 {
        s
    } else {
        let r = matching(s.drop_last(), q);
        if song_matches(s.last(), q) {
            r.push(s.last())
        } else {
            r
        }
    }
}

/// What the search text selects: every song for an empty text, otherwise the
/// matching ones.
pub open spec fn search(s: Seq<Song>, query: Seq<char>) -> Seq<Song> {
    let q = spec_lowercase(query);
    if q.len() == 0 {
        s
    } else {
        matching(s, q)
    }
}

/// The songs whose lower-cased title, artist or album contains `q`.
pub open spec fn title_artist_or_album_has(q: Seq<char>) -> spec_fn(Song) -> bool {
    |x: Song|
        contains_text(spec_lowercase(x.title@), q) || contains_text(spec_lowercase(x.artist@), q) || contains_text(
            spec_lowercase(x.album@),
            q,
        )
}

proof fn lemma_matching_is_filter(s: Seq<Song>, q: Seq<char>)
    ensures
        matching(s, q) == s.filter(title_artist_or_album_has(q)),
    decreases s.len(),
{
    reveal(Seq::filter);
    if s.len() > 0 {
        lemma_matching_is_filter(s.drop_last(), q);
    }
}

/// The search: an empty (lower-cased) text keeps every song; otherwise the
/// songs kept, in their order, are exactly those whose lower-cased title,
/// artist or album contains the lower-cased text. So a song whose album (or
/// title, or artist) contains it is shown, and one where none does is not.
pub proof fn lemma_search_by_title_artist_album(s: Seq<Song>, query: Seq<char>)
    ensures
        spec_lowercase(query).len() == 0 ==> search(s, query) == s,
        spec_lowercase(query).len() > 0 ==> search(s, query) == s.filter(title_artist_or_album_has(spec_lowercase(query))),
        forall|i: int|
            0 <= i < s.len() && contains_text(spec_lowercase(#[trigger] s[i].album@), spec_lowercase(query))
                ==> search(s, query).contains(s[i]),
        forall|i: int|
            0 <= i < s.len() && contains_text(spec_lowercase(#[trigger] s[i].title@), spec_lowercase(query))
                ==> search(s, query).contains(s[i]),
        forall|i: int|
            0 <= i < s.len() && contains_text(spec_lowercase(#[trigger] s[i].artist@), spec_lowercase(query))
                ==> search(s, query).contains(s[i]),
{
    let q = spec_lowercase(query);
    lemma_matching_is_filter(s, q);
    assert forall|i: int| 0 <= i < s.len() && (title_artist_or_album_has(q))(s[i]) implies search(s, query).contains(
        #[trigger] s[i],
    ) by {
        if q.len() > 0 {
            s.lemma_filter_contains(title_artist_or_album_has(q), i);
        } else {
            assert(search(s, query)[i] == s[i]);
        }
    }
    assert forall|i: int| 0 <= i < s.len() && contains_text(spec_lowercase(#[trigger] s[i].album@), q) implies search(
        s,
        query,
    ).contains(s[i]) by {
        assert((title_artist_or_album_has(q))(s[i]));
    }
    assert forall|i: int| 0 <= i < s.len() && contains_text(spec_lowercase(#[trigger] s[i].title@), q) implies search(
        s,
        query,
    ).contains(s[i]) by {
        assert((title_artist_or_album_has(q))(s[i]));
    }
    assert forall|i: int| 0 <= i < s.len() && contains_text(spec_lowercase(#[trigger] s[i].artist@), q) implies search(
        s,
        query,
    ).contains(s[i]) by {
        assert((title_artist_or_album_has(q))(s[i]));
    }
}

fn text_contains(hay: &String, q: &Vec<char>) -> (r: bool)
    ensures
        r == contains_text(spec_lowercase(hay@), q@),
{
    let l = lowercase(hay.as_str());
    let lc = chars_of(l.as_str());
    contains_text_exec(lc.as_slice(), q.as_slice())
}

/// The number of pages for `total` songs, and the range of songs on page
/// `page`.
pub open spec fn spec_page_bounds(total: int, page: int) -> (int, int, int) {
    let pages = (total + PAGE_SIZE - 1) / (PAGE_SIZE as int);
    let start = page * PAGE_SIZE;
    let end = if start + PAGE_SIZE < total { start + PAGE_SIZE } else { total };
    (pages, start, end)
}

/// Pages hold 50 songs: page `p` shows songs `50 p` up to `50 p + 50` or the
/// end; there are just enough pages for all songs (none for no songs); and
/// song `i` is shown on page `i / 50`.
pub proof fn lemma_pages_of_fifty(total: int, page: int, i: int)
    requires
        total >= 0,
        page >= 0,
    ensures
        spec_page_bounds(total, page).1 == 50 * page,
        spec_page_bounds(total, page).2 == (if 50 * page + 50 < total { 50 * page + 50 } else { total }),
        total == 0 ==> spec_page_bounds(total, page).0 == 0,
        total > 0 ==> 50 * (spec_page_bounds(total, page).0 - 1) < total <= 50 * spec_page_bounds(total, page).0,
        0 <= i < total ==> spec_page_bounds(total, i / 50).1 <= i < spec_page_bounds(total, i / 50).2,
{
    let pages = (total + 49) / 50;
    assert(spec_page_bounds(total, page).0 == pages);
    assert(total > 0 ==> 50 * (pages - 1) < total <= 50 * pages) by (nonlinear_arith)
        requires
            pages == (total + 49) / 50,
            total >= 0,
    ;
    assert(0 <= i < total ==> 50 * (i / 50) <= i < 50 * (i / 50) + 50) by (nonlinear_arith);
}

pub fn page_bounds(total: usize, page: usize) -> (r: (usize, usize, usize))
    requires
        total + PAGE_SIZE <= usize::MAX,
        page * PAGE_SIZE + PAGE_SIZE <= usize::MAX,
    ensures
        (r.0 as int, r.1 as int, r.2 as int) == spec_page_bounds(total as int, page as int),
{
    let pages = (total + PAGE_SIZE - 1) / PAGE_SIZE;
    let start = page * PAGE_SIZE;
    let end = if start + PAGE_SIZE < total { start + PAGE_SIZE } else { total };
    (pages, start, end)
}

/// The song list screen's state.
pub struct AllSongsState {
    pub sort: SortOption,
    pub query: String,
    pub page: usize,
    pub cache_key: Option<(u64, SortOption, String)>,
    pub cached: Vec<Song>,
}

impl Default for AllSongsState {
    fn default() -> (s: Self)
        ensures
            s.sort == SortOption::TitleAsc,
            s.query@.len() == 0,
            s.page == 0,
            s.cache_key is None,
            s.cached@.len() == 0,
    {
        AllSongsState { sort: SortOption::TitleAsc, query: String::new(), page: 0, cache_key: None, cached: Vec::new() }
    }
}

impl AllSongsState {
    /// The cached view was built for library version `v` with the current
    /// sort and search text.
    pub open spec fn is_fresh(&self, v: u64) -> bool {
        &&& self.cache_key matches Some(k)
        &&& k.0 == v
        &&& k.1 == self.sort
        &&& k.2@ == self.query@
    }

    /// Rebuilds the view unless it is fresh: the library's songs selected by
    /// the search text, in the chosen order; a page past the end goes back
    /// to the first.
    pub fn compute_view(&mut self, library: &Library)
        requires
            old(self).page <= usize::MAX / PAGE_SIZE,
        ensures
            old(self).is_fresh(library.spec_version()) ==> *final(self) == *old(self),
            !old(self).is_fresh(library.spec_version()) ==> {
                let sel = search(library.spec_songs(), old(self).query@);
                &&& final(self).sort == old(self).sort
                &&& final(self).query == old(self).query
                &&& final(self).is_fresh(library.spec_version())
                &&& (old(self).sort != SortOption::Shuffle ==> (sorted_by_option(sel, final(self).cached@, old(self).sort, false)
                    || sorted_by_option(sel, final(self).cached@, old(self).sort, true)))
                &&& (old(self).sort == SortOption::Shuffle ==> is_permutation(sel, final(self).cached@))
                &&& final(self).page == (if old(self).page * PAGE_SIZE >= final(self).cached@.len() && old(self).page > 0 {
                    0
                } else {
                    old(self).page
                })
            },
    {
        let v = library.version();
        let fresh = match &self.cache_key {
            Some((kv, ks, kq)) => *kv == v && *ks == self.sort && kq.eq(&self.query),
            None => false,
        };
        if fresh {
            return;
        }
        let snapshot = library.songs_snapshot();
        let q = chars_of(lowercase(self.query.as_str()).as_str());
        let mut songs: Vec<Song>;
        if q.len() == 0 {
            songs = snapshot;
        } else {
            songs = Vec::new();
            let mut i: usize = 0;
            while i < snapshot.len()
                invariant
                    q@ == spec_lowercase(self.query@),
                    i <= snapshot@.len(),
                    songs@ == matching(snapshot@.take(i as int), q@),
                decreases snapshot@.len() - i,
            {
                assert(snapshot@.take(i + 1).drop_last() =~= snapshot@.take(i as int));
                assert(snapshot@.take(i + 1).last() == snapshot@[i as int]);
                let s = &snapshot[i];
                if text_contains(&s.title, &q) || text_contains(&s.artist, &q) || text_contains(&s.album, &q) {
                    songs.push(s.clone());
                }
                i = i + 1;
            }
            assert(snapshot@.take(snapshot@.len() as int) =~= snapshot@);
        }
        sort_songs(&mut songs, self.sort);
        self.cached = songs;
        self.cache_key = Some((v, self.sort, self.query.clone()));
        if self.page * PAGE_SIZE >= self.cached.len() && self.page > 0 {
            self.page = 0;
        }
    }
}

} // verus!
