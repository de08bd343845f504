//! The in-memory song library: the song list, its scan status, and a version
//! counter that changes with every change of the list.

use vstd::prelude::*;
use crate::domain::song::Song;
use crate::domain::song::spec_path_key;
use crate::domain::song::normalize_path_key_on;
use crate::paths::platform_uses_backslash;
use crate::playback::queue::keep_other;
use crate::playback::queue::lemma_keep_step;
use crate::playback::queue::lemma_keep_count_len;
use crate::playback::queue::lemma_keep_has_no_id;
use crate::playback::queue::count_id;
use crate::text::chars_of;

verus! {

/// Where the library is in its scan.
#[derive(Debug, Clone, Copy, PartialEq, Eq, Structural)]
pub enum LibraryStatus {
    Idle,
    Scanning,
    Ready,
}

/// The key of a song's path.
pub open spec fn song_key(s: Song, w: bool) -> Seq<char> {
    spec_path_key(s.path@, w)
}

pub open spec fn keys_of(s: Seq<Song>, w: bool) -> Seq<Seq<char>> {
    s.map_values(|x: Song| song_key(x, w))
}

/// `acc` followed by those of `items`, in order, whose path key is not
/// already present (in `acc` or among the items added before them).
pub open spec fn add_unique(acc: Seq<Song>, items: Seq<Song>, w: bool) -> Seq<Song>
    decreases items.len(),
{
    if items.len() == 0 {
        acc
    } else {
        let r = add_unique(acc, items.drop_last(), w);
        if keys_of(r, w).contains(song_key(items.last(), w)) {
            r
        } else {
            r.push(items.last())
        }
    }
}

/// No two songs share a path key.
pub open spec fn unique_keys(s: Seq<Song>, w: bool) -> bool {
    forall|i: int, j: int| 0 <= i < j < s.len() ==> song_key(#[trigger] s[i], w) != song_key(#[trigger] s[j], w)
}

/// The folder key with a trailing `/`.
pub open spec fn folder_prefix(folder: Seq<char>, w: bool) -> Seq<char> {
    let k = spec_path_key(folder, w);
    if k.len() > 0 && k.last() == '/' {
        k
    } else {
        k.push('/')
    }
}

/// `path` lies (at any depth) under `folder`: its key starts with the
/// folder's key followed by `/`.
pub open spec fn spec_under_folder(path: Seq<char>, folder: Seq<char>, w: bool) -> bool {
    let pre = folder_prefix(folder, w);
    let k = spec_path_key(path, w);
    pre.len() <= k.len() && k.subrange(0, pre.len() as int) == pre
}

/// The songs of `s` that do not lie under `folder`, in order.
pub open spec fn outside_folder(s: Seq<Song>, folder: Seq<char>, w: bool) -> Seq<Song>
    decreases s.len(),
{
    if s.len() == 0 {
        s
    } else {
        let r = outside_folder(s.drop_last(), folder, w);
        if spec_under_folder(s.last().path@, folder, w) {
            r
        } else {
            r.push(s.last())
        }
    }
}

/// The first song of `s` with id `id`.
pub open spec fn first_with_id(s: Seq<Song>, id: i64) -> Option<Song>
    decreases s.len(),
{
    if s.len() == 0 {
        None
    } else if s[0].id == id {
        Some(s[0])
    } else {
        first_with_id(s.drop_first(), id)
    }
}

/// The counter after one more change (it wraps, as an atomic add does).
pub open spec fn bumped(v: u64) -> u64 {
    if v == u64::MAX {
        0
    } else {
        (v + 1) as u64
    }
}

pub fn path_is_under_folder_on(path: &str, folder: &str, w: bool) -> (r: bool)
    ensures
        r == spec_under_folder(path@, folder@, w),
{
    let pk = chars_of(normalize_path_key_on(path, w).as_str());
    let mut fk = chars_of(normalize_path_key_on(folder, w).as_str());
    if !(fk.len() > 0 && fk[fk.len() - 1] == '/') {
        fk.push('/');
    }
    assert(fk@ == folder_prefix(folder@, w));
    if fk.len() > pk.len() {
        return false;
    }
    let mut i: usize = 0;
    while i < fk.len()
        invariant
            fk@.len() <= pk@.len(),
            fk@ == folder_prefix(folder@, w),
            pk@ == spec_path_key(path@, w),
            i <= fk@.len(),
            forall|j: int| 0 <= j < i ==> pk@[j] == fk@[j],
        decreases fk@.len() - i,
    {
        if pk[i] != fk[i] {
            assert(pk@.subrange(0, fk@.len() as int)[i as int] != fk@[i as int]);
            assert(pk@.subrange(0, fk@.len() as int) != fk@);
            return false;
        }
        i = i + 1;
    }
    assert(pk@.subrange(0, fk@.len() as int) =~= fk@);
    true
}

/// Whether `path` lies under `folder` on this platform.
pub fn path_is_under_folder(path: &str, folder: &str) -> (r: bool)
    ensures
        r == spec_under_folder(path@, folder@, false) || r == spec_under_folder(path@, folder@, true),
{
    path_is_under_folder_on(path, folder, platform_uses_backslash())
}

fn contains_key(keys: &Vec<Vec<char>>, k: &Vec<char>) -> (r: bool)
    ensures
        r == keys@.map_values(|v: Vec<char>| v@).contains(k@),
{
    let ghost kv = keys@.map_values(|v: Vec<char>| v@);
    let mut i: usize = 0;
    while i < keys.len()
        invariant
            kv == keys@.map_values(|v: Vec<char>| v@),
            i <= keys@.len(),
            forall|j: int| 0 <= j < i ==> kv[j] != k@,
        decreases keys@.len() - i,
    {
        if chars_eq(&keys[i], k) {
            assert(kv[i as int] == k@);
            return true;
        }
        i = i + 1;
    }
    false
}

fn chars_eq(a: &Vec<char>, b: &Vec<char>) -> (r: bool)
    ensures
        r == (a@ == b@),
{
    if a.len() != b.len() {
        return false;
    }
    let mut i: usize = 0;
    while i < a.len()
        invariant
            a@.len() == b@.len(),
            i <= a@.len(),
            forall|j: int| 0 <= j < i ==> a@[j] == b@[j],
        decreases a@.len() - i,
    {
        if a[i] != b[i] {
            return false;
        }
        i = i + 1;
    }
    assert(a@ =~= b@);
    true
}

fn key_chars(s: &Song, w: bool) -> (r: Vec<char>)
    ensures
        r@ == song_key(*s, w),
{
    chars_of(normalize_path_key_on(s.path.as_str(), w).as_str())
}

/// Appends to `acc` the songs of `items` whose path key is not yet present.
pub fn extend_unique(acc: &mut Vec<Song>, items: Vec<Song>, w: bool)
    ensures
        final(acc)@ == add_unique(old(acc)@, items@, w),
{
    let mut keys: Vec<Vec<char>> = Vec::new();
    let mut i: usize = 0;
    while i < acc.len()
        invariant
            i <= acc@.len(),
            keys@.map_values(|v: Vec<char>| v@) == keys_of(acc@.take(i as int), w),
        decreases acc@.len() - i,
    {
        let k = key_chars(&acc[i], w);
        keys.push(k);
        assert(keys_of(acc@.take(i + 1), w) =~= keys_of(acc@.take(i as int), w).push(song_key(acc@[i as int], w)));
        assert(keys@.map_values(|v: Vec<char>| v@) =~= keys_of(acc@.take(i as int), w).push(song_key(acc@[i as int], w)));
        i = i + 1;
    }
    assert(acc@.take(acc@.len() as int) =~= acc@);
    let ghost acc0 = acc@;
    let mut j: usize = 0;
    while j < items.len()
        invariant
            j <= items@.len(),
            acc@ == add_unique(acc0, items@.take(j as int), w),
            keys@.map_values(|v: Vec<char>| v@) == keys_of(acc@, w),
        decreases items@.len() - j,
    {
        let k = key_chars(&items[j], w);
        assert(items@.take(j + 1).drop_last() =~= items@.take(j as int));
        assert(items@.take(j + 1).last() == items@[j as int]);
        if !contains_key(&keys, &k) {
            let ghost acc_before = acc@;
            let ghost keys_before = keys@;
            acc.push(items[j].clone());
            keys.push(k);
            assert(keys_of(acc@, w) =~= keys_of(acc_before, w).push(song_key(items@[j as int], w)));
            assert(keys@.map_values(|v: Vec<char>| v@) =~= keys_before.map_values(|v: Vec<char>| v@).push(
                song_key(items@[j as int], w),
            ));
        }
        j = j + 1;
    }
    assert(items@.take(items@.len() as int) =~= items@);
}

/// Adding songs by key keeps keys unique.
pub proof fn lemma_add_unique_keeps_keys_unique(acc: Seq<Song>, items: Seq<Song>, w: bool)
    requires
        unique_keys(acc, w),
    ensures
        unique_keys(add_unique(acc, items, w), w),
    decreases items.len(),
{
    if items.len() > 0 {
        lemma_add_unique_keeps_keys_unique(acc, items.drop_last(), w);
        let r = add_unique(acc, items.drop_last(), w);
        if !keys_of(r, w).contains(song_key(items.last(), w)) {
            let r2 = r.push(items.last());
            assert forall|i: int, j: int| 0 <= i < j < r2.len() implies song_key(#[trigger] r2[i], w)
                != song_key(#[trigger] r2[j], w) by {
                if j == r.len() {
                    if song_key(r2[i], w) == song_key(r2[j], w) {
                        assert(keys_of(r, w)[i] == song_key(items.last(), w));
                    }
                }
            }
        }
    }
}

/// Every song that adding by key yields comes from `acc` or from `items`.
pub proof fn lemma_add_unique_sources(acc: Seq<Song>, items: Seq<Song>, w: bool)
    ensures
        forall|i: int| 0 <= i < add_unique(acc, items, w).len() ==> acc.contains(#[trigger] add_unique(acc, items, w)[i])
            || items.contains(add_unique(acc, items, w)[i]),
        add_unique(acc, items, w).len() >= acc.len(),
        forall|i: int| 0 <= i < acc.len() ==> #[trigger] add_unique(acc, items, w)[i] == acc[i],
    decreases items.len(),
{
    if items.len() > 0 {
        let d = items.drop_last();
        lemma_add_unique_sources(acc, d, w);
        let r = add_unique(acc, d, w);
        assert forall|i: int| 0 <= i < add_unique(acc, items, w).len() implies acc.contains(
            #[trigger] add_unique(acc, items, w)[i],
        ) || items.contains(add_unique(acc, items, w)[i]) by {
            let x = add_unique(acc, items, w)[i];
            if i < r.len() {
                assert(x == r[i]);
                if d.contains(x) {
                    let k = choose|k: int| 0 <= k < d.len() && d[k] == x;
                    assert(items[k] == x);
                }
            } else {
                assert(x == items.last());
                assert(items[items.len() - 1] == x);
            }
        }
    }
}

/// The song library.
pub struct Library {
    songs: Vec<Song>,
    status: LibraryStatus,
    version: u64,
}

impl Library {
    pub closed spec fn spec_songs(&self) -> Seq<Song> {
        self.songs@
    }

    pub closed spec fn spec_status(&self) -> LibraryStatus {
        self.status
    }

    pub closed spec fn spec_version(&self) -> u64 {
        self.version
    }

    /// An empty, idle library at version 0.
    pub fn new() -> (l: Library)
        ensures
            l.spec_songs() == Seq::<Song>::empty(),
            l.spec_status() == LibraryStatus::Idle,
            l.spec_version() == 0,
    {
        Library { songs: Vec::new(), status: LibraryStatus::Idle, version: 0 }
    }

    pub fn version(&self) -> (r: u64)
        ensures
            r == self.spec_version(),
    {
        self.version
    }

    fn bump(&mut self)
        ensures
            final(self).version == bumped(old(self).version),
            final(self).songs == old(self).songs,
            final(self).status == old(self).status,
    {
        self.version = self.version.wrapping_add(1);
    }

    pub fn status(&self) -> (r: LibraryStatus)
        ensures
            r == self.spec_status(),
    {
        self.status
    }

    pub fn set_status(&mut self, s: LibraryStatus)
        ensures
            final(self).spec_status() == s,
            final(self).spec_songs() == old(self).spec_songs(),
            final(self).spec_version() == old(self).spec_version(),
    {
        self.status = s;
    }

    /// A copy of the song list.
    pub fn songs_snapshot(&self) -> (r: Vec<Song>)
        ensures
            r@ == self.spec_songs(),
    {
        self.songs.clone()
    }

    pub fn len(&self) -> (r: usize)
        ensures
            r == self.spec_songs().len(),
    {
        self.songs.len()
    }

    pub fn is_empty(&self) -> (r: bool)
        ensures
            r == (self.spec_songs().len() == 0),
    {
        self.songs.len() == 0
    }

    /// The first song with id `id`.
    pub fn find_by_id(&self, id: i64) -> (r: Option<Song>)
        ensures
            r == first_with_id(self.spec_songs(), id),
    {
        let mut i: usize = 0;
        assert(self.songs@.subrange(0, self.songs@.len() as int) =~= self.songs@);
        while i < self.songs.len()
            invariant
                i <= self.songs@.len(),
                first_with_id(self.songs@, id) == first_with_id(self.songs@.subrange(i as int, self.songs@.len() as int), id),
            decreases self.songs@.len() - i,
        {
            let ghost rest = self.songs@.subrange(i as int, self.songs@.len() as int);
            if self.songs[i].id == id {
                assert(rest[0] == self.songs@[i as int]);
                return Some(self.songs[i].clone());
            }
            assert(rest.drop_first() =~= self.songs@.subrange(i + 1, self.songs@.len() as int));
            i = i + 1;
        }
        assert(self.songs@.subrange(i as int, self.songs@.len() as int).len() == 0);
        None
    }

    /// Installs the songs found by a scan (in the order found, the roots one
    /// after another), keeping the first song of each path key; the version
    /// changes and the library is ready.
    pub fn scan_on(&mut self, found: Vec<Song>, w: bool)
        ensures
            final(self).spec_songs() == add_unique(Seq::<Song>::empty(), found@, w),
            final(self).spec_version() == bumped(old(self).spec_version()),
            final(self).spec_status() == LibraryStatus::Ready,
    {
        let mut all: Vec<Song> = Vec::new();
        extend_unique(&mut all, found, w);
        self.songs = all;
        self.bump();
        self.status = LibraryStatus::Ready;
    }

    /// `scan_on` for this platform.
    pub fn scan(&mut self, found: Vec<Song>)
        ensures
            final(self).spec_songs() == add_unique(Seq::<Song>::empty(), found@, false)
                || final(self).spec_songs() == add_unique(Seq::<Song>::empty(), found@, true),
            final(self).spec_version() == bumped(old(self).spec_version()),
            final(self).spec_status() == LibraryStatus::Ready,
    {
        self.scan_on(found, platform_uses_backslash());
    }

    /// Replaces the songs under `folder` (at any depth) by `rescanned`, the
    /// songs a new scan of the folder found; a rescanned song whose path key
    /// is already present is skipped. The version changes.
    pub fn refresh_folder_on(&mut self, folder: &str, rescanned: Vec<Song>, w: bool)
        ensures
            final(self).spec_songs() == add_unique(outside_folder(old(self).spec_songs(), folder@, w), rescanned@, w),
            final(self).spec_version() == bumped(old(self).spec_version()),
            final(self).spec_status() == old(self).spec_status(),
    {
        let ghost s0 = self.songs@;
        let mut kept: Vec<Song> = Vec::new();
        let mut i: usize = 0;
        while i < self.songs.len()
            invariant
                self.songs@ == s0,
                i <= s0.len(),
                kept@ == outside_folder(s0.take(i as int), folder@, w),
            decreases s0.len() - i,
        {
            assert(s0.take(i + 1).drop_last() =~= s0.take(i as int));
            assert(s0.take(i + 1).last() == s0[i as int]);
            if !path_is_under_folder_on(self.songs[i].path.as_str(), folder, w) {
                kept.push(self.songs[i].clone());
            }
            i = i + 1;
        }
        assert(s0.take(s0.len() as int) =~= s0);
        extend_unique(&mut kept, rescanned, w);
        self.songs = kept;
        self.bump();
    }

    /// `refresh_folder_on` for this platform.
    pub fn refresh_folder(&mut self, folder: &str, rescanned: Vec<Song>)
        ensures
            final(self).spec_songs() == add_unique(outside_folder(old(self).spec_songs(), folder@, false), rescanned@, false)
                || final(self).spec_songs() == add_unique(outside_folder(old(self).spec_songs(), folder@, true), rescanned@, true),
            final(self).spec_version() == bumped(old(self).spec_version()),
            final(self).spec_status() == old(self).spec_status(),
    {
        self.refresh_folder_on(folder, rescanned, platform_uses_backslash());
    }

    /// Drops every song with id `id`; reports whether any was dropped. The
    /// version changes exactly when songs were dropped.
    pub fn remove_song(&mut self, id: i64) -> (r: bool)
        ensures
            final(self).spec_songs() == keep_other(old(self).spec_songs(), id),
            r == (count_id(old(self).spec_songs(), id) > 0),
            final(self).spec_version() == (if r {
                bumped(old(self).spec_version())
            } else {
                old(self).spec_version()
            }),
            final(self).spec_status() == old(self).spec_status(),
    {
        let ghost s0 = self.songs@;
        let before = self.songs.len();
        let mut kept: Vec<Song> = Vec::new();
        let mut i: usize = 0;
        while i < before
            invariant
                self.songs@ == s0,
                before == s0.len(),
                i <= before,
                kept@ == keep_other(s0.take(i as int), id),
            decreases before - i,
        {
            proof {
                lemma_keep_step(s0, id, i as int);
            }
            if self.songs[i].id != id {
                kept.push(self.songs[i].clone());
            }
            i = i + 1;
        }
        proof {
            assert(s0.take(before as int) =~= s0);
            lemma_keep_count_len(s0, id);
        }
        self.songs = kept;
        let removed = self.songs.len() < before;
        if removed {
            self.bump();
        }
        removed
    }

    /// Replaces the whole song list; the version changes.
    pub fn replace_all(&mut self, new_songs: Vec<Song>)
        ensures
            final(self).spec_songs() == new_songs@,
            final(self).spec_version() == bumped(old(self).spec_version()),
            final(self).spec_status() == old(self).spec_status(),
    {
        self.songs = new_songs;
        self.bump();
    }
}

/// After `remove_song(id)` no song with that id can be found.
pub proof fn lemma_removed_id_is_not_found(s: Seq<Song>, id: i64)
    ensures
        first_with_id(keep_other(s, id), id) is None,
{
    lemma_keep_has_no_id(s, id);
    lemma_no_id_not_found(keep_other(s, id), id);
}

proof fn lemma_no_id_not_found(s: Seq<Song>, id: i64)
    requires
        forall|k: int| 0 <= k < s.len() ==> #[trigger] s[k].id != id,
    ensures
        first_with_id(s, id) is None,
    decreases s.len(),
{
    if s.len() > 0 {
        assert(s[0].id != id);
        assert forall|k: int| 0 <= k < s.drop_first().len() implies #[trigger] s.drop_first()[k].id != id by {
            assert(s.drop_first()[k] == s[k + 1]);
        }
        lemma_no_id_not_found(s.drop_first(), id);
    }
}

/// A path lies under a folder when its key starts with the folder's key
/// and, unless that key already ends with `/`, a `/` follows right after it;
/// so `/m/ab/x` is not under `/m/a`, and a folder is not under itself.
pub proof fn lemma_under_folder_needs_a_separator(path: Seq<char>, folder: Seq<char>, w: bool)
    ensures
        ({
            let kp = spec_path_key(path, w);
            let kf = spec_path_key(folder, w);
            &&& (kf.len() > 0 && kf.last() == '/') ==> (spec_under_folder(path, folder, w) == (kf.len() <= kp.len()
                && kp.subrange(0, kf.len() as int) == kf))
            &&& !(kf.len() > 0 && kf.last() == '/') ==> (spec_under_folder(path, folder, w) == (kf.len() < kp.len()
                && kp.subrange(0, kf.len() as int) == kf && kp[kf.len() as int] == '/'))
        }),
        !(spec_path_key(folder, w).len() > 0 && spec_path_key(folder, w).last() == '/') ==> !spec_under_folder(folder, folder, w),
{
    let kp = spec_path_key(path, w);
    let kf = spec_path_key(folder, w);
    if !(kf.len() > 0 && kf.last() == '/') {
        let pre = kf.push('/');
        assert(folder_prefix(folder, w) == pre);
        if spec_under_folder(path, folder, w) {
            let head = kp.subrange(0, pre.len() as int);
            assert(head == pre);
            assert(kf.len() < kp.len());
            assert forall|j: int| 0 <= j < kf.len() implies kp.subrange(0, kf.len() as int)[j] == kf[j] by {
                assert(head[j] == kp[j]);
                assert(pre[j] == kf[j]);
            }
            assert(kp.subrange(0, kf.len() as int) =~= kf);
            assert(head[kf.len() as int] == kp[kf.len() as int]);
            assert(pre[kf.len() as int] == '/');
        }
        if kf.len() < kp.len() && kp.subrange(0, kf.len() as int) == kf && kp[kf.len() as int] == '/' {
            assert(kp.subrange(0, pre.len() as int) =~= pre);
        }
    }
}

/// Refreshing a folder keeps exactly the songs not under it, in order.
pub proof fn lemma_refresh_keeps_songs_outside(s: Seq<Song>, folder: Seq<char>, w: bool)
    ensures
        outside_folder(s, folder, w) == s.filter(|x: Song| !spec_under_folder(x.path@, folder, w)),
    decreases s.len(),
{
    reveal(Seq::filter);
    if s.len() > 0 {
        lemma_refresh_keeps_songs_outside(s.drop_last(), folder, w);
    }
}

/// Adding songs by path key keeps what was there, in place; every path key
/// among the added songs ends up present; and of the added songs with a key
/// not present before, the first one with that key is the one kept.
pub proof fn lemma_add_unique_keeps_first_of_each_key(acc: Seq<Song>, items: Seq<Song>, w: bool)
    ensures
        forall|i: int| 0 <= i < acc.len() ==> #[trigger] add_unique(acc, items, w)[i] == acc[i],
        forall|k: int| 0 <= k < items.len() ==> keys_of(add_unique(acc, items, w), w).contains(song_key(#[trigger] items[k], w)),
        forall|k: int|
            0 <= k < items.len() && !keys_of(acc, w).contains(song_key(#[trigger] items[k], w)) && (forall|m: int|
                0 <= m < k ==> song_key(#[trigger] items[m], w) != song_key(items[k], w)) ==> add_unique(acc, items, w).contains(
                items[k],
            ),
    decreases items.len(),
{
    lemma_add_unique_sources(acc, items, w);
    if items.len() > 0 {
        let d = items.drop_last();
        let x = items.last();
        lemma_add_unique_keeps_first_of_each_key(acc, d, w);
        lemma_add_unique_sources(acc, d, w);
        let r = add_unique(acc, d, w);
        let res = add_unique(acc, items, w);
        assert(forall|i: int| 0 <= i < r.len() ==> #[trigger] res[i] == r[i]);
        assert(r.len() <= res.len());
        assert(forall|i: int| 0 <= i < r.len() ==> #[trigger] keys_of(res, w)[i] == keys_of(r, w)[i]);
        assert forall|k: int| 0 <= k < items.len() implies keys_of(res, w).contains(song_key(#[trigger] items[k], w)) by {
            if k < d.len() {
                assert(d[k] == items[k]);
                let i = choose|i: int| 0 <= i < keys_of(r, w).len() && keys_of(r, w)[i] == song_key(d[k], w);
                assert(keys_of(res, w)[i] == song_key(items[k], w));
            } else {
                if keys_of(r, w).contains(song_key(x, w)) {
                    let i = choose|i: int| 0 <= i < keys_of(r, w).len() && keys_of(r, w)[i] == song_key(x, w);
                    assert(keys_of(res, w)[i] == song_key(x, w));
                } else {
                    assert(keys_of(res, w)[r.len() as int] == song_key(x, w));
                }
            }
        }
        assert forall|k: int|
            0 <= k < items.len() && !keys_of(acc, w).contains(song_key(#[trigger] items[k], w)) && (forall|m: int|
                0 <= m < k ==> song_key(#[trigger] items[m], w) != song_key(items[k], w)) implies res.contains(items[k]) by {
            if k < d.len() {
                assert(d[k] == items[k]);
                assert forall|m: int| 0 <= m < k implies song_key(#[trigger] d[m], w) != song_key(d[k], w) by {
                    assert(d[m] == items[m]);
                }
                let i = choose|i: int| 0 <= i < r.len() && r[i] == d[k];
                assert(res[i] == items[k]);
            } else {
                if keys_of(r, w).contains(song_key(x, w)) {
                    // Some song of `r` has the key: it came from `acc` or from an earlier item.
                    let i = choose|i: int| 0 <= i < keys_of(r, w).len() && keys_of(r, w)[i] == song_key(x, w);
                    let y = r[i];
                    assert(song_key(y, w) == song_key(x, w));
                    if acc.contains(y) {
                        let a = choose|a: int| 0 <= a < acc.len() && acc[a] == y;
                        assert(keys_of(acc, w)[a] == song_key(x, w));
                    } else {
                        assert(d.contains(y));
                        let m = choose|m: int| 0 <= m < d.len() && d[m] == y;
                        assert(items[m] == y);
                        assert(song_key(items[m], w) != song_key(items[k], w));
                    }
                } else {
                    assert(res[r.len() as int] == x);
                }
            }
        }
    }
}

/// A scan never yields two songs with the same path key.
pub proof fn lemma_scan_keys_unique(found: Seq<Song>, w: bool)
    ensures
        unique_keys(add_unique(Seq::<Song>::empty(), found, w), w),
{
    lemma_add_unique_keeps_keys_unique(Seq::<Song>::empty(), found, w);
}

/// Every change of the song list moves the version away from its old value.
pub proof fn lemma_bump_changes_version(v: u64)
    ensures
        bumped(v) != v,
{
}

impl Default for Library {
    fn default() -> (l: Library)
        ensures
            l.spec_songs() == Seq::<Song>::empty(),
            l.spec_status() == LibraryStatus::Idle,
            l.spec_version() == 0,
    {
        Library::new()
    }
}

} // verus!
