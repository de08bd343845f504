//! The play queue: an ordered song list, the position in it, and the rules
//! by which the position moves.

use vstd::prelude::*;
use vstd::arithmetic::div_mod::lemma_fundamental_div_mod_converse;
use vstd::arithmetic::div_mod::lemma_fundamental_div_mod;
use vstd::arithmetic::div_mod::lemma_add_mod_noop;
use vstd::arithmetic::div_mod::lemma_mod_equivalence;
use vstd::arithmetic::div_mod::lemma_mod_bound;
use crate::domain::playback_state::RepeatMode;
use crate::domain::song::Song;

verus! {

/// Greatest common divisor (Euclid).
pub open spec fn spec_gcd(a: nat, b: nat) -> nat
    decreases b,
{
    if b == 0 {
        a
    } else {
        spec_gcd(b, a % b)
    }
}

/// The search for the shuffle stride: the first `s` from the start value on
/// that is coprime with `len`, or 1 once `s` would reach `len`.
pub open spec fn stride_search(s: nat, len: nat) -> nat
    decreases len - s,
{
    if spec_gcd(s, len) == 1 {
        s
    } else if s + 1 >= len {
        1
    } else {
        stride_search(s + 1, len)
    }
}

/// The step by which shuffle mode walks the queue.
pub open spec fn spec_shuffle_stride(len: nat) -> nat {
    let half = len / 2;
    let start = (if half > 1 { half } else { 1 }) + 1;
    stride_search(start as nat, len)
}

/// `x % n` for `x` below `2n`.
proof fn lemma_mod_below_twice(x: int, n: int)
    requires
        0 < n,
        0 <= x < 2 * n,
    ensures
        x % n == (if x < n { x } else { x - n }),
{
    if x < n {
        lemma_fundamental_div_mod_converse(x, n, 0, x);
    } else {
        lemma_fundamental_div_mod_converse(x, n, 1, x - n);
    }
}

proof fn lemma_gcd_one_left(len: nat)
    requires
        len >= 2,
    ensures
        spec_gcd(1, len) == 1,
{
    lemma_mod_below_twice(1, len as int);
    assert(spec_gcd(1, len) == spec_gcd(len, 1));
    lemma_fundamental_div_mod_converse(len as int, 1, len as int, 0);
    assert(spec_gcd(len, 1) == spec_gcd(1, 0));
}

proof fn lemma_stride_search_bounds(s: nat, len: nat)
    requires
        len >= 2,
        1 <= s,
    ensures
        spec_gcd(stride_search(s, len), len) == 1,
        s < len ==> 1 <= stride_search(s, len) < len,
        s >= len ==> stride_search(s, len) == s || stride_search(s, len) == 1,
    decreases len - s,
{
    lemma_gcd_one_left(len);
    if spec_gcd(s, len) == 1 {
    } else if s + 1 >= len {
    } else {
        lemma_stride_search_bounds(s + 1, len);
    }
}

/// For two or more songs the shuffle stride is coprime with the queue length
/// and lies in `1..len`, so a step always moves to another song.
pub proof fn lemma_shuffle_stride_in_range(len: nat)
    requires
        len >= 2,
    ensures
        1 <= spec_shuffle_stride(len) < len,
        spec_gcd(spec_shuffle_stride(len), len) == 1,
{
    let half = len / 2;
    let start: nat = ((if half > 1 { half } else { 1 }) + 1) as nat;
    lemma_stride_search_bounds(start, len);
    if start >= len {
        // Only for a length of two or three; the start is then 2.
        assert(len <= 3);
        if len == 2 {
            lemma_fundamental_div_mod_converse(2, 2, 1, 0);
            assert(spec_gcd(2, 2) == spec_gcd(2, 0));
        } else {
            assert(start < len);
        }
    }
}

/// The songs of `s` whose id is not `id`, in order.
pub open spec fn keep_other(s: Seq<Song>, id: i64) -> Seq<Song>
    decreases s.len(),
{
    if s.len() == 0 {
        s
    } else {
        let r = keep_other(s.drop_last(), id);
        if s.last().id != id {
            r.push(s.last())
        } else {
            r
        }
    }
}

/// How many songs of `s` have id `id`.
pub open spec fn count_id(s: Seq<Song>, id: i64) -> nat
    decreases s.len(),
{
    if s.len() == 0 {
        0
    } else {
        count_id(s.drop_last(), id) + (if s.last().id == id { 1nat } else { 0nat })
    }
}

/// Removing the songs with an id removes as many songs as carry it.
pub proof fn lemma_keep_count_len(s: Seq<Song>, id: i64)
    ensures
        keep_other(s, id).len() + count_id(s, id) == s.len(),
    decreases s.len(),
{
    if s.len() > 0 {
        lemma_keep_count_len(s.drop_last(), id);
    }
}

/// No song with the removed id is kept.
pub proof fn lemma_keep_has_no_id(s: Seq<Song>, id: i64)
    ensures
        forall|k: int| 0 <= k < keep_other(s, id).len() ==> #[trigger] keep_other(s, id)[k].id != id,
    decreases s.len(),
{
    if s.len() > 0 {
        lemma_keep_has_no_id(s.drop_last(), id);
    }
}

/// What is kept of a prefix is a prefix of what is kept.
pub proof fn lemma_keep_prefix(s: Seq<Song>, id: i64, j: int)
    requires
        0 <= j <= s.len(),
    ensures
        keep_other(s.take(j), id).len() <= keep_other(s, id).len(),
        keep_other(s, id).take(keep_other(s.take(j), id).len() as int) == keep_other(s.take(j), id),
    decreases s.len(),
{
    if j == s.len() {
        assert(s.take(j) =~= s);
        assert(keep_other(s, id).take(keep_other(s, id).len() as int) =~= keep_other(s, id));
    } else {
        let d = s.drop_last();
        assert(s.take(j) =~= d.take(j));
        lemma_keep_prefix(d, id, j);
        let kj = keep_other(s.take(j), id);
        if s.last().id != id {
            assert(keep_other(s, id).take(kj.len() as int) =~= keep_other(d, id).take(kj.len() as int));
        }
    }
}

/// What is kept of the first `i + 1` songs, from what is kept of the first
/// `i`.
pub proof fn lemma_keep_step(s: Seq<Song>, id: i64, i: int)
    requires
        0 <= i < s.len(),
    ensures
        keep_other(s.take(i + 1), id) == (if s[i].id != id {
            keep_other(s.take(i), id).push(s[i])
        } else {
            keep_other(s.take(i), id)
        }),
        count_id(s.take(i + 1), id) == count_id(s.take(i), id) + (if s[i].id == id { 1nat } else { 0nat }),
{
    assert(s.take(i + 1).drop_last() =~= s.take(i));
    assert(s.take(i + 1).last() == s[i]);
}

/// A kept song keeps its place among the kept songs: the song at index `c`
/// ends up at the index that counts the kept songs before it.
pub proof fn lemma_keep_position(s: Seq<Song>, id: i64, c: int)
    requires
        0 <= c < s.len(),
        s[c].id != id,
    ensures
        keep_other(s.take(c), id).len() < keep_other(s, id).len(),
        keep_other(s, id)[keep_other(s.take(c), id).len() as int] == s[c],
{
    lemma_keep_step(s, id, c);
    lemma_keep_prefix(s, id, c + 1);
    let k = keep_other(s.take(c), id).len() as int;
    assert(keep_other(s, id).take(k + 1)[k] == s[c]);
}

/// The play queue.
pub struct Queue {
    pub songs: Vec<Song>,
    pub current: Option<usize>,
    pub shuffle: bool,
    pub repeat: RepeatMode,
}

impl Queue {
    /// The current position, if any, lies inside the song list.
    pub open spec fn wf(&self) -> bool {
        match self.current {
            Some(c) => c < self.songs@.len(),
            None => true,
        }
    }

    pub open spec fn len(&self) -> nat {
        self.songs@.len()
    }

    /// The step after `cur`, wrapping to the start when `wrap`.
    pub open spec fn spec_next_track_index(&self, cur: nat, wrap: bool) -> Option<usize> {
        let len = self.len();
        if self.shuffle {
            if len == 0 {
                None
            } else if len == 1 {
                if wrap { Some(0) } else { None }
            } else {
                Some(((cur + spec_shuffle_stride(len)) % len) as usize)
            }
        } else if cur + 1 < len {
            Some((cur + 1) as usize)
        } else if wrap && len > 0 {
            Some(0)
        } else {
            None
        }
    }

    /// The index that follows the current one when a track ends: repeat-one
    /// stays, repeat-all wraps, repeat-off stops after the last song.
    pub open spec fn spec_next_index(&self) -> Option<usize> {
        match self.current {
            None => None,
            Some(cur) => match self.repeat {
                RepeatMode::One => Some(cur),
                RepeatMode::All => self.spec_next_track_index(cur as nat, true),
                RepeatMode::Off => self.spec_next_track_index(cur as nat, false),
            },
        }
    }

    /// The index a "next" button moves to: like the end of a track, except
    /// that repeat-one moves on (wrapping) instead of staying.
    pub open spec fn spec_next_manual_index(&self) -> Option<usize> {
        match self.current {
            None => None,
            Some(cur) => self.spec_next_track_index(cur as nat, self.repeat != RepeatMode::Off),
        }
    }

    /// The index a "previous" button moves to.
    pub open spec fn spec_prev_index(&self) -> Option<usize> {
        match self.current {
            None => None,
            Some(cur) => {
                let len = self.len();
                if self.shuffle {
                    if len <= 1 {
                        Some(0)
                    } else {
                        Some(((cur + len - spec_shuffle_stride(len)) % (len as int)) as usize)
                    }
                } else if cur == 0 {
                    if self.repeat == RepeatMode::All && len > 0 {
                        Some((len - 1) as usize)
                    } else {
                        Some(0)
                    }
                } else {
                    Some((cur - 1) as usize)
                }
            },
        }
    }

    /// Where the position moves when the songs with id `id` are removed.
    pub open spec fn spec_current_after_remove(&self, id: i64) -> Option<usize> {
        if count_id(self.songs@, id) == 0 {
            self.current
        } else {
            match self.current {
                None => None,
                Some(c) => if keep_other(self.songs@, id).len() == 0 {
                    None
                } else {
                    let nc = (c - count_id(self.songs@.take(c as int), id)) as int;
                    let last = keep_other(self.songs@, id).len() - 1;
                    Some((if nc < last { nc } else { last }) as usize)
                },
            }
        }
    }

    /// An empty queue with shuffle and repeat off.
    pub fn new() -> (q: Queue)
        ensures
            q.songs@ == Seq::<Song>::empty(),
            q.current is None,
            !q.shuffle,
            q.repeat == RepeatMode::Off,
    {
        Queue { songs: Vec::new(), current: None, shuffle: false, repeat: RepeatMode::Off }
    }

    /// Replaces the songs and moves to `start`, clamped to the last song.
    pub fn replace(&mut self, songs: Vec<Song>, start: usize)
        ensures
            final(self).songs@ == songs@,
            final(self).current == (if songs@.len() == 0 {
                None::<usize>
            } else if start < songs@.len() {
                Some(start)
            } else {
                Some((songs@.len() - 1) as usize)
            }),
            final(self).shuffle == old(self).shuffle,
            final(self).repeat == old(self).repeat,
            final(self).wf(),
    {
        let len = songs.len();
        self.songs = songs;
        self.current = if len == 0 {
            None
        } else if start < len {
            Some(start)
        } else {
            Some(len - 1)
        };
    }

    /// The song at the current position, if the position names one.
    pub fn current_song(&self) -> (r: Option<&Song>)
        ensures
            r == (match self.current {
                Some(i) => if i < self.songs@.len() {
                    Some(&self.songs@[i as int])
                } else {
                    None
                },
                None => None,
            }),
    {
        match self.current {
            Some(i) => if i < self.songs.len() {
                Some(&self.songs[i])
            } else {
                None
            },
            None => None,
        }
    }

    fn gcd(a: usize, b: usize) -> (r: usize)
        ensures
            r == spec_gcd(a as nat, b as nat),
    {
        let mut x = a;
        let mut y = b;
        while y != 0
            invariant
                spec_gcd(x as nat, y as nat) == spec_gcd(a as nat, b as nat),
            decreases y,
        {
            let r = x % y;
            x = y;
            y = r;
        }
        x
    }

    fn shuffle_stride(len: usize) -> (r: usize)
        requires
            len >= 2,
        ensures
            r == spec_shuffle_stride(len as nat),
            1 <= r < len,
    {
        proof {
            lemma_shuffle_stride_in_range(len as nat);
        }
        let half = len / 2;
        let mut stride: usize = (if half > 1 { half } else { 1 }) + 1;
        assert(stride_search(stride as nat, len as nat) == spec_shuffle_stride(len as nat));
        while Self::gcd(stride, len) != 1
            invariant
                len >= 2,
                1 <= stride <= len,
                stride < len || stride == 2,
                stride_search(stride as nat, len as nat) == spec_shuffle_stride(len as nat),
            decreases len + 1 - stride,
        {
            stride = stride + 1;
            if stride >= len {
                return 1;
            }
        }
        stride
    }

    /// `(cur + step) % len`, computed without overflow.
    fn wrap_step(cur: usize, step: usize, len: usize) -> (r: usize)
        requires
            0 < step < len,
        ensures
            r == (cur + step) % (len as int),
    {
        let c = cur % len;
        proof {
            lemma_add_mod_noop(cur as int, step as int, len as int);
            lemma_mod_below_twice(step as int, len as int);
            lemma_mod_below_twice(c + step, len as int);
        }
        if c >= len - step {
            c - (len - step)
        } else {
            c + step
        }
    }

    fn shuffled_next_index(&self, cur: usize, wrap: bool) -> (r: Option<usize>)
        requires
            self.shuffle,
        ensures
            r == self.spec_next_track_index(cur as nat, wrap),
    {
        let len = self.songs.len();
        if len == 0 {
            None
        } else if len == 1 {
            if wrap {
                Some(0)
            } else {
                None
            }
        } else {
            Some(Self::wrap_step(cur, Self::shuffle_stride(len), len))
        }
    }

    fn shuffled_prev_index(&self, cur: usize) -> (r: Option<usize>)
        requires
            self.shuffle,
            self.current == Some(cur),
        ensures
            r == self.spec_prev_index(),
    {
        let len = self.songs.len();
        if len <= 1 {
            Some(0)
        } else {
            let stride = Self::shuffle_stride(len);
            let r = Self::wrap_step(cur, len - stride, len);
            assert(cur + (len - stride) == cur + len - stride);
            Some(r)
        }
    }

    fn next_track_index(&self, cur: usize, wrap: bool) -> (r: Option<usize>)
        ensures
            r == self.spec_next_track_index(cur as nat, wrap),
    {
        if self.shuffle {
            return self.shuffled_next_index(cur, wrap);
        }
        let len = self.songs.len();
        if cur < len && cur + 1 < len {
            Some(cur + 1)
        } else if wrap && self.songs.len() > 0 {
            Some(0)
        } else {
            None
        }
    }

    /// The index to play when the current track ends.
    pub fn next_index(&self) -> (r: Option<usize>)
        ensures
            r == self.spec_next_index(),
    {
        let cur = match self.current {
            Some(c) => c,
            None => return None,
        };
        match self.repeat {
            RepeatMode::One => Some(cur),
            RepeatMode::All => self.next_track_index(cur, true),
            RepeatMode::Off => self.next_track_index(cur, false),
        }
    }

    /// The index a "next" press moves to.
    pub fn next_manual_index(&self) -> (r: Option<usize>)
        ensures
            r == self.spec_next_manual_index(),
    {
        let cur = match self.current {
            Some(c) => c,
            None => return None,
        };
        let wrap = match self.repeat {
            RepeatMode::All | RepeatMode::One => true,
            RepeatMode::Off => false,
        };
        self.next_track_index(cur, wrap)
    }

    /// The index a "previous" press moves to.
    pub fn prev_index(&self) -> (r: Option<usize>)
        ensures
            r == self.spec_prev_index(),
    {
        let cur = match self.current {
            Some(c) => c,
            None => return None,
        };
        if self.shuffle {
            return self.shuffled_prev_index(cur);
        }
        if cur == 0 {
            match self.repeat {
                RepeatMode::All if self.songs.len() > 0 => Some(self.songs.len() - 1),
                _ => Some(0),
            }
        } else {
            Some(cur - 1)
        }
    }

    /// Moves to the index that follows the end of the current track.
    pub fn advance(&mut self) -> (r: Option<usize>)
        ensures
            r == old(self).spec_next_index(),
            old(self).wf() ==> final(self).wf(),
            final(self).current == r,
            final(self).songs == old(self).songs,
            final(self).shuffle == old(self).shuffle,
            final(self).repeat == old(self).repeat,
    {
        proof {
            if self.wf() {
                lemma_moves_stay_in_range(*self);
            }
        }
        self.current = self.next_index();
        self.current
    }

    /// Moves as a "next" press does.
    pub fn advance_manual(&mut self) -> (r: Option<usize>)
        ensures
            r == old(self).spec_next_manual_index(),
            old(self).wf() ==> final(self).wf(),
            final(self).current == r,
            final(self).songs == old(self).songs,
            final(self).shuffle == old(self).shuffle,
            final(self).repeat == old(self).repeat,
    {
        proof {
            if self.wf() {
                lemma_moves_stay_in_range(*self);
            }
        }
        self.current = self.next_manual_index();
        self.current
    }

    /// Moves as a "previous" press does.
    pub fn rewind(&mut self) -> (r: Option<usize>)
        ensures
            r == old(self).spec_prev_index(),
            old(self).wf() ==> final(self).wf(),
            final(self).current == r,
            final(self).songs == old(self).songs,
            final(self).shuffle == old(self).shuffle,
            final(self).repeat == old(self).repeat,
    {
        proof {
            if self.wf() {
                lemma_moves_stay_in_range(*self);
            }
        }
        self.current = self.prev_index();
        self.current
    }

    /// Moves to `idx` if it names a song; reports whether it did.
    pub fn jump_to(&mut self, idx: usize) -> (r: bool)
        ensures
            r == (idx < old(self).songs@.len()),
            final(self).current == (if r { Some(idx) } else { old(self).current }),
            old(self).wf() ==> final(self).wf(),
            final(self).songs == old(self).songs,
            final(self).shuffle == old(self).shuffle,
            final(self).repeat == old(self).repeat,
    {
        if idx < self.songs.len() {
            self.current = Some(idx);
            true
        } else {
            false
        }
    }

    /// Drops every song with id `id`; reports how many were dropped. When
    /// songs were dropped the position moves back by the number dropped
    /// before it (so a surviving current song stays current), clamped to the
    /// last song, or is cleared when the queue becomes empty.
    pub fn remove_song_id(&mut self, id: i64) -> (r: usize)
        requires
            match old(self).current {
                Some(c) => c <= old(self).songs@.len(),
                None => true,
            },
        ensures
            r == count_id(old(self).songs@, id),
            final(self).songs@ == keep_other(old(self).songs@, id),
            final(self).current == old(self).spec_current_after_remove(id),
            final(self).shuffle == old(self).shuffle,
            final(self).repeat == old(self).repeat,
    {
        let ghost s0 = self.songs@;
        let removed_before: usize = match self.current {
            Some(c) => {
                let mut cnt: usize = 0;
                let mut i: usize = 0;
                while i < c
                    invariant
                        c <= s0.len(),
                        s0 == self.songs@,
                        i <= c,
                        cnt == count_id(s0.take(i as int), id),
                        cnt <= i,
                    decreases c - i,
                {
                    proof {
                        lemma_keep_step(s0, id, i as int);
                    }
                    if self.songs[i].id == id {
                        cnt = cnt + 1;
                    }
                    i = i + 1;
                }
                cnt
            },
            None => 0,
        };
        let before = self.songs.len();
        let mut kept: Vec<Song> = Vec::new();
        let mut i: usize = 0;
        while i < before
            invariant
                s0 == self.songs@,
                before == s0.len(),
                i <= before,
                kept@ == keep_other(s0.take(i as int), id),
            decreases before - i,
        {
            proof {
                lemma_keep_step(s0, id, i as int);
            }
            if self.songs[i].id != id {
                kept.push(self.songs[i].clone());
            }
            i = i + 1;
        }
        proof {
            assert(s0.take(before as int) =~= s0);
            lemma_keep_count_len(s0, id);
            match self.current {
                Some(c) => {
                    lemma_keep_count_len(s0.take(c as int), id);
                },
                None => {},
            }
        }
        self.songs = kept;
        let removed = before - self.songs.len();
        if removed > 0 {
            if let Some(c) = self.current {
                if self.songs.len() == 0 {
                    self.current = None;
                } else {
                    let new_c = c - removed_before;
                    let last = self.songs.len() - 1;
                    self.current = Some(if new_c < last { new_c } else { last });
                }
            }
        }
        removed
    }
}

/// Removing songs by id never removes the current song unless it has that
/// id: a current song with another id is still the current song afterwards.
pub proof fn lemma_remove_keeps_other_current_song(q: Queue, id: i64, r: usize, q2: Queue)
    requires
        q.wf(),
        q.current is Some,
        q.songs@[q.current->0 as int].id != id,
        r == count_id(q.songs@, id),
        q2.songs@ == keep_other(q.songs@, id),
        q2.current == q.spec_current_after_remove(id),
    ensures
        q2.wf(),
        q2.current is Some,
        q2.songs@[q2.current->0 as int] == q.songs@[q.current->0 as int],
{
    let c = q.current->0 as int;
    lemma_keep_position(q.songs@, id, c);
    lemma_keep_count_len(q.songs@.take(c), id);
    lemma_keep_count_len(q.songs@, id);
    if r == 0 {
        // Nothing was dropped, so the kept songs are all the songs.
        assert(keep_other(q.songs@, id).len() == q.songs@.len());
        let k = keep_other(q.songs@.take(c), id).len();
        assert(count_id(q.songs@.take(c), id) <= count_id(q.songs@, id)) by {
            lemma_count_prefix(q.songs@, id, c);
        }
        assert(k == c);
    }
}

proof fn lemma_keep_removed_run(s: Seq<Song>, id: i64, a: int, b: int)
    requires
        0 <= a <= b <= s.len(),
        forall|m: int| a <= m < b ==> (#[trigger] s[m]).id == id,
    ensures
        keep_other(s.take(b), id).len() == keep_other(s.take(a), id).len(),
    decreases b - a,
{
    if a < b {
        lemma_keep_removed_run(s, id, a, b - 1);
        lemma_keep_step(s, id, b - 1);
    }
}

/// Removing the songs with an id keeps the other songs, in order.
pub proof fn lemma_remove_keeps_the_others_in_order(s: Seq<Song>, id: i64)
    ensures
        keep_other(s, id) == s.filter(|x: Song| x.id != id),
    decreases s.len(),
{
    reveal(Seq::filter);
    if s.len() > 0 {
        lemma_remove_keeps_the_others_in_order(s.drop_last(), id);
    }
}

/// When the current song is removed, the position moves to the first song
/// after it that stays; if none stays after it, to the last song that stays;
/// if no song stays, there is no position.
pub proof fn lemma_remove_current_moves_on(q: Queue, id: i64, q2: Queue)
    requires
        q.current matches Some(c) && c < q.len() && q.songs@[c as int].id == id,
        q2.songs@ == keep_other(q.songs@, id),
        q2.current == q.spec_current_after_remove(id),
    ensures
        q2.songs@.len() == 0 ==> q2.current is None,
        forall|d: int|
            #![trigger q.songs@[d]]
            q.current->0 < d < q.len() && q.songs@[d].id != id && (forall|m: int|
                q.current->0 < m < d ==> (#[trigger] q.songs@[m]).id == id) ==> (q2.current matches Some(n) && n
                < q2.songs@.len() && q2.songs@[n as int] == q.songs@[d]),
        (forall|m: int| q.current->0 < m < q.len() ==> (#[trigger] q.songs@[m]).id == id) && q2.songs@.len() > 0
            ==> q2.current == Some((q2.songs@.len() - 1) as usize),
{
    let s = q.songs@;
    let c = q.current->0 as int;
    lemma_keep_count_len(s.take(c), id);
    lemma_keep_count_len(s, id);
    assert(count_id(s, id) > 0) by {
        lemma_keep_step(s, id, c);
        lemma_count_prefix(s, id, c + 1);
    }
    assert forall|d: int|
        #![trigger q.songs@[d]]
        c < d < q.len() && q.songs@[d].id != id && (forall|m: int| c < m < d ==> (#[trigger] q.songs@[m]).id == id)
        implies (q2.current matches Some(n) && n < q2.songs@.len() && q2.songs@[n as int] == q.songs@[d]) by {
        lemma_keep_removed_run(s, id, c, d);
        lemma_keep_position(s, id, d);
    }
    if forall|m: int| c < m < q.len() ==> (#[trigger] q.songs@[m]).id == id {
        lemma_keep_removed_run(s, id, c, s.len() as int);
        assert(s.take(s.len() as int) =~= s);
    }
}

/// Counting over a prefix never gives more than counting over the whole.
pub proof fn lemma_count_prefix(s: Seq<Song>, id: i64, j: int)
    requires
        0 <= j <= s.len(),
    ensures
        count_id(s.take(j), id) <= count_id(s, id),
    decreases s.len(),
{
    if j == s.len() {
        assert(s.take(j) =~= s);
    } else {
        assert(s.take(j) =~= s.drop_last().take(j));
        lemma_count_prefix(s.drop_last(), id, j);
    }
}

/// After removing songs by id, no song with that id is left in the queue.
pub proof fn lemma_remove_leaves_no_song_with_id(s: Seq<Song>, id: i64)
    ensures
        forall|k: int| 0 <= k < keep_other(s, id).len() ==> #[trigger] keep_other(s, id)[k].id != id,
{
    lemma_keep_has_no_id(s, id);
}

/// Every position the queue can move to names a song of the queue.
pub proof fn lemma_moves_stay_in_range(q: Queue)
    requires
        q.wf(),
    ensures
        q.spec_next_index() matches Some(i) ==> i < q.len(),
        q.spec_next_manual_index() matches Some(i) ==> i < q.len(),
        q.spec_prev_index() matches Some(i) ==> i < q.len() || q.len() == 0,
{
    if let Some(c) = q.current {
        let len = q.len();
        if q.shuffle && len >= 2 {
            lemma_shuffle_stride_in_range(len);
            let st = spec_shuffle_stride(len);
            lemma_mod_below_twice((c + st) as int, len as int);
            lemma_mod_below_twice((c + len - st) as int, len as int);
        }
    }
}

/// In shuffle mode with two or more songs, "previous" undoes "next".
pub proof fn lemma_shuffle_previous_undoes_next(q: Queue, q2: Queue)
    requires
        q.wf(),
        q.shuffle,
        q.len() >= 2,
        q.current is Some,
        q2.songs@ == q.songs@,
        q2.shuffle,
        q2.repeat == q.repeat,
        q2.current == q.spec_next_manual_index(),
    ensures
        q2.spec_prev_index() == q.current,
{
    assert(q.songs.len() == q.len());
    let len = q.len();
    let c = q.current->0;
    lemma_shuffle_stride_in_range(len);
    let st = spec_shuffle_stride(len);
    lemma_mod_below_twice((c + st) as int, len as int);
    let n = ((c + st) % (len as int)) as int;
    lemma_mod_below_twice(n + len - st, len as int);
}

/// In shuffle mode with two or more songs, "next" always moves to another
/// song.
pub proof fn lemma_shuffle_next_moves(q: Queue)
    requires
        q.wf(),
        q.shuffle,
        q.len() >= 2,
        q.current is Some,
    ensures
        q.spec_next_manual_index() is Some,
        q.spec_next_manual_index() != q.current,
{
    assert(q.songs.len() == q.len());
    let len = q.len();
    let c = q.current->0;
    lemma_shuffle_stride_in_range(len);
    lemma_mod_below_twice((c + spec_shuffle_stride(len)) as int, len as int);
}

/// Coefficients `(x, y)` with `x * a + y * b == gcd(a, b)`.
proof fn lemma_bezout(a: nat, b: nat) -> (r: (int, int))
    ensures
        r.0 * a + r.1 * b == spec_gcd(a, b),
    decreases b,
{
    if b == 0 {
        (1, 0)
    } else {
        let (x, y) = lemma_bezout(b, a % b);
        lemma_fundamental_div_mod(a as int, b as int);
        let q: int = a as int / b as int;
        let m: int = (a % b) as int;
        assert(y * a + (x - y * q) * b == x * b + y * m) by (nonlinear_arith)
            requires
                a == b * q + m,
        ;
        (y, x - y * q)
    }
}

/// With `s` coprime to `n`, `n` divides `m * s` only if it divides `m`.
proof fn lemma_coprime_cancel(s: nat, n: nat, m: int)
    requires
        n > 0,
        spec_gcd(s, n) == 1,
        (m * s) % (n as int) == 0,
    ensures
        m % (n as int) == 0,
{
    let (x, y) = lemma_bezout(s, n);
    lemma_fundamental_div_mod(m * s, n as int);
    let t: int = (m * s) / (n as int);
    assert(m == (n as int) * (x * t + m * y) + 0) by (nonlinear_arith)
        requires
            x * s + y * n == 1,
            m * s == (n as int) * t + 0,
    ;
    lemma_fundamental_div_mod_converse(m, n as int, x * t + m * y, 0);
}

/// Where shuffle mode is after `k` forward steps from `start` in a queue of
/// `len` songs: each step adds the shuffle stride and wraps.
pub open spec fn shuffle_walk(start: nat, k: nat, len: nat) -> nat
    decreases k,
{
    if k == 0 {
        start
    } else {
        (((shuffle_walk(start, (k - 1) as nat, len) + spec_shuffle_stride(len)) as int) % (len as int)) as nat
    }
}

#[verifier::spinoff_prover]
proof fn lemma_shuffle_walk_closed_form(start: nat, k: nat, len: nat)
    requires
        len >= 2,
        start < len,
    ensures
        shuffle_walk(start, k, len) == ((start + k * spec_shuffle_stride(len)) as int) % (len as int),
    decreases k,
{
    let st = spec_shuffle_stride(len);
    let n: int = len as int;
    if k == 0 {
        lemma_mod_below_twice(start as int, n);
    } else {
        lemma_shuffle_walk_closed_form(start, (k - 1) as nat, len);
        let a: int = (start + (k - 1) * st) as int;
        let b: int = (start + k * st) as int;
        assert(a + st == b) by (nonlinear_arith)
            requires
                a == start + (k - 1) * st,
                b == start + k * st,
                k >= 1,
        ;
        lemma_shuffle_stride_in_range(len);
        lemma_fundamental_div_mod_converse(st as int, n, 0, st as int);
        lemma_mod_bound(a, n);
        let prev: int = shuffle_walk(start, (k - 1) as nat, len) as int;
        assert(prev == a % n);
        lemma_add_mod_noop(a, st as int, n);
        assert((prev + st) % n == b % n);
        lemma_mod_bound(prev + st, n);
        assert(shuffle_walk(start, k, len) as int == (prev + st) % n);
    }
}

/// In shuffle mode one forward step ("next", or the end of a track with
/// repeat-all) moves from the walk's position after `k` steps to its
/// position after `k + 1` steps.
pub proof fn lemma_shuffle_walk_is_next(q: Queue, start: nat, k: nat, wrap: bool)
    requires
        q.shuffle,
        q.len() >= 2,
        start < q.len(),
    ensures
        shuffle_walk(start, k, q.len()) < q.len(),
        q.spec_next_track_index(shuffle_walk(start, k, q.len()), wrap) == Some(
            shuffle_walk(start, k + 1, q.len()) as usize,
        ),
{
    lemma_shuffle_walk_closed_form(start, k, q.len());
}

/// In shuffle mode the first `len` positions of a forward walk are pairwise
/// different: no song comes back before every song has had its turn.
#[verifier::spinoff_prover]
pub proof fn lemma_shuffle_walk_no_repeat(start: nat, j: nat, k: nat, len: nat)
    requires
        len >= 2,
        start < len,
        j < k < len,
    ensures
        shuffle_walk(start, j, len) != shuffle_walk(start, k, len),
{
    let st = spec_shuffle_stride(len);
    lemma_shuffle_stride_in_range(len);
    lemma_shuffle_walk_closed_form(start, j, len);
    lemma_shuffle_walk_closed_form(start, k, len);
    if shuffle_walk(start, j, len) == shuffle_walk(start, k, len) {
        let a: int = (start + k * st) as int;
        let b: int = (start + j * st) as int;
        lemma_mod_equivalence(a, b, len as int);
        assert(a - b == (k - j) * st) by (nonlinear_arith)
            requires
                a == start + k * st,
                b == start + j * st,
        ;
        lemma_coprime_cancel(st, len, k - j);
        lemma_fundamental_div_mod_converse(k - j, len as int, 0, k - j);
    }
}

/// In shuffle mode a forward walk from any song reaches any chosen song
/// within `len` steps; the step count is returned.
#[verifier::spinoff_prover]
pub proof fn lemma_shuffle_walk_reaches_every_song(start: nat, target: nat, len: nat) -> (k: nat)
    requires
        len >= 2,
        start < len,
        target < len,
    ensures
        k < len,
        shuffle_walk(start, k, len) == target,
{
    let st = spec_shuffle_stride(len);
    let n: int = len as int;
    lemma_shuffle_stride_in_range(len);
    let (x, y) = lemma_bezout(st, len);
    let d: int = target - start;
    let kk: int = (d * x) % n;
    lemma_fundamental_div_mod(d * x, n);
    let t: int = (d * x) / n;
    lemma_shuffle_walk_closed_form(start, kk as nat, len);
    assert(start + kk * st == n * (-(d * y + t * st)) + target) by (nonlinear_arith)
        requires
            x * st + y * n == 1,
            d * x == n * t + kk,
            d == target - start,
    ;
    lemma_fundamental_div_mod_converse(start + kk * st, n, -(d * y + t * st), target as int);
    kk as nat
}

/// In shuffle mode a forward walk is back at the song it started from after
/// exactly `len` steps: one full cycle plays every song once and returns.
pub proof fn lemma_shuffle_walk_returns_after_len(start: nat, len: nat)
    requires
        len >= 2,
        start < len,
    ensures
        shuffle_walk(start, len, len) == start,
{
    let st = spec_shuffle_stride(len);
    lemma_shuffle_walk_closed_form(start, len, len);
    assert(start + len * st == st * len + start) by (nonlinear_arith);
    lemma_fundamental_div_mod_converse((start + len * st) as int, len as int, st as int, start as int);
}

/// The position after `k` successive `advance` calls from `q` (each call
/// moves to `spec_next_index` and changes nothing else).
pub open spec fn after_advances(q: Queue, k: nat) -> Option<usize>
    decreases k,
{
    if k == 0 {
        q.current
    } else {
        Queue { current: after_advances(q, (k - 1) as nat), ..q }.spec_next_index()
    }
}

/// Some of the first `len` successive `advance` calls from `q` moves to
/// song `t`.
pub open spec fn reached_in_one_cycle(q: Queue, t: usize) -> bool {
    exists|k: nat| 1 <= k <= q.len() && #[trigger] after_advances(q, k) == Some(t)
}

proof fn lemma_advances_follow_walk(q: Queue, c: nat, k: nat)
    requires
        q.shuffle,
        q.repeat == RepeatMode::All,
        q.len() >= 2,
        q.current == Some(c as usize),
        c < q.len(),
    ensures
        after_advances(q, k) == Some(shuffle_walk(c, k, q.len()) as usize),
        shuffle_walk(c, k, q.len()) < q.len(),
    decreases k,
{
    assert(q.songs.len() == q.len());
    lemma_shuffle_walk_closed_form(c, k, q.len());
    if k > 0 {
        lemma_advances_follow_walk(q, c, (k - 1) as nat);
        lemma_shuffle_walk_is_next(q, c, (k - 1) as nat, true);
        let q1 = Queue { current: after_advances(q, (k - 1) as nat), ..q };
        assert(q1.len() == q.len());
        assert(q1.spec_next_track_index(shuffle_walk(c, (k - 1) as nat, q.len()), true)
            == q.spec_next_track_index(shuffle_walk(c, (k - 1) as nat, q.len()), true));
    }
}

/// In shuffle mode with repeat-all, `len` successive `advance` calls from
/// song `c` each give a song, no song twice, every song of the queue once,
/// and the last of them is `c` again: one full cycle.
pub proof fn lemma_shuffle_cycle_plays_every_song_once(q: Queue, c: usize)
    requires
        q.shuffle,
        q.repeat == RepeatMode::All,
        q.len() >= 2,
        q.current == Some(c),
        c < q.len(),
    ensures
        forall|k: nat| 1 <= k <= q.len() ==> (#[trigger] after_advances(q, k)) is Some,
        forall|j: nat, k: nat| 1 <= j < k <= q.len() ==> #[trigger] after_advances(q, j) != #[trigger] after_advances(q, k),
        forall|t: usize| t < q.len() ==> #[trigger] reached_in_one_cycle(q, t),
        after_advances(q, q.len()) == Some(c),
{
    let n = q.len();
    let cc = c as nat;
    assert(q.songs.len() == q.len());
    assert forall|k: nat| 1 <= k <= n implies (#[trigger] after_advances(q, k)) is Some by {
        lemma_advances_follow_walk(q, cc, k);
    }
    lemma_advances_follow_walk(q, cc, n);
    lemma_shuffle_walk_returns_after_len(cc, n);
    assert forall|j: nat, k: nat| 1 <= j < k <= n implies #[trigger] after_advances(q, j) != #[trigger] after_advances(q, k) by {
        lemma_advances_follow_walk(q, cc, j);
        lemma_advances_follow_walk(q, cc, k);
        if k < n {
            lemma_shuffle_walk_no_repeat(cc, j, k, n);
        } else {
            lemma_shuffle_walk_no_repeat(cc, 0, j, n);
        }
    }
    assert forall|t: usize| t < n implies #[trigger] reached_in_one_cycle(q, t) by {
        let k0 = lemma_shuffle_walk_reaches_every_song(cc, t as nat, n);
        if k0 == 0 {
            assert(after_advances(q, n) == Some(t));
        } else {
            lemma_advances_follow_walk(q, cc, k0);
            assert(after_advances(q, k0) == Some(t));
        }
    }
}

/// With repeat-one, the end of a track replays it, in shuffle mode too;
/// without a position there is nothing to play next, nor before.
pub proof fn lemma_repeat_one_replays_the_track(q: Queue)
    ensures
        q.repeat == RepeatMode::One ==> q.spec_next_index() == q.current,
        q.current is None ==> q.spec_next_index() is None && q.spec_next_manual_index() is None
            && q.spec_prev_index() is None,
{
}

/// In order (no shuffle), from song `c`: the end of a track and "next" go
/// to song `c + 1`; after the last song, repeat-all wraps to the first song,
/// "next" with repeat-one does so too, and otherwise nothing follows (the
/// end of a track with repeat-one stays, see
/// `lemma_repeat_one_replays_the_track`). "Previous" goes to song `c - 1`;
/// from the first song it wraps to the last with repeat-all and otherwise
/// stays on the first.
pub proof fn lemma_in_order_steps(q: Queue, c: usize)
    requires
        !q.shuffle,
        q.current == Some(c),
        c < q.len(),
    ensures
        c + 1 < q.len() && q.repeat != RepeatMode::One ==> q.spec_next_index() == Some((c + 1) as usize),
        c + 1 < q.len() ==> q.spec_next_manual_index() == Some((c + 1) as usize),
        c + 1 == q.len() && q.repeat == RepeatMode::All ==> q.spec_next_index() == Some(0usize),
        c + 1 == q.len() && q.repeat == RepeatMode::Off ==> q.spec_next_index() is None,
        c + 1 == q.len() && q.repeat != RepeatMode::Off ==> q.spec_next_manual_index() == Some(0usize),
        c + 1 == q.len() && q.repeat == RepeatMode::Off ==> q.spec_next_manual_index() is None,
        c > 0 ==> q.spec_prev_index() == Some((c - 1) as usize),
        c == 0 && q.repeat == RepeatMode::All ==> q.spec_prev_index() == Some((q.len() - 1) as usize),
        c == 0 && q.repeat != RepeatMode::All ==> q.spec_prev_index() == Some(0usize),
{
}

/// In shuffle mode with two or more songs, from song `c`: the end of a
/// track (unless repeat-one) and "next" step forward by the shuffle stride,
/// wrapping, and "previous" steps back by it; the stride is at least 1, below
/// the queue length and shares no factor with it. With a single song, "next"
/// stays on it unless repeat is off, when nothing follows.
pub proof fn lemma_shuffle_steps(q: Queue, c: usize)
    requires
        q.shuffle,
        q.current == Some(c),
        c < q.len(),
    ensures
        q.len() >= 2 ==> 1 <= spec_shuffle_stride(q.len()) < q.len() && spec_gcd(spec_shuffle_stride(q.len()), q.len()) == 1,
        q.len() >= 2 && q.repeat != RepeatMode::One ==> q.spec_next_index() == Some(((c + spec_shuffle_stride(q.len())) % (q.len() as int)) as usize),
        q.len() >= 2 ==> q.spec_next_manual_index() == Some(((c + spec_shuffle_stride(q.len())) % (q.len() as int)) as usize),
        q.len() >= 2 ==> q.spec_prev_index() == Some(((c + q.len() - spec_shuffle_stride(q.len())) % (q.len() as int)) as usize),
        q.len() == 1 && q.repeat == RepeatMode::Off ==> q.spec_next_manual_index() is None,
        q.len() == 1 && q.repeat != RepeatMode::Off ==> q.spec_next_manual_index() == Some(0usize),
        q.len() == 1 ==> q.spec_prev_index() == Some(0usize),
{
    if q.len() >= 2 {
        lemma_shuffle_stride_in_range(q.len());
    }
}

/// A "next" press moves as the end of a track would with repeat-one taken
/// as repeat-all: it moves on, wrapping, instead of replaying the song.
pub proof fn lemma_manual_next_treats_repeat_one_as_all(q: Queue, q2: Queue)
    requires
        q2.songs@ == q.songs@,
        q2.current == q.current,
        q2.shuffle == q.shuffle,
        q2.repeat == (if q.repeat == RepeatMode::One { RepeatMode::All } else { q.repeat }),
    ensures
        q.spec_next_manual_index() == q2.spec_next_index(),
{
}

/// In order mode, "previous" undoes a "next" that did not wrap.
pub proof fn lemma_previous_undoes_next_in_order(q: Queue, q2: Queue)
    requires
        q.wf(),
        !q.shuffle,
        q.current matches Some(c) && c + 1 < q.len(),
        q2.songs@ == q.songs@,
        !q2.shuffle,
        q2.repeat == q.repeat,
        q2.current == q.spec_next_manual_index(),
    ensures
        q2.spec_prev_index() == q.current,
{
    assert(q.songs.len() == q.len());
}

impl Default for Queue {
    fn default() -> (q: Queue)
        ensures
            q.songs@ == Seq::<Song>::empty(),
            q.current is None,
            !q.shuffle,
            q.repeat == RepeatMode::Off,
    {
        Queue::new()
    }
}

} // verus!
