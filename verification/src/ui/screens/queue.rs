//! The queue screen's copy of the queue, refreshed only when its contents
//! change.

use vstd::prelude::*;
use crate::domain::song::Song;
use std::collections::hash_map::DefaultHasher;
use std::hash::Hasher;
use vstd::bytes::spec_u64_to_le_bytes;
use vstd::bytes::u64_to_le_bytes;
use vstd::std_specs::hash::DefaultHasherAdditionalSpecFns;

verus! {

/// What the digest of `songs` is made from: the number of songs, then each
/// song id, each as its eight little-endian bytes.
pub open spec fn fingerprint_input(songs: Seq<Song>) -> Seq<Seq<u8>> {
    seq![spec_u64_to_le_bytes(songs.len() as u64)] + songs.map_values(|s: Song| spec_u64_to_le_bytes(s.id as u64))
}

/// A digest of the queue's length and song ids: what a fresh
/// `DefaultHasher` gives after being fed `fingerprint_input(songs)`.
pub fn queue_fingerprint(songs: &[Song]) -> (r: u64)
    ensures
        r == DefaultHasher::spec_finish(fingerprint_input(songs@)),
{
    let mut h = DefaultHasher::new();
    let n = u64_to_le_bytes(songs.len() as u64);
    h.write(n.as_slice());
    let ghost head = seq![spec_u64_to_le_bytes(songs@.len() as u64)];
    assert(h@ =~= head);
    let mut i: usize = 0;
    while i < songs.len()
        invariant
            i <= songs@.len(),
            head == seq![spec_u64_to_le_bytes(songs@.len() as u64)],
            h@ == head + songs@.take(i as int).map_values(|s: Song| spec_u64_to_le_bytes(s.id as u64)),
        decreases songs@.len() - i,
    {
        let b = u64_to_le_bytes(songs[i].id as u64);
        h.write(b.as_slice());
        assert(songs@.take(i + 1).map_values(|s: Song| spec_u64_to_le_bytes(s.id as u64))
            =~= songs@.take(i as int).map_values(|s: Song| spec_u64_to_le_bytes(s.id as u64)).push(
            spec_u64_to_le_bytes(songs@[i as int].id as u64),
        ));
        assert(h@ =~= head + songs@.take(i + 1).map_values(|s: Song| spec_u64_to_le_bytes(s.id as u64)));
        i = i + 1;
    }
    assert(songs@.take(songs@.len() as int) =~= songs@);
    h.finish()
}

/// The queue as the queue screen last copied it.
#[derive(Debug)]
pub struct QueueState {
    pub fingerprint: u64,
    pub current: Option<usize>,
    pub songs: Vec<Song>,
}

impl Default for QueueState {
    fn default() -> (q: Self)
        ensures
            q.fingerprint == 0,
            q.current is None,
            q.songs@.len() == 0,
    {
        QueueState { fingerprint: 0, current: None, songs: Vec::new() }
    }
}

impl QueueState {
    /// Takes the queue's position, and its songs when their digest differs
    /// from the one last copied.
    pub fn sync_from(&mut self, songs: &Vec<Song>, current: Option<usize>)
        ensures
            final(self).current == current,
            final(self).fingerprint == DefaultHasher::spec_finish(fingerprint_input(songs@)),
            old(self).fingerprint != DefaultHasher::spec_finish(fingerprint_input(songs@)) ==> final(self).songs@
                == songs@,
            old(self).fingerprint == DefaultHasher::spec_finish(fingerprint_input(songs@)) ==> final(self).songs@
                == old(self).songs@,
    {
        let fingerprint = queue_fingerprint(songs.as_slice());
        if self.fingerprint != fingerprint {
            self.songs = songs.clone();
            self.fingerprint = fingerprint;
        }
        self.current = current;
    }

    /// Forces the next sync to copy the songs again (unless the digest
    /// happens to be 0).
    pub fn mark_stale(&mut self)
        ensures
            final(self).fingerprint == 0,
            final(self).current == old(self).current,
            final(self).songs == old(self).songs,
    {
        self.fingerprint = 0;
    }
}

} // verus!
