//! A track of the library and the identity derived from its path.

use vstd::prelude::*;
use std::collections::hash_map::DefaultHasher;
use std::hash::Hash;
use std::hash::Hasher;
use crate::text::spec_lowercase;
use crate::text::lowercase;
use crate::text::chars_of;
use crate::text::push_char;
use crate::paths::platform_uses_backslash;

verus! {

/// One track of the library. Paths are held as text (see `crate::paths`);
/// the duration is held in nanoseconds.
#[derive(Debug, PartialEq, Eq)]
pub struct Song {
    pub id: i64,
    pub title: String,
    pub artist: String,
    pub album: String,
    pub album_artist: String,
    pub duration_ns: u128,
    pub year: Option<u32>,
    pub genre: Option<String>,
    pub composer: Option<String>,
    pub track_no: Option<u32>,
    pub path: String,
    pub has_embedded_art: bool,
}

pub fn clone_opt_string(o: &Option<String>) -> (r: Option<String>)
    ensures
        r == *o,
{
    match o {
        Some(s) => Some(s.clone()),
        None => None,
    }
}

impl Clone for Song {
    fn clone(&self) -> (r: Self)
        ensures
            r == *self,
    {
        Song {
            id: self.id,
            title: self.title.clone(),
            artist: self.artist.clone(),
            album: self.album.clone(),
            album_artist: self.album_artist.clone(),
            duration_ns: self.duration_ns,
            year: self.year,
            genre: clone_opt_string(&self.genre),
            composer: clone_opt_string(&self.composer),
            track_no: self.track_no,
            path: self.path.clone(),
            has_embedded_art: self.has_embedded_art,
        }
    }
}

/// Milliseconds in `ns` nanoseconds, truncated to 64 bits as `as u64` does.
pub open spec fn ms_of_ns(ns: u128) -> u64 {
    (ns / 1_000_000) as u64
}

impl Song {
    /// The duration in whole milliseconds.
    pub fn duration_ms(&self) -> (r: u64)
        ensures
            r == ms_of_ns(self.duration_ns),
    {
        let ms: u128 = self.duration_ns / 1_000_000;
        #[verifier::truncate]
        (ms as u64)
    }

    /// The duration in whole seconds.
    pub fn duration_secs(&self) -> (r: u64)
        ensures
            r == (self.duration_ns / 1_000_000_000) as u64,
    {
        let s: u128 = self.duration_ns / 1_000_000_000;
        #[verifier::truncate]
        (s as u64)
    }
}

/// `p` with every `\` replaced by `/`.
pub open spec fn forward_slashes(p: Seq<char>) -> Seq<char> {
    p.map_values(|c: char| if c == '\\' { '/' } else { c })
}

/// The key under which two paths name the same file: on a platform with `\`
/// separators, the path with forward slashes, lower-cased; elsewhere the path
/// itself.
pub open spec fn spec_path_key(p: Seq<char>, windows: bool) -> Seq<char> {
    if windows {
        spec_lowercase(forward_slashes(p))
    } else {
        p
    }
}

/// What hashing a key string with `DefaultHasher::new()` gives, as `i64`.
pub uninterp spec fn spec_key_hash(key: Seq<char>) -> i64;

/// Hashes `key` with a fresh `std::collections::hash_map::DefaultHasher`
/// (fixed keys, so the result depends on the text alone) and reinterprets the
/// 64-bit digest as `i64`.
#[verifier::external_body]
fn hash_key(key: &str) -> (r: i64)
    ensures
        r == spec_key_hash(key@),
{
    let mut h = DefaultHasher::new();
    key.hash(&mut h);
    h.finish() as i64
}

/// The path key of `path` on a platform that does (`windows`) or does not use
/// `\` separators.
pub fn normalize_path_key_on(path: &str, windows: bool) -> (r: String)
    ensures
        r@ == spec_path_key(path@, windows),
{
    if windows {
        let cs = chars_of(path);
        let mut s = String::new();
        let mut i: usize = 0;
        while i < cs.len()
            invariant
                i <= cs@.len(),
                cs@ == path@,
                s@ == forward_slashes(cs@.take(i as int)),
            decreases cs@.len() - i,
        {
            let c = cs[i];
            push_char(&mut s, if c == '\\' { '/' } else { c });
            assert(forward_slashes(cs@.take(i + 1)) =~= forward_slashes(cs@.take(i as int)).push(
                if c == '\\' { '/' } else { c },
            ));
            i = i + 1;
        }
        assert(cs@.take(cs@.len() as int) =~= cs@);
        lowercase(s.as_str())
    } else {
        path.to_owned()
    }
}

/// The path key of `path` on this platform. The contract admits either
/// separator convention on each call, as the platform is a fact of the
/// machine; that one path always gets the same key is stated by
/// `normalize_path_key_on`, for a given convention.
pub fn normalize_path_key(path: &str) -> (r: String)
    ensures
        r@ == spec_path_key(path@, false) || r@ == spec_path_key(path@, true),
{
    normalize_path_key_on(path, platform_uses_backslash())
}

/// The id of the song at `path`: the hash of its path key.
pub open spec fn spec_song_id(p: Seq<char>, windows: bool) -> i64 {
    spec_key_hash(spec_path_key(p, windows))
}

pub fn song_id_from_path_on(path: &str, windows: bool) -> (r: i64)
    ensures
        r == spec_song_id(path@, windows),
{
    let key = normalize_path_key_on(path, windows);
    hash_key(key.as_str())
}

/// The id of the song at `path` on this platform. The contract admits either
/// separator convention on each call, as the platform is a fact of the
/// machine; that one path always gets the same id is stated by
/// `song_id_from_path_on`, for a given convention.
pub fn song_id_from_path(path: &str) -> (r: i64)
    ensures
        r == spec_song_id(path@, false) || r == spec_song_id(path@, true),
{
    song_id_from_path_on(path, platform_uses_backslash())
}

/// Two paths with the same key get the same song id.
pub proof fn lemma_same_key_same_id(a: Seq<char>, b: Seq<char>, windows: bool)
    requires
        spec_path_key(a, windows) == spec_path_key(b, windows),
    ensures
        spec_song_id(a, windows) == spec_song_id(b, windows),
{
}

/// On a platform with `\` separators, paths that differ only in the kind of
/// separator name the same song.
pub proof fn lemma_separator_kind_does_not_change_id(a: Seq<char>, b: Seq<char>)
    requires
        forward_slashes(a) == forward_slashes(b),
    ensures
        spec_song_id(a, true) == spec_song_id(b, true),
{
}

} // verus!
