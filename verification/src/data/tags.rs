//! Building a library song from a file's path and the tag values read from
//! it, with the fallbacks used when tags are missing.

use vstd::prelude::*;
use crate::domain::song::Song;
use crate::domain::song::spec_song_id;
use crate::domain::song::song_id_from_path_on;
use crate::paths::spec_file_stem;
use crate::paths::spec_file_name;
use crate::paths::spec_parent;
use crate::paths::file_stem_on;
use crate::paths::file_name_on;
use crate::paths::parent_on;
use crate::paths::platform_uses_backslash;
use crate::text::chars_of;
use crate::text::is_digit;
use crate::text::is_digit_exec;

verus! {

/// Where the run of ASCII digits that starts at `i` ends.
pub open spec fn digits_end(s: Seq<char>, i: int) -> int
    decreases s.len() - i,
{
    if 0 <= i < s.len() && is_digit(s[i]) {
        digits_end(s, i + 1)
    } else {
        i
    }
}

pub open spec fn digit_value(c: char) -> int {
    (c as int) - ('0' as int)
}

/// The number a string of decimal digits spells.
pub open spec fn dec_value(s: Seq<char>) -> int
    decreases s.len(),
{
    if s.len() == 0 {
        0
    } else {
        dec_value(s.drop_last()) * 10 + digit_value(s.last())
    }
}

/// The track number a file stem starts with: its leading digits, read as a
/// number, when there are some and the number fits in 32 bits.
pub open spec fn spec_track_prefix(stem: Seq<char>) -> Option<u32> {
    let k = digits_end(stem, 0);
    if k == 0 {
        None
    } else {
        let v = dec_value(stem.take(k));
        if v <= u32::MAX {
            Some(v as u32)
        } else {
            None
        }
    }
}

proof fn lemma_digits_end_bounds(s: Seq<char>, i: int)
    requires
        0 <= i <= s.len(),
    ensures
        i <= digits_end(s, i) <= s.len(),
        forall|j: int| i <= j < digits_end(s, i) ==> is_digit(#[trigger] s[j]),
    decreases s.len() - i,
{
    if i < s.len() && is_digit(s[i]) {
        lemma_digits_end_bounds(s, i + 1);
    }
}

proof fn lemma_dec_value_step(s: Seq<char>, i: int)
    requires
        0 <= i < s.len(),
        forall|j: int| 0 <= j <= i ==> is_digit(#[trigger] s[j]),
    ensures
        dec_value(s.take(i + 1)) == dec_value(s.take(i)) * 10 + digit_value(s[i]),
        dec_value(s.take(i + 1)) >= dec_value(s.take(i)),
{
    assert(s.take(i + 1).drop_last() =~= s.take(i));
    lemma_dec_value_nonneg(s.take(i));
    if exists|j: int| 0 <= j < s.take(i).len() && !is_digit(#[trigger] s.take(i)[j]) {
        let j = choose|j: int| 0 <= j < s.take(i).len() && !is_digit(#[trigger] s.take(i)[j]);
        assert(s.take(i)[j] == s[j]);
    }
}

proof fn lemma_dec_value_nonneg(s: Seq<char>)
    ensures
        dec_value(s) >= 0 || exists|j: int| 0 <= j < s.len() && !is_digit(#[trigger] s[j]),
    decreases s.len(),
{
    if s.len() > 0 {
        lemma_dec_value_nonneg(s.drop_last());
        if exists|j: int| 0 <= j < s.drop_last().len() && !is_digit(#[trigger] s.drop_last()[j]) {
            let j = choose|j: int| 0 <= j < s.drop_last().len() && !is_digit(#[trigger] s.drop_last()[j]);
            assert(s[j] == s.drop_last()[j]);
        }
    }
}

proof fn lemma_dec_value_mono(s: Seq<char>, i: int, k: int)
    requires
        0 <= i <= k <= s.len(),
        forall|j: int| 0 <= j < k ==> is_digit(#[trigger] s[j]),
    ensures
        dec_value(s.take(k)) >= dec_value(s.take(i)),
    decreases k - i,
{
    if i < k {
        lemma_dec_value_mono(s, i, k - 1);
        lemma_dec_value_step(s, k - 1);
    }
}

/// The track number `stem` starts with (see `spec_track_prefix`).
pub fn track_prefix_of_stem(stem: &[char]) -> (r: Option<u32>)
    ensures
        r == spec_track_prefix(stem@),
{
    let ghost s = stem@;
    let mut k: usize = 0;
    while k < stem.len() && is_digit_exec(stem[k])
        invariant
            k <= s.len(),
            s == stem@,
            digits_end(s, 0) == digits_end(s, k as int),
        decreases s.len() - k,
    {
        k = k + 1;
    }
    proof {
        lemma_digits_end_bounds(s, 0);
    }
    if k == 0 {
        return None;
    }
    let mut v: u64 = 0;
    let mut i: usize = 0;
    assert(s.take(0) =~= Seq::<char>::empty());
    while i < k
        invariant
            k == digits_end(s, 0),
            0 < k <= s.len(),
            s == stem@,
            forall|j: int| 0 <= j < k ==> is_digit(#[trigger] s[j]),
            i <= k,
            v as int == dec_value(s.take(i as int)),
            v <= u32::MAX,
        decreases k - i,
    {
        proof {
            lemma_dec_value_step(s, i as int);
        }
        let d: u64 = (stem[i] as u32 - '0' as u32) as u64;
        assert(d as int == digit_value(s[i as int]));
        let nv: u64 = v * 10 + d;
        if nv > u32::MAX as u64 {
            proof {
                lemma_dec_value_mono(s, i + 1, k as int);
            }
            return None;
        }
        v = nv;
        i = i + 1;
    }
    Some(v as u32)
}

/// The track number the file stem of `path` starts with, on a platform that
/// does (`windows`) or does not use `\` separators.
pub fn parse_track_prefix_on(path: &str, windows: bool) -> (r: Option<u32>)
    ensures
        r == (match spec_file_stem(path@, windows) {
            Some(stem) => spec_track_prefix(stem),
            None => None,
        }),
{
    match file_stem_on(path, windows) {
        Some(stem) => {
            let cs = chars_of(stem.as_str());
            track_prefix_of_stem(cs.as_slice())
        },
        None => None,
    }
}

pub open spec fn spec_parse_track_prefix(p: Seq<char>, w: bool) -> Option<u32> {
    match spec_file_stem(p, w) {
        Some(stem) => spec_track_prefix(stem),
        None => None,
    }
}

/// The track number the file stem of `path` starts with, on this platform.
pub fn parse_track_prefix(path: &str) -> (r: Option<u32>)
    ensures
        r == spec_parse_track_prefix(path@, false) || r == spec_parse_track_prefix(path@, true),
{
    parse_track_prefix_on(path, platform_uses_backslash())
}

/// The file stem, or "Unknown".
pub open spec fn spec_filename_stem(p: Seq<char>, w: bool) -> Seq<char> {
    match spec_file_stem(p, w) {
        Some(s) => s,
        None => "Unknown"@,
    }
}

/// The name of the folder holding the file, or "Unknown Album".
pub open spec fn spec_parent_folder_name(p: Seq<char>, w: bool) -> Seq<char> {
    match spec_parent(p, w) {
        Some(par) => match spec_file_name(par, w) {
            Some(n) => n,
            None => "Unknown Album"@,
        },
        None => "Unknown Album"@,
    }
}

pub fn filename_stem_on(path: &str, windows: bool) -> (r: String)
    ensures
        r@ == spec_filename_stem(path@, windows),
{
    match file_stem_on(path, windows) {
        Some(s) => s,
        None => "Unknown".to_owned(),
    }
}

pub fn parent_folder_name_on(path: &str, windows: bool) -> (r: String)
    ensures
        r@ == spec_parent_folder_name(path@, windows),
{
    match parent_on(path, windows) {
        Some(par) => match file_name_on(par.as_str(), windows) {
            Some(n) => n,
            None => "Unknown Album".to_owned(),
        },
        None => "Unknown Album".to_owned(),
    }
}

/// The name of the folder holding `path`, on this platform.
pub fn parent_folder_name(path: &str) -> (r: String)
    ensures
        r@ == spec_parent_folder_name(path@, false) || r@ == spec_parent_folder_name(path@, true),
{
    parent_folder_name_on(path, platform_uses_backslash())
}

/// The track number read from a file stem is its leading digits as a
/// decimal number: none without a leading digit; `d` for one digit, `10 *
/// d1 + d2` for two (so "01 - x" is track 1), `100 * d1 + 10 * d2 + d3` for
/// three, whatever follows the digits.
pub proof fn lemma_track_prefix_reads_leading_digits(s: Seq<char>)
    ensures
        (s.len() == 0 || !is_digit(s[0])) ==> spec_track_prefix(s) is None,
        s.len() >= 1 && is_digit(s[0]) && (s.len() == 1 || !is_digit(s[1])) ==> spec_track_prefix(s) == Some(
            ((s[0] as int) - 48) as u32,
        ),
        s.len() >= 2 && is_digit(s[0]) && is_digit(s[1]) && (s.len() == 2 || !is_digit(s[2])) ==> spec_track_prefix(s)
            == Some((10 * ((s[0] as int) - 48) + ((s[1] as int) - 48)) as u32),
        s.len() >= 3 && is_digit(s[0]) && is_digit(s[1]) && is_digit(s[2]) && (s.len() == 3 || !is_digit(s[3]))
            ==> spec_track_prefix(s) == Some((100 * ((s[0] as int) - 48) + 10 * ((s[1] as int) - 48) + ((s[2] as int)
            - 48)) as u32),
{
    reveal_with_fuel(digits_end, 5);
    reveal_with_fuel(dec_value, 4);
    if s.len() >= 1 && is_digit(s[0]) {
        let t1 = s.take(1);
        assert(t1.drop_last() =~= Seq::<char>::empty());
        assert(t1.last() == s[0]);
    }
    if s.len() >= 2 && is_digit(s[0]) && is_digit(s[1]) {
        let t2 = s.take(2);
        assert(t2.drop_last() =~= s.take(1));
        assert(s.take(1).drop_last() =~= Seq::<char>::empty());
    }
    if s.len() >= 3 && is_digit(s[0]) && is_digit(s[1]) && is_digit(s[2]) {
        let t3 = s.take(3);
        assert(t3.drop_last() =~= s.take(2));
        assert(s.take(2).drop_last() =~= s.take(1));
        assert(s.take(1).drop_last() =~= Seq::<char>::empty());
    }
}

/// The tag values read from an audio file, and its duration.
#[derive(Debug)]
pub struct TagInfo {
    pub title: Option<String>,
    pub artist: Option<String>,
    pub album: Option<String>,
    pub album_artist: Option<String>,
    pub year: Option<u32>,
    pub genre: Option<String>,
    pub composer: Option<String>,
    pub track: Option<u32>,
    pub picture_count: usize,
    pub duration_ns: u128,
}

/// The tag value, if present and not empty.
pub open spec fn given(o: Option<String>) -> Option<Seq<char>> {
    match o {
        Some(s) => if s@.len() > 0 {
            Some(s@)
        } else {
            None
        },
        None => None,
    }
}

pub open spec fn or_else(o: Option<Seq<char>>, d: Seq<char>) -> Seq<char> {
    match o {
        Some(s) => s,
        None => d,
    }
}

/// The song made for `path` from its tags: a missing or empty title falls
/// back to the file stem, artist to "Unknown Artist", album to the folder
/// name, album artist to the (resolved) artist; a missing track number to
/// the number the file stem starts with.
pub open spec fn spec_song_from_tags(p: Seq<char>, t: TagInfo, w: bool, s: Song) -> bool {
    let artist = or_else(given(t.artist), "Unknown Artist"@);
    &&& s.id == spec_song_id(p, w)
    &&& s.title@ == or_else(given(t.title), spec_filename_stem(p, w))
    &&& s.artist@ == artist
    &&& s.album@ == or_else(given(t.album), spec_parent_folder_name(p, w))
    &&& s.album_artist@ == or_else(given(t.album_artist), artist)
    &&& s.duration_ns == t.duration_ns
    &&& s.year == t.year
    &&& s.genre == t.genre
    &&& s.composer == t.composer
    &&& s.track_no == (match t.track {
        Some(n) => Some(n),
        None => spec_parse_track_prefix(p, w),
    })
    &&& s.path@ == p
    &&& s.has_embedded_art == (t.picture_count > 0)
}

/// What a song read from tags holds, field by field: each text tag that is
/// present and not empty is taken as it is; a missing or empty title gives
/// the file stem, artist "Unknown Artist", album the folder name, and album
/// artist whatever the song's artist is; a missing track number is read
/// from the start of the file name; duration, year, genre, composer and the
/// path are carried over, and the song has art when the tags hold a picture.
pub proof fn lemma_song_from_tags_fields(p: Seq<char>, t: TagInfo, w: bool, s: Song)
    requires
        spec_song_from_tags(p, t, w, s),
    ensures
        t.title matches Some(x) ==> (x@.len() > 0 ==> s.title@ == x@),
        given(t.title) is None ==> s.title@ == spec_filename_stem(p, w),
        t.artist matches Some(x) ==> (x@.len() > 0 ==> s.artist@ == x@),
        given(t.artist) is None ==> s.artist@ == "Unknown Artist"@,
        t.album matches Some(x) ==> (x@.len() > 0 ==> s.album@ == x@),
        given(t.album) is None ==> s.album@ == spec_parent_folder_name(p, w),
        t.album_artist matches Some(x) ==> (x@.len() > 0 ==> s.album_artist@ == x@),
        given(t.album_artist) is None ==> s.album_artist@ == s.artist@,
        t.track matches Some(n) ==> s.track_no == Some(n),
        t.track is None ==> s.track_no == spec_parse_track_prefix(p, w),
        s.path@ == p,
        s.duration_ns == t.duration_ns,
        s.year == t.year,
        s.genre == t.genre,
        s.composer == t.composer,
        s.has_embedded_art == (t.picture_count > 0),
{
}

/// A song made without tags has "Unknown Artist" for artist and album
/// artist alike, the file stem for title and the folder name for album.
pub proof fn lemma_synthetic_song_fields(p: Seq<char>, w: bool, s: Song)
    requires
        spec_synthetic_song(p, w, s),
    ensures
        s.artist@ == "Unknown Artist"@,
        s.album_artist@ == s.artist@,
        s.title@ == spec_filename_stem(p, w),
        s.album@ == spec_parent_folder_name(p, w),
        s.path@ == p,
        s.track_no == spec_parse_track_prefix(p, w),
{
}

fn given_or(o: Option<String>, d: String) -> (r: String)
    ensures
        r@ == or_else(given(o), d@),
{
    match o {
        Some(s) => if !s.as_str().is_empty() {
            s
        } else {
            d
        },
        None => d,
    }
}

pub fn song_from_tags_on(path: &str, tags: TagInfo, windows: bool) -> (s: Song)
    ensures
        spec_song_from_tags(path@, tags, windows, s),
{
    let ghost t = tags;
    let TagInfo { title, artist, album, album_artist, year, genre, composer, track, picture_count, duration_ns } = tags;
    let artist = given_or(artist, "Unknown Artist".to_owned());
    let album_artist = given_or(album_artist, artist.clone());
    let track_no = match track {
        Some(n) => Some(n),
        None => parse_track_prefix_on(path, windows),
    };
    Song {
        id: song_id_from_path_on(path, windows),
        title: given_or(title, filename_stem_on(path, windows)),
        artist,
        album: given_or(album, parent_folder_name_on(path, windows)),
        album_artist,
        duration_ns,
        year,
        genre,
        composer,
        track_no,
        path: path.to_owned(),
        has_embedded_art: picture_count > 0,
    }
}

/// The song made for `path` from its tags, on this platform.
pub fn song_from_tags(path: &str, tags: TagInfo) -> (s: Song)
    ensures
        spec_song_from_tags(path@, tags, false, s) || spec_song_from_tags(path@, tags, true, s),
{
    song_from_tags_on(path, tags, platform_uses_backslash())
}

/// The song made for a file whose tags could not be read: names from the
/// path, "Unknown Artist", a duration of one second.
pub open spec fn spec_synthetic_song(p: Seq<char>, w: bool, s: Song) -> bool {
    &&& s.id == spec_song_id(p, w)
    &&& s.title@ == spec_filename_stem(p, w)
    &&& s.artist@ == "Unknown Artist"@
    &&& s.album@ == spec_parent_folder_name(p, w)
    &&& s.album_artist@ == "Unknown Artist"@
    &&& s.duration_ns == 1_000_000_000
    &&& s.year is None
    &&& s.genre is None
    &&& s.composer is None
    &&& s.track_no == spec_parse_track_prefix(p, w)
    &&& s.path@ == p
    &&& !s.has_embedded_art
}

pub fn synthetic_song_on(path: &str, windows: bool) -> (s: Song)
    ensures
        spec_synthetic_song(path@, windows, s),
{
    Song {
        id: song_id_from_path_on(path, windows),
        title: filename_stem_on(path, windows),
        artist: "Unknown Artist".to_owned(),
        album: parent_folder_name_on(path, windows),
        album_artist: "Unknown Artist".to_owned(),
        duration_ns: 1_000_000_000,
        year: None,
        genre: None,
        composer: None,
        track_no: parse_track_prefix_on(path, windows),
        path: path.to_owned(),
        has_embedded_art: false,
    }
}

/// The song made for an unreadable file at `path`, on this platform.
pub fn synthetic_song(path: &str) -> (s: Song)
    ensures
        spec_synthetic_song(path@, false, s) || spec_synthetic_song(path@, true, s),
{
    synthetic_song_on(path, platform_uses_backslash())
}

} // verus!
