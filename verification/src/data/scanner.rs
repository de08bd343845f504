//! Which files the library scanner takes for audio.

use vstd::prelude::*;
use crate::paths::spec_extension;
use crate::paths::file_name_range;
use crate::paths::split_name;
use crate::paths::platform_uses_backslash;
use crate::text::chars_of;
use crate::text::eq_ignore_ascii_case;
use crate::text::eq_ignore_ascii_case_exec;
use crate::text::ascii_lower;

verus! {

/// An extension of the audio formats the player takes, compared without
/// regard to ASCII case.
pub open spec fn is_audio_extension(e: Seq<char>) -> bool {
    ||| eq_ignore_ascii_case(e, "mp3"@)
    ||| eq_ignore_ascii_case(e, "flac"@)
    ||| eq_ignore_ascii_case(e, "m4a"@)
    ||| eq_ignore_ascii_case(e, "ogg"@)
    ||| eq_ignore_ascii_case(e, "wav"@)
    ||| eq_ignore_ascii_case(e, "aac"@)
    ||| eq_ignore_ascii_case(e, "opus"@)
}

/// A path whose file name has an audio extension.
pub open spec fn spec_is_audio_path(p: Seq<char>, w: bool) -> bool {
    match spec_extension(p, w) {
        Some(e) => is_audio_extension(e),
        None => false,
    }
}

/// The audio formats are exactly mp3, flac, m4a, ogg, wav, aac and opus, in
/// any ASCII case: an extension is taken when, letters lower-cased, it is
/// one of these.
pub proof fn lemma_audio_extensions(e: Seq<char>)
    ensures
        is_audio_extension(e) == ({
            let lower = e.map_values(|c: char| ascii_lower(c));
            ||| lower == seq!['m', 'p', '3']
            ||| lower == seq!['f', 'l', 'a', 'c']
            ||| lower == seq!['m', '4', 'a']
            ||| lower == seq!['o', 'g', 'g']
            ||| lower == seq!['w', 'a', 'v']
            ||| lower == seq!['a', 'a', 'c']
            ||| lower == seq!['o', 'p', 'u', 's']
        }),
{
    reveal_strlit("mp3");
    reveal_strlit("flac");
    reveal_strlit("m4a");
    reveal_strlit("ogg");
    reveal_strlit("wav");
    reveal_strlit("aac");
    reveal_strlit("opus");
    assert("mp3"@ =~= seq!['m', 'p', '3']);
    assert("flac"@ =~= seq!['f', 'l', 'a', 'c']);
    assert("m4a"@ =~= seq!['m', '4', 'a']);
    assert("ogg"@ =~= seq!['o', 'g', 'g']);
    assert("wav"@ =~= seq!['w', 'a', 'v']);
    assert("aac"@ =~= seq!['a', 'a', 'c']);
    assert("opus"@ =~= seq!['o', 'p', 'u', 's']);
    let lower = e.map_values(|c: char| ascii_lower(c));
    assert forall|b: Seq<char>| (forall|i: int| 0 <= i < b.len() ==> ascii_lower(#[trigger] b[i]) == b[i]) implies
        eq_ignore_ascii_case(e, b) == (lower == b) by {
        if eq_ignore_ascii_case(e, b) {
            assert(lower =~= b);
        }
        if lower == b {
            assert forall|i: int| 0 <= i < e.len() implies ascii_lower(e[i]) == ascii_lower(b[i]) by {
                assert(lower[i] == ascii_lower(e[i]));
            }
        }
    }
}

fn matches_ext(e: &[char], lit: &str) -> (r: bool)
    ensures
        r == eq_ignore_ascii_case(e@, lit@),
{
    let l = chars_of(lit);
    eq_ignore_ascii_case_exec(e, l.as_slice())
}

pub fn is_audio_extension_exec(e: &[char]) -> (r: bool)
    ensures
        r == is_audio_extension(e@),
{
    matches_ext(e, "mp3") || matches_ext(e, "flac") || matches_ext(e, "m4a") || matches_ext(e, "ogg")
        || matches_ext(e, "wav") || matches_ext(e, "aac") || matches_ext(e, "opus")
}

pub fn is_audio_path_on(path: &str, windows: bool) -> (r: bool)
    ensures
        r == spec_is_audio_path(path@, windows),
{
    let p = chars_of(path);
    match file_name_range(p.as_slice(), windows) {
        None => false,
        Some((s, e)) => {
            let name = crate::text::string_from_range(p.as_slice(), s, e);
            let nv = chars_of(name.as_str());
            let (_, ext_start) = split_name(nv.as_slice());
            match ext_start {
                None => false,
                Some(x) => {
                    let ext = crate::text::string_from_range(nv.as_slice(), x, nv.len());
                    let ev = chars_of(ext.as_str());
                    is_audio_extension_exec(ev.as_slice())
                },
            }
        },
    }
}

/// Whether `path` names an audio file, on this platform.
pub fn is_audio_path(path: &str) -> (r: bool)
    ensures
        r == spec_is_audio_path(path@, false) || r == spec_is_audio_path(path@, true),
{
    is_audio_path_on(path, platform_uses_backslash())
}

} // verus!
