//! The playback position derived from the output's sample counters.

use vstd::prelude::*;

verus! {

/// Milliseconds of audio in `samples` interleaved samples of `channels`
/// channels at `sample_rate` (zero channels or rate count as one).
pub open spec fn samples_to_ms(samples: u64, channels: u16, sample_rate: u32) -> int {
    let ch: int = if channels == 0 { 1 } else { channels as int };
    let sr: int = if sample_rate == 0 { 1 } else { sample_rate as int };
    ((samples as int / ch) * 1000) / sr
}

/// The played position: the anchor set by the last seek plus the audio
/// played since.
pub fn played_duration_ms(samples_played: u64, channels: u16, sample_rate: u32, offset_ms: u64) -> (r: u64)
    requires
        (samples_played as int / (if channels == 0 { 1 } else { channels as int })) * 1000 <= u64::MAX,
        offset_ms + samples_to_ms(samples_played, channels, sample_rate) <= u64::MAX,
    ensures
        r == offset_ms + samples_to_ms(samples_played, channels, sample_rate),
{
    let ch: u64 = if channels == 0 { 1 } else { channels as u64 };
    let sr: u64 = if sample_rate == 0 { 1 } else { sample_rate as u64 };
    let frames = samples_played / ch;
    let from_samples = (frames * 1000) / sr;
    offset_ms + from_samples
}

} // verus!
