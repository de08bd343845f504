//! Channel mapping when decoded audio is interleaved for the output device,
//! and the seek mailbox value.

use vstd::prelude::*;

verus! {

/// The value of the seek mailbox that means "no seek requested".
pub const NO_SEEK: u64 = 0xffff_ffff_ffff_ffff;

/// The mailbox value for a seek to `ms`: `NO_SEEK` itself is moved one
/// millisecond earlier so a request is never lost.
pub fn seek_request_value(ms: u64) -> (r: u64)
    ensures
        r == (if ms == NO_SEEK { (NO_SEEK - 1) as u64 } else { ms }),
        r != NO_SEEK,
{
    if ms == NO_SEEK {
        NO_SEEK - 1
    } else {
        ms
    }
}

/// The source channel that feeds output channel `c` when there are
/// `n_src` source channels: a mono source feeds every channel; otherwise
/// channel `c`, or the last source channel for outputs beyond the sources.
pub open spec fn source_channel(n_src: nat, c: nat) -> nat {
    if n_src == 1 {
        0
    } else if c < n_src {
        c
    } else {
        (n_src - 1) as nat
    }
}

/// Frames in the planar data: the length of its first channel.
pub open spec fn frame_count<T>(planar: Seq<Vec<T>>) -> nat {
    if planar.len() == 0 {
        0
    } else {
        planar[0]@.len()
    }
}

/// The sample of output channel `c` in frame `f`: the sample of its source
/// channel, or `zero` when that channel is shorter.
pub open spec fn mapped_sample<T>(planar: Seq<Vec<T>>, f: nat, c: nat, zero: T) -> T {
    let src = source_channel(planar.len(), c) as int;
    if f < planar[src]@.len() {
        planar[src]@[f as int]
    } else {
        zero
    }
}

/// Interleaves `planar` into `out` for `dst_ch` output channels, one frame
/// after another (reusing `out`'s storage).
pub fn interleave_into<T: Copy>(planar: &[Vec<T>], dst_ch: u16, out: &mut Vec<T>, zero: T)
    requires
        frame_count(planar@) * dst_ch <= usize::MAX,
    ensures
        final(out)@.len() == frame_count(planar@) * dst_ch,
        forall|f: int, c: int|
            0 <= f < frame_count(planar@) && 0 <= c < dst_ch ==> #[trigger] final(out)@[f * dst_ch + c]
                == mapped_sample(planar@, f as nat, c as nat, zero),
{
    let frames: usize = if planar.len() == 0 { 0 } else { planar[0].len() };
    out.clear();
    let n = planar.len();
    let ghost d = dst_ch as int;
    let mut f: usize = 0;
    while f < frames
        invariant
            frames == frame_count(planar@),
            n == planar@.len(),
            frames * d <= usize::MAX,
            d == dst_ch as int,
            f <= frames,
            out@.len() == f * d,
            forall|g: int, c: int|
                0 <= g < f && 0 <= c < d ==> #[trigger] out@[g * d + c] == mapped_sample(planar@, g as nat, c as nat, zero),
        decreases frames - f,
    {
        let mut c: u16 = 0;
        while c < dst_ch
            invariant
                frames == frame_count(planar@),
                n == planar@.len(),
                n > 0,
                frames * d <= usize::MAX,
                d == dst_ch as int,
                f < frames,
                c <= dst_ch,
                out@.len() == f * d + c,
                forall|g: int, k: int|
                    0 <= g < f && 0 <= k < d ==> #[trigger] out@[g * d + k] == mapped_sample(planar@, g as nat, k as nat, zero),
                forall|k: int| 0 <= k < c ==> #[trigger] out@[f * d + k] == mapped_sample(planar@, f as nat, k as nat, zero),
            decreases dst_ch - c,
        {
            let src: usize = if n == 1 {
                0
            } else if (c as usize) < n {
                c as usize
            } else {
                n - 1
            };
            let ch = &planar[src];
            let v = if f < ch.len() { ch[f] } else { zero };
            proof {
                assert(f * d + c < frames * d) by (nonlinear_arith)
                    requires
                        f < frames,
                        c < d,
                ;
            }
            out.push(v);
            proof {
                assert forall|g: int, k: int| 0 <= g < f && 0 <= k < d implies #[trigger] out@[g * d + k]
                    == mapped_sample(planar@, g as nat, k as nat, zero) by {
                    assert(g * d + k < f * d) by (nonlinear_arith)
                        requires
                            g < f,
                            0 <= k < d,
                    ;
                }
            }
            c = c + 1;
        }
        proof {
            assert forall|g: int, k: int| 0 <= g < f + 1 && 0 <= k < d implies #[trigger] out@[g * d + k]
                == mapped_sample(planar@, g as nat, k as nat, zero) by {
                if g == f {
                } else {
                }
            }
            assert((f + 1) * d == f * d + d) by (nonlinear_arith);
        }
        f = f + 1;
    }
}

/// `interleave_into` into a fresh vector.
pub fn interleave_with_channel_map<T: Copy>(planar: &[Vec<T>], dst_ch: u16, zero: T) -> (out: Vec<T>)
    requires
        frame_count(planar@) * dst_ch <= usize::MAX,
    ensures
        out@.len() == frame_count(planar@) * dst_ch,
        forall|f: int, c: int|
            0 <= f < frame_count(planar@) && 0 <= c < dst_ch ==> #[trigger] out@[f * dst_ch + c]
                == mapped_sample(planar@, f as nat, c as nat, zero),
{
    let mut out: Vec<T> = Vec::new();
    interleave_into(planar, dst_ch, &mut out, zero);
    out
}

} // verus!
