//! Time labels of the seek bar.

use vstd::prelude::*;
use crate::text::push_decimal;
use crate::text::push_char;
use crate::text::push_two_digits;
use crate::text::spec_decimal;
use crate::text::spec_zero_padded;

verus! {

/// `m:ss` for a position of `ms` milliseconds (whole minutes, then the
/// seconds within the minute on two digits).
pub open spec fn spec_fmt_time_ms(ms: u64) -> Seq<char> {
    let total_secs = ms / 1000;
    spec_decimal((total_secs / 60) as nat).push(':') + spec_zero_padded((total_secs % 60) as nat, 2)
}

pub fn fmt_time_ms(ms: u64) -> (r: String)
    ensures
        r@ == spec_fmt_time_ms(ms),
{
    let total_secs = ms / 1000;
    let m = total_secs / 60;
    let s = total_secs % 60;
    let mut out = String::new();
    push_decimal(&mut out, m as u128);
    push_char(&mut out, ':');
    push_two_digits(&mut out, s as u128);
    assert(out@ =~= spec_fmt_time_ms(ms));
    out
}

} // verus!
