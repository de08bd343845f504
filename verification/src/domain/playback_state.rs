use vstd::prelude::*;

verus! {

/// How the queue behaves when a track ends.
#[derive(Debug, Clone, Copy, PartialEq, Eq, Structural)]
pub enum RepeatMode {
    Off,
    All,
    One,
}

impl RepeatMode {
    /// The mode that follows `self` in the cycle Off -> All -> One -> Off.
    pub open spec fn spec_next(self) -> RepeatMode {
        match self {
            RepeatMode::Off => RepeatMode::All,
            RepeatMode::All => RepeatMode::One,
            RepeatMode::One => RepeatMode::Off,
        }
    }

    pub fn next(self) -> (r: RepeatMode)
        ensures
            r == self.spec_next(),
    {
        match self {
            RepeatMode::Off => RepeatMode::All,
            RepeatMode::All => RepeatMode::One,
            RepeatMode::One => RepeatMode::Off,
        }
    }
}

/// Cycling through the repeat modes three times gives back the mode one
/// started from.
pub proof fn lemma_repeat_cycle_has_period_three(m: RepeatMode)
    ensures
        m.spec_next().spec_next().spec_next() == m,
        m.spec_next() != m,
{
}

impl Default for RepeatMode {
    /// Repeat is off by default.
    fn default() -> (r: RepeatMode)
        ensures
            r == RepeatMode::Off,
    {
        RepeatMode::Off
    }
}

} // verus!
