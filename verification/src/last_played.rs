//! The record of the last track played, read at startup to resume it.

use vstd::prelude::*;

verus! {

/// Which track was playing, and where in it.
#[derive(Debug, PartialEq, Eq)]
pub struct LastPlayed {
    pub path: String,
    pub position_ms: u64,
}

impl Clone for LastPlayed {
    fn clone(&self) -> (r: Self)
        ensures
            r == *self,
    {
        LastPlayed { path: self.path.clone(), position_ms: self.position_ms }
    }
}

} // verus!
