//! The library paths part of the settings.

use vstd::prelude::*;

verus! {

/// The folders the library scanner walks.
#[derive(Debug)]
pub struct ScanSettings {
    pub roots: Vec<String>,
}

impl Default for ScanSettings {
    fn default() -> (s: Self)
        ensures
            s.roots@.len() == 0,
    {
        ScanSettings { roots: Vec::new() }
    }
}

impl Clone for ScanSettings {
    fn clone(&self) -> (r: Self)
        ensures
            r.roots@ == self.roots@,
    {
        let mut roots: Vec<String> = Vec::new();
        let mut i: usize = 0;
        while i < self.roots.len()
            invariant
                i <= self.roots@.len(),
                roots@ == self.roots@.take(i as int),
            decreases self.roots@.len() - i,
        {
            roots.push(self.roots[i].clone());
            assert(roots@ =~= self.roots@.take(i + 1));
            i = i + 1;
        }
        assert(self.roots@.take(self.roots@.len() as int) =~= self.roots@);
        ScanSettings { roots }
    }
}

} // verus!
