//! CPU identity as devices see it.

use vstd::prelude::*;

verus! {

/// A CPU identifier. It is switched along with every task during a CPU context switch.
#[derive(Clone, Copy, Debug, PartialEq, Eq, Structural)]
pub struct CpuId(pub usize);

impl CpuId {
    pub fn new(cid: usize) -> (r: Self)
        ensures
            r.0 == cid,
    {
        CpuId(cid)
    }

    /// Returns the raw CPU id.
    pub fn get(&self) -> (r: usize)
        ensures
            r == self.0,
    {
        self.0
    }
}

} // verus!
