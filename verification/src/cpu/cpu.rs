//! CPU identity.

use vstd::prelude::*;

use super::numa::NId;
use crate::libs::error::dec_chars;
use crate::libs::error::push_dec;
use vstd::string::StringExecFns;

verus! {

/// A CPU identifier.
#[derive(Clone, Copy, Debug, PartialEq, Eq, Structural)]
pub struct CpuId(pub usize);

impl CpuId {
    pub fn new(cid: usize) -> (r: Self)
        ensures
            r.0 == cid,
    {
        CpuId(cid)
    }

    /// Returns the raw CPU id.
    pub fn get(&self) -> (r: usize)
        ensures
            r == self.0,
    {
        self.0
    }

    /// The id as text: `C` and the decimal number, such as `C3`.
    pub fn describe(&self) -> (r: String)
        ensures
            r@ == "C"@ + dec_chars(self.0 as nat),
    {
        let mut s = String::from_str("C");
        push_dec(self.0, &mut s);
        s
    }
}

/// Per-CPU device information.
pub struct CpuDev {
    pub id: CpuId,
    pub nid: NId,
    pub ticks: u64,
}

impl CpuDev {
    pub fn new(id: CpuId, nid: NId, ticks: u64) -> (r: Self)
        ensures
            r.id == id,
            r.nid == nid,
            r.ticks == ticks,
    {
        CpuDev { id, nid, ticks }
    }
}

} // verus!
