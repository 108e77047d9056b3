//! NUMA information of device tree nodes.

use vstd::prelude::*;

use super::props::prop_u32;
use super::props::prop_u32_spec;

verus! {

/// The NUMA node id a `numa-node-id` property value gives.
pub open spec fn numa_id_spec(value: Option<Seq<u8>>) -> Option<usize> {
    match prop_u32_spec(value) {
        Some(n) => Some(n as usize),
        None => None,
    }
}

/// The NUMA node id from a `numa-node-id` property value.
pub fn read_numa_id(value: Option<&[u8]>) -> (r: Option<usize>)
    ensures
        r == numa_id_spec(match value { Some(v) => Some(v@), None => None }),
{
    match prop_u32(value) {
        Some(id) => Some(id as usize),
        None => None,
    }
}

} // verus!
