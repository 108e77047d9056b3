//! The flattened device tree handed over by the firmware.

use vstd::prelude::*;

use super::cpu::DtbCpu;
use super::cpu::cpus_from_nodes;
use super::mem::DtbMemKind;
use super::mem::DtbMemRegion;
use super::mem::mems_from_nodes;
use super::fdt_api::fdt_header_ok;
use super::raw::RawDtb;
use super::raw::cpu_nodes_of;
use super::raw::mem_nodes_of;
use super::structure::fdt_well_formed;
use crate::libs::endian::be_u32_at;
use crate::libs::endian::read_be_u32_at;

verus! {

/// Magic number at the start of a device tree blob.
pub const DTB_MAGIC: u32 = 0xd00dfeed;

/// Offset of the magic number.
pub const DTB_MAGIC_OFFSET: usize = 0;

/// Offset of the total size.
pub const DTB_SIZE_OFFSET: usize = 4;

/// Whether a blob at the start of `data` is accepted: right magic and a non-zero size.
pub open spec fn dtb_accepted(data: Seq<u8>) -> bool {
    be_u32_at(data, 0) == DTB_MAGIC && be_u32_at(data, 4) != 0
}

/// A device tree.
pub struct Dtb<'a> {
    raw: RawDtb<'a>,
}

impl<'a> Dtb<'a> {
    /// The bytes of the blob (exactly its recorded total size).
    pub closed spec fn spec_data(&self) -> Seq<u8> {
        self.raw.spec_data()
    }

    /// Reads the device tree whose blob starts `data`: `None` when the magic number is
    /// wrong or the recorded size is zero. An accepted blob must lie within `data` and
    /// hold its 40-byte header. Its structure is checked here; the queries find nothing in
    /// a blob that fails the check.
    pub fn new(data: &'a [u8]) -> (r: Option<Self>)
        requires
            data@.len() >= 8,
            dtb_accepted(data@) ==> 40 <= be_u32_at(data@, 4) <= data@.len(),
        ensures
            r is Some <==> dtb_accepted(data@),
            r matches Some(d) ==> d.spec_data() == data@.subrange(0, be_u32_at(data@, 4) as int)
                && be_u32_at(d.spec_data(), 4) == be_u32_at(data@, 4),
    {
        let magic = read_be_u32_at(data, DTB_MAGIC_OFFSET);
        if magic != DTB_MAGIC {
            return None;
        }
        let size = read_be_u32_at(data, DTB_SIZE_OFFSET);
        if size == 0 {
            return None;
        }
        let (blob, _) = data.split_at(size as usize);
        proof {
            assert(blob@ =~= data@.subrange(0, size as int));
            assert(be_u32_at(blob@, 0) == magic);
            assert(be_u32_at(blob@, 4) == size);
        }
        let raw = RawDtb::new(blob);
        Some(Self { raw })
    }

    /// The RAM regions of the `/memory` nodes, in the order the tree lists them.
    pub fn for_each_mem(&self) -> (r: Vec<DtbMemRegion>)
        ensures
            r@ == if fdt_well_formed(self.spec_data()) {
                mems_from_nodes(mem_nodes_of(self.spec_data()))
            } else {
                Seq::empty()
            },
            forall|k: int| 0 <= k < r@.len() ==> (#[trigger] r@[k]).kind == DtbMemKind::Ram,
    {
        self.raw.for_each_mem()
    }

    /// The CPUs of the `/cpus` node, in the order the tree lists them.
    pub fn for_each_cpu(&self) -> (r: Vec<DtbCpu>)
        ensures
            r@ == if fdt_well_formed(self.spec_data()) {
                cpus_from_nodes(cpu_nodes_of(self.spec_data()))
            } else {
                Seq::empty()
            },
    {
        self.raw.for_each_cpu()
    }

    /// Number of CPUs in the `/cpus` node: the length of what `for_each_cpu` returns.
    pub fn cpu_count(&self) -> (r: usize)
        ensures
            r == if fdt_well_formed(self.spec_data()) {
                cpus_from_nodes(cpu_nodes_of(self.spec_data())).len()
            } else {
                0
            },
    {
        self.raw.cpu_count()
    }

    /// Whether the blob's structure passed the check the queries need.
    pub fn structure_ok(&self) -> (r: bool)
        ensures
            r == fdt_well_formed(self.spec_data()),
    {
        self.raw.structure_ok()
    }

    /// Total size of the blob in bytes.
    pub fn total_size(&self) -> (r: usize)
        ensures
            r == be_u32_at(self.spec_data(), 4),
    {
        self.raw.total_size()
    }
}

} // verus!
