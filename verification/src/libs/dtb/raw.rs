//! Device tree queries over a checked blob.

use vstd::prelude::*;
use vstd::utf8::encode_utf8;

use super::cpu::DtbCpu;
use super::cpu::cpu_from_node;
use super::cpu::cpus_from_nodes;
use super::cpu::first_reg_start;
use super::cpu::CpuNodeData;
use super::fdt_api::fdt_children;
use super::fdt_api::fdt_children_data;
use super::fdt_api::fdt_nodes;
use super::fdt_api::fdt_nodes_data;
use super::fdt_api::nodes_data;
use super::fdt_api::NodeData;
use super::mem::DtbMemKind;
use super::mem::DtbMemRegion;
use super::mem::push_ram_regions;
use super::mem::mems_from_nodes;
use super::mem::node_ram_regions;
use super::mem::MemNodeData;
use super::props::find_prop;
use super::props::opt_bytes;
use super::props::opt_regs;
use super::props::prop_lookup;
use super::numa::read_numa_id;
use super::fdt_api::fdt_header_ok;
use super::structure::check_structure;
use super::structure::fdt_well_formed;
use crate::libs::endian::be_u32_at;
use crate::libs::endian::read_be_u32_at;

verus! {

/// What a child of `/cpus` gives: its name, `reg` ranges, and `numa-node-id`,
/// `clock-frequency` and `status` values.
pub open spec fn cpu_data_of(n: NodeData) -> CpuNodeData {
    (
        n.0,
        n.1,
        prop_lookup(n.2, encode_utf8("numa-node-id"@)),
        prop_lookup(n.2, encode_utf8("clock-frequency"@)),
        prop_lookup(n.2, encode_utf8("status"@)),
    )
}

/// What a `/memory` node gives: its `numa-node-id` value, whether it has a
/// `hotpluggable` property, and its `reg` ranges.
pub open spec fn mem_data_of(n: NodeData) -> MemNodeData {
    (prop_lookup(n.2, encode_utf8("numa-node-id"@)), prop_lookup(n.2, encode_utf8("hotpluggable"@)) is Some, n.1)
}

/// The children of `/cpus` in the blob, none when there is no `/cpus` node.
pub open spec fn cpu_nodes_of(data: Seq<u8>) -> Seq<CpuNodeData> {
    match fdt_children_data(data, "/cpus"@) {
        Some(ns) => ns.map_values(|n: NodeData| cpu_data_of(n)),
        None => Seq::empty(),
    }
}

/// The `/memory` nodes of the blob.
pub open spec fn mem_nodes_of(data: Seq<u8>) -> Seq<MemNodeData> {
    fdt_nodes_data(data, "/memory"@).map_values(|n: NodeData| mem_data_of(n))
}

/// A flattened device tree blob with a sound header, and whether its structure passed
/// the check the queries need.
pub struct RawDtb<'a> {
    data: &'a [u8],
    checked: bool,
}

impl<'a> RawDtb<'a> {
    /// The bytes of the blob.
    pub closed spec fn spec_data(&self) -> Seq<u8> {
        self.data@
    }

    #[verifier::type_invariant]
    closed spec fn inv(self) -> bool {
        &&& fdt_header_ok(self.data@)
        &&& self.checked == fdt_well_formed(self.data@)
    }

    /// Takes a blob with a sound header and checks its structure.
    pub fn new(data: &'a [u8]) -> (r: Self)
        requires
            fdt_header_ok(data@),
        ensures
            r.spec_data() == data@,
    {
        let checked = check_structure(data);
        RawDtb { data, checked }
    }

    /// Whether the structure passed the check; the queries find nothing when it did not.
    pub fn structure_ok(&self) -> (r: bool)
        ensures
            r == fdt_well_formed(self.spec_data()),
    {
        proof {
            use_type_invariant(self);
        }
        self.checked
    }

    /// The RAM regions of the `/memory` nodes, in order; nodes without `reg` give none.
    /// A blob that failed the structure check gives none.
    pub fn for_each_mem(&self) -> (r: Vec<DtbMemRegion>)
        ensures
            r@ == if fdt_well_formed(self.spec_data()) {
                mems_from_nodes(mem_nodes_of(self.spec_data()))
            } else {
                Seq::empty()
            },
            forall|k: int| 0 <= k < r@.len() ==> (#[trigger] r@[k]).kind == DtbMemKind::Ram,
    {
        proof {
            use_type_invariant(self);
        }
        if !self.checked {
            return Vec::new();
        }
        let nodes = fdt_nodes(self.data, "/memory");
        let ghost ds = nodes_data(nodes@).map_values(|n: NodeData| mem_data_of(n));
        let mut out: Vec<DtbMemRegion> = Vec::new();
        let mut i: usize = 0;
        while i < nodes.len()
            invariant
                i <= nodes@.len(),
                ds.len() == nodes@.len(),
                ds == nodes_data(nodes@).map_values(|n: NodeData| mem_data_of(n)),
                out@ == mems_from_nodes(ds.take(i as int)),
                forall|k: int| 0 <= k < out@.len() ==> (#[trigger] out@[k]).kind == DtbMemKind::Ram,
            decreases nodes@.len() - i,
        {
            let node = &nodes[i];
            let numa_v = find_prop(&node.props, "numa-node-id".as_bytes());
            let numa_id = read_numa_id(numa_v);
            let hotpluggable = find_prop(&node.props, "hotpluggable".as_bytes()).is_some();
            proof {
                assert(ds.take(i + 1).drop_last() =~= ds.take(i as int));
                assert(ds.take(i + 1).last() == ds[i as int]);
                assert(ds[i as int] == mem_data_of(node.data()));
            }
            match &node.reg {
                Some(reg) => push_ram_regions(reg, numa_id, hotpluggable, &mut out),
                None => {
                    assert(out@ =~= out@ + node_ram_regions(ds[i as int]));
                },
            }
            i = i + 1;
        }
        proof {
            assert(ds.take(ds.len() as int) =~= ds);
        }
        out
    }

    /// The CPUs of the `/cpus` node's children named `cpu` or `cpu@...`, in order; a child
    /// whose id cannot be read is skipped. A blob that failed the structure check gives
    /// none.
    pub fn for_each_cpu(&self) -> (r: Vec<DtbCpu>)
        ensures
            r@ == if fdt_well_formed(self.spec_data()) {
                cpus_from_nodes(cpu_nodes_of(self.spec_data()))
            } else {
                Seq::empty()
            },
    {
        proof {
            use_type_invariant(self);
            reveal_strlit("/cpus");
        }
        let mut out: Vec<DtbCpu> = Vec::new();
        if !self.checked {
            return out;
        }
        let children = match fdt_children(self.data, "/cpus") {
            Some(c) => c,
            None => {
                assert(out@ =~= cpus_from_nodes(cpu_nodes_of(self.spec_data())));
                return out;
            },
        };
        let ghost ds = nodes_data(children@).map_values(|n: NodeData| cpu_data_of(n));
        assert(ds == cpu_nodes_of(self.spec_data()));
        let mut i: usize = 0;
        while i < children.len()
            invariant
                i <= children@.len(),
                ds.len() == children@.len(),
                ds == nodes_data(children@).map_values(|n: NodeData| cpu_data_of(n)),
                out@ == cpus_from_nodes(ds.take(i as int)),
            decreases children@.len() - i,
        {
            let node = &children[i];
            let reg_first = match &node.reg {
                Some(reg) => if reg.len() > 0 {
                    Some(reg[0].0)
                } else {
                    None
                },
                None => None,
            };
            let numa_v = find_prop(&node.props, "numa-node-id".as_bytes());
            let freq_v = find_prop(&node.props, "clock-frequency".as_bytes());
            let status_v = find_prop(&node.props, "status".as_bytes());
            proof {
                assert(ds.take(i + 1).drop_last() =~= ds.take(i as int));
                assert(ds.take(i + 1).last() == ds[i as int]);
                assert(ds[i as int] == cpu_data_of(node.data()));
                assert(first_reg_start(opt_regs(node.reg)) == reg_first);
            }
            match cpu_from_node(node.name.as_slice(), reg_first, numa_v, freq_v, status_v) {
                Some(cpu) => {
                    out.push(cpu);
                },
                None => {},
            }
            assert(out@ =~= cpus_from_nodes(ds.take(i + 1)));
            i = i + 1;
        }
        proof {
            assert(ds.take(ds.len() as int) =~= ds);
        }
        out
    }

    /// Number of CPUs that `for_each_cpu` finds.
    pub fn cpu_count(&self) -> (r: usize)
        ensures
            r == if fdt_well_formed(self.spec_data()) {
                cpus_from_nodes(cpu_nodes_of(self.spec_data())).len()
            } else {
                0
            },
    {
        self.for_each_cpu().len()
    }

    /// Total size of the blob, as its header records.
    pub fn total_size(&self) -> (r: usize)
        ensures
            r == be_u32_at(self.spec_data(), 4),
    {
        proof {
            use_type_invariant(self);
        }
        read_be_u32_at(self.data, 4) as usize
    }
}

} // verus!
