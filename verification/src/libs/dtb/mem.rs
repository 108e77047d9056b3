//! Memory regions of the device tree.

use vstd::prelude::*;

use super::numa::numa_id_spec;

verus! {

/// Kind of a memory region.
#[derive(Debug, Clone, Copy, PartialEq, Eq, Structural)]
pub enum DtbMemKind {
    /// /memory node
    Ram,
    /// /reserved-memory node
    Reserved,
    /// Device-mapped I/O
    Mmio,
}

/// A memory region described by the device tree.
#[derive(Debug, Clone, Copy, PartialEq, Eq, Structural)]
pub struct DtbMemRegion {
    pub base: usize,
    pub size: usize,
    /// NUMA node, when the device tree tells it.
    pub numa_id: Option<usize>,
    pub kind: DtbMemKind,
    pub hotpluggable: bool,
}

/// The RAM region of one `reg` range of a `/memory` node (a missing size counts as 0).
pub open spec fn ram_region(reg: (usize, Option<usize>), numa_id: Option<usize>, hotpluggable: bool) -> DtbMemRegion {
    DtbMemRegion {
        base: reg.0,
        size: match reg.1 {
            Some(s) => s,
            None => 0,
        },
        numa_id,
        kind: DtbMemKind::Ram,
        hotpluggable,
    }
}

/// What the device tree gives of a `/memory` node: its `numa-node-id` value, whether it
/// has a `hotpluggable` property, and its `reg` ranges (`None` when it has no usable
/// `reg`).
pub type MemNodeData = (Option<Seq<u8>>, bool, Option<Seq<(usize, Option<usize>)>>);

/// The RAM regions of one `/memory` node, in the order of its `reg` ranges.
pub open spec fn node_ram_regions(n: MemNodeData) -> Seq<DtbMemRegion> {
    match n.2 {
        Some(rs) => rs.map_values(|r: (usize, Option<usize>)| ram_region(r, numa_id_spec(n.0), n.1)),
        None => Seq::empty(),
    }
}

/// The RAM regions of a sequence of `/memory` nodes, node after node.
pub open spec fn mems_from_nodes(nodes: Seq<MemNodeData>) -> Seq<DtbMemRegion>
    decreases nodes.len(),
{
    if nodes.len() == 0 {
        Seq::empty()
    } else {
        mems_from_nodes(nodes.drop_last()) + node_ram_regions(nodes.last())
    }
}

/// Appends to `out` the RAM regions of the `reg` ranges of a `/memory` node, in order.
pub fn push_ram_regions(
    reg: &Vec<(usize, Option<usize>)>,
    numa_id: Option<usize>,
    hotpluggable: bool,
    out: &mut Vec<DtbMemRegion>,
)
    ensures
        final(out)@ == old(out)@ + reg@.map_values(|r: (usize, Option<usize>)| ram_region(r, numa_id, hotpluggable)),
{
    let ghost start = old(out)@;
    let mut i: usize = 0;
    while i < reg.len()
        invariant
            i <= reg@.len(),
            out@ == start + reg@.take(i as int).map_values(|r: (usize, Option<usize>)| ram_region(r, numa_id, hotpluggable)),
        decreases reg@.len() - i,
    {
        let (base, size) = reg[i];
        let size = match size {
            Some(s) => s,
            None => 0,
        };
        out.push(DtbMemRegion { base, size, numa_id, kind: DtbMemKind::Ram, hotpluggable });
        proof {
            assert(reg@.take(i + 1) =~= reg@.take(i as int).push(reg@[i as int]));
            assert(reg@.take(i + 1).map_values(|r: (usize, Option<usize>)| ram_region(r, numa_id, hotpluggable))
                =~= reg@.take(i as int).map_values(|r: (usize, Option<usize>)| ram_region(r, numa_id, hotpluggable)).push(
                ram_region(reg@[i as int], numa_id, hotpluggable),
            ));
        }
        i = i + 1;
    }
    proof {
        assert(reg@.take(reg@.len() as int) =~= reg@);
    }
}

/// Each RAM region of one `reg` range takes its base from the range, its size from the
/// range (0 when the range has none), and the node's NUMA id and hotpluggable flag.
pub proof fn lemma_ram_region_fields(r: (usize, Option<usize>), numa_id: Option<usize>, hotpluggable: bool)
    ensures
        ram_region(r, numa_id, hotpluggable).base == r.0,
        ram_region(r, numa_id, hotpluggable).size == (if r.1 is Some { r.1.unwrap() } else { 0 }),
        ram_region(r, numa_id, hotpluggable).numa_id == numa_id,
        ram_region(r, numa_id, hotpluggable).kind == DtbMemKind::Ram,
        ram_region(r, numa_id, hotpluggable).hotpluggable == hotpluggable,
{
}

/// Whether `region` is what range `m` of the `/memory` node `n` gives: RAM, that range's
/// base and size (0 when the range has none), the node's NUMA id and hotpluggable flag.
pub open spec fn region_from(region: DtbMemRegion, n: MemNodeData, m: int) -> bool {
    &&& n.2 is Some
    &&& 0 <= m < n.2.unwrap().len()
    &&& region.base == n.2.unwrap()[m].0
    &&& region.size == (if n.2.unwrap()[m].1 is Some { n.2.unwrap()[m].1.unwrap() } else { 0 })
    &&& region.numa_id == numa_id_spec(n.0)
    &&& region.hotpluggable == n.1
    &&& region.kind == DtbMemKind::Ram
}

/// The node and range that region `k` of a sequence of `/memory` nodes comes from.
pub open spec fn region_source(nodes: Seq<MemNodeData>, k: int) -> (int, int)
    decreases nodes.len(),
{
    if nodes.len() == 0 {
        (0, 0)
    } else if k < mems_from_nodes(nodes.drop_last()).len() {
        region_source(nodes.drop_last(), k)
    } else {
        (nodes.len() - 1, k - mems_from_nodes(nodes.drop_last()).len())
    }
}

/// Region `k` of a sequence of `/memory` nodes is what its source range gives.
pub open spec fn region_traced(nodes: Seq<MemNodeData>, k: int) -> bool {
    let j = region_source(nodes, k).0;
    &&& 0 <= j < nodes.len()
    &&& region_from(mems_from_nodes(nodes)[k], nodes[j], region_source(nodes, k).1)
}

/// Every region the `/memory` nodes yield comes from one `reg` range of one node (see
/// `region_from`): in particular it is hotpluggable exactly when that node is. There are
/// as many regions as ranges.
pub proof fn lemma_mem_regions_follow_nodes(nodes: Seq<MemNodeData>)
    ensures
        forall|k: int| 0 <= k < mems_from_nodes(nodes).len() ==> #[trigger] region_traced(nodes, k),
        mems_from_nodes(nodes).len() == ranges_count(nodes),
    decreases nodes.len(),
{
    if nodes.len() > 0 {
        let init = nodes.drop_last();
        let n = nodes.last();
        lemma_mem_regions_follow_nodes(init);
        let a = mems_from_nodes(init);
        let b = node_ram_regions(n);
        assert(mems_from_nodes(nodes) == a + b);
        assert forall|k: int| 0 <= k < mems_from_nodes(nodes).len() implies #[trigger] region_traced(nodes, k) by {
            if k < a.len() {
                let j = region_source(init, k).0;
                let m = region_source(init, k).1;
                assert(region_traced(init, k));
                assert(region_from(a[k], init[j], m));
                assert(region_source(nodes, k) == region_source(init, k));
                assert(init[j] == nodes[j]);
                assert(mems_from_nodes(nodes)[k] == a[k]);
            } else {
                let m = k - a.len();
                assert(mems_from_nodes(nodes)[k] == b[m]);
                lemma_ram_region_fields(n.2.unwrap()[m], numa_id_spec(n.0), n.1);
                assert(region_source(nodes, k) == (nodes.len() - 1, m));
                assert(nodes[nodes.len() - 1] == n);
                assert(region_from(mems_from_nodes(nodes)[k], n, m));
            }
        }
    } else {
        assert(mems_from_nodes(nodes) =~= Seq::<DtbMemRegion>::empty());
    }
}

/// Number of `reg` ranges of a sequence of `/memory` nodes.
pub open spec fn ranges_count(nodes: Seq<MemNodeData>) -> nat
    decreases nodes.len(),
{
    if nodes.len() == 0 {
        0
    } else {
        ranges_count(nodes.drop_last()) + match nodes.last().2 {
            Some(rs) => rs.len(),
            None => 0,
        }
    }
}

} // verus!
