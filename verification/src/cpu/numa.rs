//! NUMA nodes and the placement of CPUs on them.

use vstd::prelude::*;

use crate::config::MAX_CPUS;
use crate::config::MAX_NODES;
use crate::kernel::cpu::cpumask::CpuMask;
use crate::libs::dtb::DtbCpu;

use super::cpu::CpuId;

verus! {

/// A NUMA node identifier.
#[derive(Clone, Copy, Debug, PartialEq, Eq, Structural)]
pub struct NId(pub usize);

impl NId {
    pub fn new(nid: usize) -> (r: Self)
        ensures
            r.0 == nid,
    {
        NId(nid)
    }

    /// Returns the raw node id.
    pub fn get(&self) -> (r: usize)
        ensures
            r == self.0,
    {
        self.0
    }
}

/// Which node each CPU is on, and which CPUs each node holds.
pub struct CpuNodeMap {
    pub cpu_to_node: [NId; 64],
    pub node_to_cpu: [CpuMask; 64],
}

impl CpuNodeMap {
    /// Node of each CPU.
    pub open spec fn nodes(&self) -> Seq<usize> {
        self.cpu_to_node@.map_values(|n: NId| n.0)
    }

    /// CPUs of each node.
    pub open spec fn cpus(&self) -> Seq<Set<nat>> {
        self.node_to_cpu@.map_values(|m: CpuMask| m@)
    }

    /// Every CPU on node 0, and no node holding a CPU.
    pub fn new() -> (r: Self)
        ensures
            r.nodes() == Seq::new(MAX_CPUS as nat, |i: int| 0usize),
            r.cpus() == Seq::new(MAX_NODES as nat, |i: int| Set::<nat>::empty()),
    {
        let r = CpuNodeMap { cpu_to_node: [NId::new(0); 64], node_to_cpu: [CpuMask::new(); 64] };
        assert(r.nodes() =~= Seq::new(MAX_CPUS as nat, |i: int| 0usize));
        assert(r.cpus() =~= Seq::new(MAX_NODES as nat, |i: int| Set::<nat>::empty()));
        r
    }

    /// Records that `cpu` is on `nid`.
    pub fn record(&mut self, cpu: CpuId, nid: NId)
        requires
            cpu.0 < MAX_CPUS,
            nid.0 < MAX_NODES,
        ensures
            final(self).nodes() == old(self).nodes().update(cpu.0 as int, nid.0),
            final(self).cpus() == old(self).cpus().update(nid.0 as int, old(self).cpus()[nid.0 as int].insert(cpu.0 as nat)),
    {
        self.cpu_to_node[cpu.get()] = nid;
        let mut m = self.node_to_cpu[nid.get()];
        m.set(cpu);
        self.node_to_cpu[nid.get()] = m;
        assert(self.nodes() =~= old(self).nodes().update(cpu.0 as int, nid.0));
        assert(self.cpus() =~= old(self).cpus().update(nid.0 as int, old(self).cpus()[nid.0 as int].insert(cpu.0 as nat)));
    }
}

/// Whether a device tree CPU can be placed: its id and node are in range.
pub open spec fn placeable(c: DtbCpu) -> bool {
    &&& c.id < MAX_CPUS
    &&& c.numa_id matches Some(n) && n < MAX_NODES
}

/// The ids of the CPUs of `cpus` whose node is `n`.
pub open spec fn node_members(cpus: Seq<DtbCpu>, n: int) -> Set<nat> {
    Set::new(|c: nat| exists|k: int| 0 <= k < cpus.len() && #[trigger] cpus[k].id == c && cpus[k].numa_id == Some(n as usize))
}

/// Whether a CPU with id `c` is among `cpus`.
pub open spec fn listed(cpus: Seq<DtbCpu>, c: int) -> bool {
    exists|k: int| 0 <= k < cpus.len() && #[trigger] cpus[k].id == c
}

/// One more CPU adds its id to its own node's members and to no other node's.
proof fn lemma_members_step(cpus: Seq<DtbCpu>, i: int, n: int)
    requires
        0 <= i < cpus.len(),
    ensures
        node_members(cpus.take(i + 1), n) == if cpus[i].numa_id == Some(n as usize) {
            node_members(cpus.take(i), n).insert(cpus[i].id as nat)
        } else {
            node_members(cpus.take(i), n)
        },
{
    let a = node_members(cpus.take(i + 1), n);
    let b = if cpus[i].numa_id == Some(n as usize) {
        node_members(cpus.take(i), n).insert(cpus[i].id as nat)
    } else {
        node_members(cpus.take(i), n)
    };
    assert forall|c: nat| a.contains(c) <==> b.contains(c) by {
        if a.contains(c) {
            let k = choose|k: int| 0 <= k < cpus.take(i + 1).len() && #[trigger] cpus.take(i + 1)[k].id == c
                && cpus.take(i + 1)[k].numa_id == Some(n as usize);
            if k < i {
                assert(cpus.take(i)[k] == cpus[k]);
                assert(node_members(cpus.take(i), n).contains(c));
            }
        }
        if b.contains(c) {
            if node_members(cpus.take(i), n).contains(c) {
                let k = choose|k: int| 0 <= k < cpus.take(i).len() && #[trigger] cpus.take(i)[k].id == c
                    && cpus.take(i)[k].numa_id == Some(n as usize);
                assert(cpus.take(i + 1)[k] == cpus[k]);
            } else {
                assert(cpus.take(i + 1)[i] == cpus[i]);
            }
        }
    }
    assert(a =~= b);
}

/// Places each CPU of the device tree on its NUMA node, in order: each node's CPUs gain
/// exactly the listed CPUs of that node, a listed CPU's node is the one its last listing
/// gives, and an unlisted CPU keeps its node.
pub fn cpu_node_map_setup(map: &mut CpuNodeMap, cpus: &Vec<DtbCpu>)
    requires
        forall|i: int| 0 <= i < cpus@.len() ==> placeable(#[trigger] cpus@[i]),
    ensures
        forall|n: int| 0 <= n < MAX_NODES ==> #[trigger] final(map).cpus()[n] == old(map).cpus()[n].union(node_members(cpus@, n)),
        forall|c: int| 0 <= c < MAX_CPUS && !listed(cpus@, c) ==> #[trigger] final(map).nodes()[c] == old(map).nodes()[c],
        forall|i: int| 0 <= i < cpus@.len() ==> final(map).cpus()[(#[trigger] cpus@[i]).numa_id.unwrap() as int].contains(cpus@[i].id as nat),
        forall|i: int| 0 <= i < cpus@.len() && (forall|j: int| i < j < cpus@.len() ==> (#[trigger] cpus@[j]).id != cpus@[i].id)
            ==> final(map).nodes()[(#[trigger] cpus@[i]).id as int] == cpus@[i].numa_id.unwrap(),
{
    let ghost m0 = map.cpus();
    let ghost n0 = map.nodes();
    let mut i: usize = 0;
    proof {
        assert forall|n: int| 0 <= n < MAX_NODES implies #[trigger] map.cpus()[n] == m0[n].union(node_members(cpus@.take(0), n)) by {
            assert(node_members(cpus@.take(0), n) =~= Set::<nat>::empty());
            assert(m0[n].union(Set::<nat>::empty()) =~= m0[n]);
        }
    }
    while i < cpus.len()
        invariant
            i <= cpus@.len(),
            forall|n: int| 0 <= n < MAX_NODES ==> #[trigger] map.cpus()[n] == m0[n].union(node_members(cpus@.take(i as int), n)),
            forall|c: int| 0 <= c < MAX_CPUS && !listed(cpus@.take(i as int), c) ==> #[trigger] map.nodes()[c] == n0[c],
            forall|k: int| 0 <= k < cpus@.len() ==> placeable(#[trigger] cpus@[k]),
            map.cpus().len() == MAX_NODES,
            map.nodes().len() == MAX_CPUS,
            forall|k: int| 0 <= k < i ==> map.cpus()[(#[trigger] cpus@[k]).numa_id.unwrap() as int].contains(cpus@[k].id as nat),
            forall|n: int, c: nat| 0 <= n < MAX_NODES && #[trigger] m0[n].contains(c) ==> map.cpus()[n].contains(c),
            forall|k: int| 0 <= k < i && (forall|j: int| k < j < i ==> (#[trigger] cpus@[j]).id != cpus@[k].id)
                ==> map.nodes()[(#[trigger] cpus@[k]).id as int] == cpus@[k].numa_id.unwrap(),
        decreases cpus@.len() - i,
    {
        let c = cpus[i];
        let nid = match c.numa_id {
            Some(n) => n,
            None => {
                proof {
                    assert(placeable(cpus@[i as int]));
                }
                0
            },
        };
        let ghost before_nodes = map.nodes();
        let ghost before_cpus = map.cpus();
        map.record(CpuId::new(c.id), NId::new(nid));
        proof {
            assert forall|n: int| 0 <= n < MAX_NODES implies #[trigger] map.cpus()[n] == m0[n].union(node_members(cpus@.take(i + 1), n)) by {
                lemma_members_step(cpus@, i as int, n);
                assert(before_cpus[n] == m0[n].union(node_members(cpus@.take(i as int), n)));
                if n == nid {
                    assert(map.cpus()[n] =~= m0[n].union(node_members(cpus@.take(i + 1), n)));
                } else {
                    assert(map.cpus()[n] == before_cpus[n]);
                }
            }
            assert forall|cc: int| 0 <= cc < MAX_CPUS && !listed(cpus@.take(i + 1), cc) implies #[trigger] map.nodes()[cc] == n0[cc] by {
                assert(cpus@.take(i + 1)[i as int] == cpus@[i as int]);
                if listed(cpus@.take(i as int), cc) {
                    let k = choose|k: int| 0 <= k < cpus@.take(i as int).len() && #[trigger] cpus@.take(i as int)[k].id == cc;
                    assert(cpus@.take(i + 1)[k] == cpus@.take(i as int)[k]);
                }
                assert(cc != c.id);
            }
            assert forall|k: int| 0 <= k < i + 1 && (forall|j: int| k < j < i + 1 ==> (#[trigger] cpus@[j]).id != cpus@[k].id)
                implies map.nodes()[(#[trigger] cpus@[k]).id as int] == cpus@[k].numa_id.unwrap() by {
                if k < i {
                    assert(cpus@[i as int].id != cpus@[k].id);
                }
            }
        }
        i = i + 1;
    }
    proof {
        assert(cpus@.take(cpus@.len() as int) =~= cpus@);
    }
}

} // verus!
