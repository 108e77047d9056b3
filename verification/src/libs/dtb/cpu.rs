//! CPU nodes of the device tree.

use vstd::prelude::*;
use vstd::utf8::valid_utf8;

use super::props::AT_SIGN;
use super::props::find_at;
use super::props::find_at_exec;
use super::props::lemma_find_at;
use super::props::parse_hex_spec;
use super::props::parse_hex_usize;
use crate::libs::endian::be_u32_at;
use crate::libs::endian::read_be_u32_at;

verus! {

/// A CPU described by the device tree.
#[derive(Debug, Clone, Copy, PartialEq, Eq, Structural)]
pub struct DtbCpu {
    /// CPU ID (hart ID for RISC-V)
    pub id: usize,
    /// NUMA node ID (None if not NUMA system)
    pub numa_id: Option<usize>,
    /// Clock frequency in Hz
    pub freq: Option<u64>,
    /// Is this CPU enabled?
    pub enabled: bool,
}

/// The second `@`-separated segment of a node name (the unit address), if there is one.
pub open spec fn unit_address(name: Seq<u8>) -> Option<Seq<u8>> {
    let e0 = find_at(name, 0);
    if e0 < name.len() {
        Some(name.subrange(e0 + 1, find_at(name, e0 + 1)))
    } else {
        None
    }
}

/// The CPU id of a node: the start of its first `reg` range, or else its unit address
/// read as hexadecimal.
pub open spec fn cpu_id_spec(reg_first: Option<usize>, name: Seq<u8>) -> Option<usize> {
    match reg_first {
        Some(a) => Some(a),
        None => match unit_address(name) {
            Some(u) => parse_hex_spec(u),
            None => None,
        },
    }
}

/// The CPU id of a node from the start of its first `reg` range, falling back to the unit
/// address in its name `cpu@N` (hexadecimal).
pub fn read_cpu_id(reg_first: Option<usize>, name: &[u8]) -> (r: Option<usize>)
    ensures
        r == cpu_id_spec(reg_first, name@),
{
    if let Some(a) = reg_first {
        return Some(a);
    }
    let e0 = find_at_exec(name, 0);
    proof {
        lemma_find_at(name@, 0);
    }
    if e0 >= name.len() {
        return None;
    }
    let e1 = find_at_exec(name, e0 + 1);
    proof {
        lemma_find_at(name@, e0 + 1);
    }
    let seg = slice_range(name, e0 + 1, e1);
    parse_hex_usize(seg)
}

/// `s[from..to]`.
pub fn slice_range(s: &[u8], from: usize, to: usize) -> (r: &[u8])
    requires
        from <= to <= s@.len(),
    ensures
        r@ == s@.subrange(from as int, to as int),
{
    let (_, tail) = s.split_at(from);
    let (mid, _) = tail.split_at(to - from);
    assert(mid@ =~= s@.subrange(from as int, to as int));
    mid
}

/// Big-endian value of eight bytes.
pub open spec fn be_u64_at(v: Seq<u8>, offset: int) -> u64 {
    (be_u32_at(v, offset) as int * 0x1_0000_0000 + be_u32_at(v, offset + 4) as int) as u64
}

/// The clock frequency encoded by a `clock-frequency` value: a big-endian `u64` when it
/// has eight bytes or more, else a big-endian `u32` when it has four or more.
pub open spec fn clock_freq_spec(value: Option<Seq<u8>>) -> Option<u64> {
    match value {
        Some(v) => if v.len() >= 8 {
            Some(be_u64_at(v, 0))
        } else if v.len() >= 4 {
            Some(be_u32_at(v, 0) as u64)
        } else {
            None
        },
        None => None,
    }
}

/// Decodes a `clock-frequency` property value.
pub fn read_clock_freq(value: Option<&[u8]>) -> (r: Option<u64>)
    ensures
        r == clock_freq_spec(match value { Some(v) => Some(v@), None => None }),
{
    match value {
        Some(v) => {
            if v.len() >= 8 {
                let hi = read_be_u32_at(v, 0) as u64;
                let lo = read_be_u32_at(v, 4) as u64;
                assert(hi * 0x1_0000_0000 + lo <= u64::MAX) by (nonlinear_arith)
                    requires
                        hi <= 0xFFFF_FFFF,
                        lo <= 0xFFFF_FFFF,
                ;
                Some(hi * 0x1_0000_0000 + lo)
            } else if v.len() >= 4 {
                Some(read_be_u32_at(v, 0) as u64)
            } else {
                None
            }
        },
        None => None,
    }
}

/// `v` without its trailing zero bytes.
pub open spec fn trim_nuls(v: Seq<u8>) -> Seq<u8>
    decreases v.len(),
{
    if v.len() > 0 && v.last() == 0 {
        trim_nuls(v.drop_last())
    } else {
        v
    }
}

/// Whether a `status` value marks the node enabled: a missing or non-UTF-8 value does,
/// else the value must be `okay` or `ok` (trailing NUL bytes ignored).
pub open spec fn node_enabled_spec(status: Option<Seq<u8>>) -> bool {
    match status {
        None => true,
        Some(v) => !valid_utf8(v) || trim_nuls(v) == seq![0x6fu8, 0x6b, 0x61, 0x79] || trim_nuls(v)
            == seq![0x6fu8, 0x6b],
    }
}

/// Whether the bytes are UTF-8: `core::str::from_utf8` succeeds exactly on valid UTF-8.
#[verifier::external_body]
pub(crate) fn is_utf8(v: &[u8]) -> (r: bool)
    ensures
        r == valid_utf8(v@),
{
    core::str::from_utf8(v).is_ok()
}

/// Whether a node is enabled according to its `status` property value.
pub fn is_node_enabled(status: Option<&[u8]>) -> (r: bool)
    ensures
        r == node_enabled_spec(match status { Some(v) => Some(v@), None => None }),
{
    match status {
        None => true,
        Some(v) => {
            if !is_utf8(v) {
                return true;
            }
            let mut end = v.len();
            assert(v@.subrange(0, end as int) =~= v@);
            while end > 0 && v[end - 1] == 0
                invariant
                    end <= v@.len(),
                    trim_nuls(v@.subrange(0, end as int)) == trim_nuls(v@),
                decreases end,
            {
                proof {
                    assert(v@.subrange(0, end as int).drop_last() =~= v@.subrange(0, end - 1));
                }
                end = end - 1;
            }
            proof {
                assert(v@.subrange(0, v@.len() as int) =~= v@);
            }
            let t = slice_range(v, 0, end);
            proof {
                assert(trim_nuls(t@) == t@);
            }
            if t.len() == 4 && t[0] == 0x6f && t[1] == 0x6b && t[2] == 0x61 && t[3] == 0x79 {
                proof {
                    assert(t@ =~= seq![0x6fu8, 0x6b, 0x61, 0x79]);
                }
                true
            } else if t.len() == 2 && t[0] == 0x6f && t[1] == 0x6b {
                proof {
                    assert(t@ =~= seq![0x6fu8, 0x6b]);
                }
                true
            } else {
                proof {
                    if t@ == seq![0x6fu8, 0x6b, 0x61, 0x79] {
                        assert(t@[3] == 0x79);
                    }
                    if t@ == seq![0x6fu8, 0x6b] {
                        assert(t@[1] == 0x6b);
                    }
                }
                false
            }
        },
    }
}

/// Whether the first `@`-separated segment of a node name is `cpu`.
pub open spec fn is_cpu_name_spec(name: Seq<u8>) -> bool {
    name.subrange(0, find_at(name, 0)) == seq![0x63u8, 0x70, 0x75]
}

/// Whether a node name designates a CPU (`cpu` or `cpu@...`).
pub fn is_cpu_name(name: &[u8]) -> (r: bool)
    ensures
        r == is_cpu_name_spec(name@),
{
    let e0 = find_at_exec(name, 0);
    proof {
        lemma_find_at(name@, 0);
    }
    let first = slice_range(name, 0, e0);
    if first.len() == 3 && first[0] == 0x63 && first[1] == 0x70 && first[2] == 0x75 {
        assert(first@ =~= seq![0x63u8, 0x70, 0x75]);
        true
    } else {
        proof {
            if first@ == seq![0x63u8, 0x70, 0x75] {
                assert(first@[2] == 0x75);
            }
        }
        false
    }
}

/// The CPU described by a node, from its name, the start of its first `reg` range and its
/// `numa-node-id`, `clock-frequency` and `status` property values. `None` when the node
/// is not a CPU node or has no id.
pub open spec fn cpu_node_spec(
    name: Seq<u8>,
    reg_first: Option<usize>,
    numa: Option<Seq<u8>>,
    freq: Option<Seq<u8>>,
    status: Option<Seq<u8>>,
) -> Option<DtbCpu> {
    if !is_cpu_name_spec(name) {
        None
    } else {
        match cpu_id_spec(reg_first, name) {
            None => None,
            Some(id) => Some(DtbCpu {
                id,
                numa_id: match super::props::prop_u32_spec(numa) {
                    Some(n) => Some(n as usize),
                    None => None,
                },
                freq: clock_freq_spec(freq),
                enabled: node_enabled_spec(status),
            }),
        }
    }
}

/// What the device tree gives of a child of `/cpus`: its name, its `reg` ranges (`None`
/// when it has no usable `reg`), and its `numa-node-id`, `clock-frequency` and `status`
/// values.
pub type CpuNodeData = (Seq<u8>, Option<Seq<(usize, Option<usize>)>>, Option<Seq<u8>>, Option<Seq<u8>>, Option<Seq<u8>>);

/// The start of the first `reg` range, if there is one.
pub open spec fn first_reg_start(reg: Option<Seq<(usize, Option<usize>)>>) -> Option<usize> {
    match reg {
        Some(rs) => if rs.len() > 0 {
            Some(rs[0].0)
        } else {
            None
        },
        None => None,
    }
}

/// The CPU a child of `/cpus` describes, if any.
pub open spec fn node_cpu(n: CpuNodeData) -> Option<DtbCpu> {
    cpu_node_spec(n.0, first_reg_start(n.1), n.2, n.3, n.4)
}

/// The CPUs a sequence of `/cpus` children describe, in order; children that describe
/// none are skipped.
pub open spec fn cpus_from_nodes(nodes: Seq<CpuNodeData>) -> Seq<DtbCpu>
    decreases nodes.len(),
{
    if nodes.len() == 0 {
        Seq::empty()
    } else {
        cpus_from_nodes(nodes.drop_last()) + match node_cpu(nodes.last()) {
            Some(c) => seq![c],
            None => Seq::empty(),
        }
    }
}

/// Builds the CPU described by a node from what the node holds.
pub fn cpu_from_node(
    name: &[u8],
    reg_first: Option<usize>,
    numa: Option<&[u8]>,
    freq: Option<&[u8]>,
    status: Option<&[u8]>,
) -> (r: Option<DtbCpu>)
    ensures
        r == cpu_node_spec(
            name@,
            reg_first,
            match numa { Some(v) => Some(v@), None => None },
            match freq { Some(v) => Some(v@), None => None },
            match status { Some(v) => Some(v@), None => None },
        ),
{
    if !is_cpu_name(name) {
        return None;
    }
    let id = match read_cpu_id(reg_first, name) {
        Some(id) => id,
        None => {
            return None;
        },
    };
    Some(DtbCpu {
        id,
        numa_id: super::numa::read_numa_id(numa),
        freq: read_clock_freq(freq),
        enabled: is_node_enabled(status),
    })
}

} // verus!
