//! The calls into the `fdt` crate.
//!
//! Each query parses the blob with `fdt::Fdt::new` and hands back the nodes it finds as
//! plain values. The queries run only on blobs that pass the structure check of
//! [`super::structure`], on which the crate's parsing does not panic.

use vstd::prelude::*;

use super::props::opt_regs;
use super::structure::fdt_well_formed;
use crate::libs::endian::be_u32_at;

verus! {

/// Whether `fdt::Fdt::new` accepts a buffer: it holds the 40-byte header, starts with
/// the magic number, and is at least as long as the size the header records.
pub open spec fn fdt_header_ok(data: Seq<u8>) -> bool {
    &&& data.len() >= 40
    &&& be_u32_at(data, 0) == 0xd00dfeed
    &&& data.len() >= be_u32_at(data, 4)
}

/// A node as plain values: its name, its `reg` ranges (`None` when it has no usable
/// `reg`), and its properties as (name, value) pairs in the order the tree lists them.
pub type NodeData = (Seq<u8>, Option<Seq<(usize, Option<usize>)>>, Seq<(Seq<u8>, Seq<u8>)>);

/// A node of the device tree as the queries hand it back.
pub struct FdtNodeInfo {
    pub name: Vec<u8>,
    pub reg: Option<Vec<(usize, Option<usize>)>>,
    pub props: Vec<(Vec<u8>, Vec<u8>)>,
}

/// The properties as (name, value) byte sequences.
pub open spec fn props_data(props: Seq<(Vec<u8>, Vec<u8>)>) -> Seq<(Seq<u8>, Seq<u8>)> {
    props.map_values(|p: (Vec<u8>, Vec<u8>)| (p.0@, p.1@))
}

impl FdtNodeInfo {
    /// The node as plain values.
    pub open spec fn data(&self) -> NodeData {
        (self.name@, opt_regs(self.reg), props_data(self.props@))
    }
}

/// The nodes as plain values.
pub open spec fn nodes_data(v: Seq<FdtNodeInfo>) -> Seq<NodeData> {
    v.map_values(|n: FdtNodeInfo| n.data())
}

/// The children of the node at `path` in the blob `data`, as `fdt` finds them; `None`
/// when there is no such node.
pub uninterp spec fn fdt_children_data(data: Seq<u8>, path: Seq<char>) -> Option<Seq<NodeData>>;

/// The nodes at `path` in the blob `data` (every child of the parent path whose name
/// without unit address matches), as `fdt` finds them.
pub uninterp spec fn fdt_nodes_data(data: Seq<u8>, path: Seq<char>) -> Seq<NodeData>;

/// `fdt::Fdt::find_node` followed by `FdtNode::children`: the children of the node at
/// `path`, each with its `name`, its `reg()` ranges and its `properties()`. The result is
/// named, not stated. The path must start with `/`, so that no alias is followed.
#[verifier::external_body]
pub(crate) fn fdt_children(data: &[u8], path: &str) -> (r: Option<Vec<FdtNodeInfo>>)
    requires
        fdt_well_formed(data@),
        path@.len() > 0 && path@[0] == '/',
    ensures
        fdt_children_data(data@, path@) == match r {
            Some(v) => Some(nodes_data(v@)),
            None => None,
        },
{
    let fdt = fdt::Fdt::new(data).unwrap();
    fdt.find_node(path).map(|n| n.children().map(|c| FdtNodeInfo {
        name: c.name.as_bytes().to_vec(),
        reg: c.reg().map(|rs| rs.map(|m| (m.starting_address as usize, m.size)).collect()),
        props: c.properties().map(|p| (p.name.as_bytes().to_vec(), p.value.to_vec())).collect(),
    }).collect())
}

/// `fdt::Fdt::find_all_nodes`: the nodes at `path`, each with its `name`, its `reg()`
/// ranges and its `properties()`. The result is named, not stated.
#[verifier::external_body]
pub(crate) fn fdt_nodes<'a>(data: &'a [u8], path: &'a str) -> (r: Vec<FdtNodeInfo>)
    requires
        fdt_well_formed(data@),
    ensures
        fdt_nodes_data(data@, path@) == nodes_data(r@),
{
    let fdt = fdt::Fdt::new(data).unwrap();
    fdt.find_all_nodes(path).map(|c| FdtNodeInfo {
        name: c.name.as_bytes().to_vec(),
        reg: c.reg().map(|rs| rs.map(|m| (m.starting_address as usize, m.size)).collect()),
        props: c.properties().map(|p| (p.name.as_bytes().to_vec(), p.value.to_vec())).collect(),
    }).collect()
}

} // verus!
