//! Checking the structure block of a device tree blob before it is queried.
//!
//! The check accepts a strict form of the format: the header's blocks lie inside the
//! blob, the structure block starts with the root node, whose name is empty, and every
//! node is `BEGIN_NODE`, a NUL-terminated UTF-8 name padded to 4 bytes, its properties,
//! its child nodes and `END_NODE`, with no `NOP` tokens. Each property's value lies inside
//! the block and its name is a NUL-terminated UTF-8 string of the strings block that does
//! not start with `/`; `#address-cells` and `#size-cells` values hold at least 4 bytes.

use vstd::prelude::*;
use vstd::utf8::encode_utf8;
use vstd::utf8::valid_utf8;

use super::cpu::is_utf8;
use super::cpu::slice_range;
use super::fdt_api::fdt_header_ok;
use crate::build::assembly::bytes_eq;
use crate::libs::endian::be_u32_at;
use crate::libs::endian::read_be_u32_at;

verus! {

/// Token that opens a node.
pub const FDT_BEGIN_NODE: u32 = 1;

/// Token that closes a node.
pub const FDT_END_NODE: u32 = 2;

/// Token that opens a property.
pub const FDT_PROP: u32 = 3;

/// Index of the first NUL byte of `b` at or after `from`, or `b.len()` when there is none.
pub open spec fn first_nul(b: Seq<u8>, from: int) -> int
    decreases b.len() - from,
{
    if from < 0 || from >= b.len() {
        b.len() as int
    } else if b[from] == 0 {
        from
    } else {
        first_nul(b, from + 1)
    }
}

/// `n` rounded up to a multiple of 4.
pub open spec fn pad4(n: int) -> int {
    (n + 3) / 4 * 4
}

/// Whether a property name is one whose value must hold a 4-byte cell count.
pub open spec fn is_cells_name(n: Seq<u8>) -> bool {
    n == encode_utf8("#address-cells"@) || n == encode_utf8("#size-cells"@)
}

/// Whether the name of a property of `len` bytes, at offset `off` of the strings block
/// `t`, is acceptable.
pub open spec fn prop_name_ok(t: Seq<u8>, off: int, len: int) -> bool {
    let e = first_nul(t, off);
    &&& 0 <= off < t.len()
    &&& e < t.len()
    &&& valid_utf8(t.subrange(off, e))
    &&& e > off ==> t[off] != 0x2F
    &&& is_cells_name(t.subrange(off, e)) ==> len >= 4
}

/// The end of the run of properties of the structure block `s` starting at `pos`, `None`
/// when one of them is malformed.
pub open spec fn parse_props(s: Seq<u8>, t: Seq<u8>, pos: int) -> Option<int>
    decreases s.len() - pos,
{
    if 0 <= pos && pos + 4 <= s.len() && be_u32_at(s, pos) == FDT_PROP {
        if pos + 12 <= s.len() {
            let len = be_u32_at(s, pos + 4) as int;
            let next = pos + 12 + pad4(len);
            if next <= s.len() && prop_name_ok(t, be_u32_at(s, pos + 8) as int, len) {
                parse_props(s, t, next)
            } else {
                None
            }
        } else {
            None
        }
    } else if 0 <= pos <= s.len() {
        Some(pos)
    } else {
        None
    }
}

/// The end of the node of `s` that starts at `pos`, `None` when it is malformed.
pub open spec fn parse_node(s: Seq<u8>, t: Seq<u8>, pos: int) -> Option<int>
    decreases s.len() - pos, 0int,
{
    if 0 <= pos && pos + 4 <= s.len() && be_u32_at(s, pos) == FDT_BEGIN_NODE {
        let ne = first_nul(s, pos + 4);
        let after = pos + 4 + pad4(ne - pos - 3);
        if pos + 4 <= ne < s.len() && after <= s.len() && valid_utf8(s.subrange(pos + 4, ne)) {
            match parse_props(s, t, after) {
                Some(p) => if after <= p <= s.len() {
                    match parse_children(s, t, p) {
                        Some(c) => if p <= c && c + 4 <= s.len() && be_u32_at(s, c) == FDT_END_NODE {
                            Some(c + 4)
                        } else {
                            None
                        },
                        None => None,
                    }
                } else {
                    None
                },
                None => None,
            }
        } else {
            None
        }
    } else {
        None
    }
}

/// The end of the run of child nodes of `s` starting at `pos`, `None` when one of them is
/// malformed.
pub open spec fn parse_children(s: Seq<u8>, t: Seq<u8>, pos: int) -> Option<int>
    decreases s.len() - pos, 1int,
{
    if 0 <= pos && pos + 4 <= s.len() && be_u32_at(s, pos) == FDT_BEGIN_NODE {
        match parse_node(s, t, pos) {
            Some(e) => if pos < e <= s.len() {
                parse_children(s, t, e)
            } else {
                None
            },
            None => None,
        }
    } else if 0 <= pos <= s.len() {
        Some(pos)
    } else {
        None
    }
}

/// The structure block of a blob.
pub open spec fn struct_block(d: Seq<u8>) -> Seq<u8> {
    d.subrange(be_u32_at(d, 8) as int, be_u32_at(d, 8) + be_u32_at(d, 36))
}

/// The strings block of a blob.
pub open spec fn strings_block(d: Seq<u8>) -> Seq<u8> {
    d.subrange(be_u32_at(d, 12) as int, be_u32_at(d, 12) + be_u32_at(d, 32))
}

/// Whether a blob has a sound header and a structure block of the strict form above.
pub open spec fn fdt_well_formed(d: Seq<u8>) -> bool {
    &&& fdt_header_ok(d)
    &&& be_u32_at(d, 8) + be_u32_at(d, 36) <= d.len()
    &&& be_u32_at(d, 12) + be_u32_at(d, 32) <= d.len()
    &&& struct_block(d).len() > 4
    &&& struct_block(d)[4] == 0
    &&& parse_node(struct_block(d), strings_block(d), 0) is Some
}

/// A run of properties ends inside the block, no earlier than it starts.
proof fn lemma_props_bounds(s: Seq<u8>, t: Seq<u8>, pos: int)
    ensures
        parse_props(s, t, pos) matches Some(p) ==> pos <= p <= s.len(),
    decreases s.len() - pos,
{
    if 0 <= pos && pos + 4 <= s.len() && be_u32_at(s, pos) == FDT_PROP && pos + 12 <= s.len() {
        let len = be_u32_at(s, pos + 4) as int;
        let next = pos + 12 + pad4(len);
        if next <= s.len() {
            lemma_props_bounds(s, t, next);
        }
    }
}

/// A run of child nodes ends inside the block, no earlier than it starts.
proof fn lemma_children_bounds(s: Seq<u8>, t: Seq<u8>, pos: int)
    ensures
        parse_children(s, t, pos) matches Some(e) ==> pos <= e <= s.len(),
    decreases s.len() - pos,
{
    if 0 <= pos && pos + 4 <= s.len() && be_u32_at(s, pos) == FDT_BEGIN_NODE {
        if let Some(e) = parse_node(s, t, pos) {
            if pos < e <= s.len() {
                lemma_children_bounds(s, t, e);
            }
        }
    }
}

/// Index of the first NUL byte of `b` at or after `from`, or `b.len()`.
fn first_nul_exec(b: &[u8], from: usize) -> (r: usize)
    requires
        from <= b@.len(),
    ensures
        r == first_nul(b@, from as int),
        from <= r <= b@.len(),
{
    let mut i = from;
    while i < b.len() && b[i] != 0
        invariant
            from <= i <= b@.len(),
            first_nul(b@, i as int) == first_nul(b@, from as int),
        decreases b@.len() - i,
    {
        i = i + 1;
    }
    i
}

/// Whether a property name is acceptable; see [`prop_name_ok`].
fn prop_name_ok_exec(t: &[u8], off: usize, len: usize) -> (r: bool)
    ensures
        r == prop_name_ok(t@, off as int, len as int),
{
    if off >= t.len() {
        return false;
    }
    let e = first_nul_exec(t, off);
    if e >= t.len() {
        return false;
    }
    let name = slice_range(t, off, e);
    if !is_utf8(name) {
        return false;
    }
    if e > off && t[off] == 0x2F {
        return false;
    }
    let cells = bytes_eq(name, "#address-cells".as_bytes()) || bytes_eq(name, "#size-cells".as_bytes());
    !cells || len >= 4
}

/// The end of the run of properties at `pos`; see [`parse_props`].
fn parse_props_exec(s: &[u8], t: &[u8], pos: usize) -> (r: Option<usize>)
    requires
        pos <= s@.len(),
    ensures
        match parse_props(s@, t@, pos as int) {
            Some(p) => r == Some(p as usize),
            None => r is None,
        },
        r matches Some(p) ==> pos <= p <= s@.len(),
{
    let mut cur = pos;
    proof {
        lemma_props_bounds(s@, t@, pos as int);
    }
    while s.len() - cur >= 4 && read_be_u32_at(s, cur) == FDT_PROP
        invariant
            pos <= cur <= s@.len(),
            parse_props(s@, t@, cur as int) == parse_props(s@, t@, pos as int),
        decreases s@.len() - cur,
    {
        if s.len() - cur < 12 {
            return None;
        }
        let len = read_be_u32_at(s, cur + 4) as usize;
        let off = read_be_u32_at(s, cur + 8) as usize;
        let room = s.len() - cur - 12;
        if len > room {
            return None;
        }
        let padded = (len + 3) / 4 * 4;
        if padded > room {
            return None;
        }
        if !prop_name_ok_exec(t, off, len) {
            return None;
        }
        cur = cur + 12 + padded;
    }
    Some(cur)
}

/// The end of the node at `pos`; see [`parse_node`].
fn parse_node_exec(s: &[u8], t: &[u8], pos: usize) -> (r: Option<usize>)
    requires
        pos <= s@.len(),
    ensures
        match parse_node(s@, t@, pos as int) {
            Some(e) => r == Some(e as usize),
            None => r is None,
        },
        r matches Some(e) ==> pos <= e <= s@.len(),
    decreases s@.len() - pos, 0int,
{
    if !(s.len() - pos >= 4 && read_be_u32_at(s, pos) == FDT_BEGIN_NODE) {
        return None;
    }
    let ne = first_nul_exec(s, pos + 4);
    if ne >= s.len() {
        return None;
    }
    let name_room = ne - pos - 3;
    let padded = (name_room + 3) / 4 * 4;
    if padded > s.len() - pos - 4 {
        return None;
    }
    let after = pos + 4 + padded;
    if !is_utf8(slice_range(s, pos + 4, ne)) {
        return None;
    }
    let p = match parse_props_exec(s, t, after) {
        Some(p) => p,
        None => {
            return None;
        },
    };
    proof {
        lemma_props_bounds(s@, t@, after as int);
        lemma_children_bounds(s@, t@, p as int);
    }
    if p < after {
        return None;
    }
    let c = match parse_children_exec(s, t, p) {
        Some(c) => c,
        None => {
            return None;
        },
    };
    if c < p || s.len() - c < 4 {
        return None;
    }
    if read_be_u32_at(s, c) != FDT_END_NODE {
        return None;
    }
    Some(c + 4)
}

/// The end of the run of child nodes at `pos`; see [`parse_children`].
fn parse_children_exec(s: &[u8], t: &[u8], pos: usize) -> (r: Option<usize>)
    requires
        pos <= s@.len(),
    ensures
        match parse_children(s@, t@, pos as int) {
            Some(e) => r == Some(e as usize),
            None => r is None,
        },
        r matches Some(e) ==> pos <= e <= s@.len(),
    decreases s@.len() - pos, 1int,
{
    if !(s.len() - pos >= 4 && read_be_u32_at(s, pos) == FDT_BEGIN_NODE) {
        return Some(pos);
    }
    let e = match parse_node_exec(s, t, pos) {
        Some(e) => e,
        None => {
            return None;
        },
    };
    if e <= pos {
        return None;
    }
    proof {
        lemma_children_bounds(s@, t@, pos as int);
        lemma_children_bounds(s@, t@, e as int);
    }
    parse_children_exec(s, t, e)
}

/// Whether `data` is a blob of the strict form that the device tree queries accept.
pub fn check_structure(data: &[u8]) -> (r: bool)
    ensures
        r == fdt_well_formed(data@),
{
    if data.len() < 40 || read_be_u32_at(data, 0) != 0xd00dfeed || (read_be_u32_at(data, 4) as usize) > data.len() {
        return false;
    }
    let os = read_be_u32_at(data, 8) as usize;
    let ss = read_be_u32_at(data, 36) as usize;
    let ot = read_be_u32_at(data, 12) as usize;
    let st = read_be_u32_at(data, 32) as usize;
    if os > data.len() || ss > data.len() - os || ot > data.len() || st > data.len() - ot {
        return false;
    }
    let s = slice_range(data, os, os + ss);
    let t = slice_range(data, ot, ot + st);
    if s.len() <= 4 || s[4] != 0 {
        return false;
    }
    parse_node_exec(s, t, 0).is_some()
}

} // verus!
