//! Decoding of device tree property values and node names.

use vstd::prelude::*;

use crate::libs::endian::be_u32_at;
use crate::libs::endian::read_be_u32_at;
use super::fdt_api::props_data;

verus! {

/// A register range: base and size.
#[derive(Clone, Copy, Debug, PartialEq, Eq, Structural)]
pub struct RegDesc {
    pub base: usize,
    pub size: usize,
}

/// The bytes of a property value, if the property is there.
pub open spec fn opt_bytes(value: Option<&[u8]>) -> Option<Seq<u8>> {
    match value {
        Some(v) => Some(v@),
        None => None,
    }
}

/// The ranges of a `reg` property, if the node has a usable one.
pub open spec fn opt_regs(reg: Option<Vec<(usize, Option<usize>)>>) -> Option<Seq<(usize, Option<usize>)>> {
    match reg {
        Some(v) => Some(v@),
        None => None,
    }
}

/// The first 4 bytes of a property value as a big-endian `u32`, if it has that many.
pub open spec fn prop_u32_spec(value: Option<Seq<u8>>) -> Option<u32> {
    match value {
        Some(v) => if v.len() >= 4 {
            Some(be_u32_at(v, 0))
        } else {
            None
        },
        None => None,
    }
}

/// Reads a `u32` property: the first four bytes of the value, big-endian.
pub fn prop_u32(value: Option<&[u8]>) -> (r: Option<u32>)
    ensures
        r == prop_u32_spec(match value { Some(v) => Some(v@), None => None }),
{
    match value {
        Some(v) => {
            if v.len() >= 4 {
                Some(read_be_u32_at(v, 0))
            } else {
                None
            }
        },
        None => None,
    }
}

/// The `@` character.
pub const AT_SIGN: u8 = 0x40;

/// Index of the first `@` at or after `from`, or the length when there is none.
pub open spec fn find_at(b: Seq<u8>, from: int) -> int
    decreases b.len() - from,
{
    if from >= b.len() {
        b.len() as int
    } else if b[from] == AT_SIGN {
        from
    } else {
        find_at(b, from + 1)
    }
}

/// `find_at` lies between `from` and the length, and no `@` comes before it.
pub proof fn lemma_find_at(b: Seq<u8>, from: int)
    requires
        0 <= from <= b.len(),
    ensures
        from <= find_at(b, from) <= b.len(),
        find_at(b, from) < b.len() ==> b[find_at(b, from)] == AT_SIGN,
        forall|i: int| from <= i < find_at(b, from) ==> b[i] != AT_SIGN,
    decreases b.len() - from,
{
    if from < b.len() && b[from] != AT_SIGN {
        lemma_find_at(b, from + 1);
    }
}

/// Index of the first `@` at or after `from` in `b`, or `b.len()`.
pub fn find_at_exec(b: &[u8], from: usize) -> (r: usize)
    requires
        from <= b@.len(),
    ensures
        r == find_at(b@, from as int),
{
    let mut i = from;
    proof {
        lemma_find_at(b@, from as int);
    }
    while i < b.len()
        invariant
            from <= i <= b@.len(),
            find_at(b@, i as int) == find_at(b@, from as int),
        decreases b@.len() - i,
    {
        if b[i] == AT_SIGN {
            return i;
        }
        i = i + 1;
    }
    i
}

/// Value of a hexadecimal digit.
pub open spec fn hex_digit(c: u8) -> Option<nat> {
    if 0x30 <= c <= 0x39 {
        Some((c - 0x30) as nat)
    } else if 0x61 <= c <= 0x66 {
        Some((c - 0x61 + 10) as nat)
    } else if 0x41 <= c <= 0x46 {
        Some((c - 0x41 + 10) as nat)
    } else {
        None
    }
}

/// Whether every byte is a hexadecimal digit.
pub open spec fn all_hex(s: Seq<u8>) -> bool {
    forall|i: int| 0 <= i < s.len() ==> (#[trigger] hex_digit(s[i])) is Some
}

/// Value of a string of hexadecimal digits.
pub open spec fn hex_value(s: Seq<u8>) -> nat
    decreases s.len(),
{
    if s.len() == 0 {
        0
    } else {
        hex_value(s.drop_last()) * 16 + match hex_digit(s.last()) {
            Some(d) => d,
            None => 0,
        }
    }
}

/// What parsing `s` as a hexadecimal `usize` gives: an optional `+` sign followed by at
/// least one hexadecimal digit, with a value that fits.
pub open spec fn parse_hex_spec(s: Seq<u8>) -> Option<usize> {
    let digits = if s.len() > 0 && s[0] == 0x2B { s.drop_first() } else { s };
    if digits.len() > 0 && all_hex(digits) && hex_value(digits) <= usize::MAX {
        Some(hex_value(digits) as usize)
    } else {
        None
    }
}

/// A longer prefix of hexadecimal digits has a value at least as large.
proof fn lemma_hex_value_monotone(s: Seq<u8>, j: int, k: int)
    requires
        0 <= j <= k <= s.len(),
        all_hex(s),
    ensures
        hex_value(s.take(j)) <= hex_value(s.take(k)),
    decreases k - j,
{
    if j < k {
        lemma_hex_value_monotone(s, j, k - 1);
        assert(s.take(k).drop_last() =~= s.take(k - 1));
    }
}

fn hex_digit_exec(c: u8) -> (r: Option<usize>)
    ensures
        match hex_digit(c) {
            Some(d) => r == Some(d as usize),
            None => r is None,
        },
{
    if 0x30 <= c && c <= 0x39 {
        Some((c - 0x30) as usize)
    } else if 0x61 <= c && c <= 0x66 {
        Some((c - 0x61 + 10) as usize)
    } else if 0x41 <= c && c <= 0x46 {
        Some((c - 0x41 + 10) as usize)
    } else {
        None
    }
}

/// Parses `s` as a hexadecimal `usize`, as `usize::from_str_radix(s, 16)` does.
pub fn parse_hex_usize(s: &[u8]) -> (r: Option<usize>)
    ensures
        r == parse_hex_spec(s@),
{
    let ghost digits = if s@.len() > 0 && s@[0] == 0x2B { s@.drop_first() } else { s@ };
    let start: usize = if s.len() > 0 && s[0] == 0x2B { 1 } else { 0 };
    if start >= s.len() {
        return None;
    }
    let mut v: usize = 0;
    let mut i = start;
    proof {
        assert(digits =~= s@.subrange(start as int, s@.len() as int));
        assert(digits.take(0) =~= Seq::<u8>::empty());
    }
    while i < s.len()
        invariant
            start <= i <= s@.len(),
            digits =~= s@.subrange(start as int, s@.len() as int),
            digits == (if s@.len() > 0 && s@[0] == 0x2B { s@.drop_first() } else { s@ }),
            all_hex(digits.take(i - start)),
            v == hex_value(digits.take(i - start)),
        decreases s@.len() - i,
    {
        let d = match hex_digit_exec(s[i]) {
            Some(d) => d,
            None => {
                proof {
                    let k = (i - start) as int;
                    assert(digits[k] == s@[i as int]);
                    assert(!((hex_digit(digits[k])) is Some));
                    assert(!all_hex(digits));
                }
                return None;
            },
        };
        proof {
            let k = i - start;
            assert(digits.take(k + 1).drop_last() =~= digits.take(k));
            assert(digits.take(k + 1).last() == s@[i as int]);
            assert(hex_value(digits.take(k + 1)) == hex_value(digits.take(k)) * 16 + d);
            assert forall|m: int| 0 <= m < k + 1 implies (#[trigger] hex_digit(digits.take(k + 1)[m])) is Some by {
                if m < k {
                    assert(digits.take(k + 1)[m] == digits.take(k)[m]);
                }
            }
        }
        if v > (usize::MAX - d) / 16 {
            proof {
                let k = i - start;
                assert(v * 16 + d > usize::MAX) by (nonlinear_arith)
                    requires
                        v > (usize::MAX - d) / 16,
                        d <= 15,
                ;
                if all_hex(digits) {
                    lemma_hex_value_monotone(digits, k + 1, digits.len() as int);
                    assert(digits.take(digits.len() as int) =~= digits);
                }
            }
            return None;
        }
        assert(v * 16 + d <= usize::MAX) by (nonlinear_arith)
            requires
                v <= (usize::MAX - d) / 16,
                d <= 15,
        ;
        v = v * 16 + d;
        i = i + 1;
    }
    proof {
        assert(digits.take(digits.len() as int) =~= digits);
    }
    Some(v)
}

/// The value of the first property named `name`, as `FdtNode::property` finds it.
pub open spec fn prop_lookup(props: Seq<(Seq<u8>, Seq<u8>)>, name: Seq<u8>) -> Option<Seq<u8>>
    decreases props.len(),
{
    if props.len() == 0 {
        None
    } else if props[0].0 == name {
        Some(props[0].1)
    } else {
        prop_lookup(props.drop_first(), name)
    }
}

/// With no property named `name` among the first `i`, the lookup is that of the rest.
proof fn lemma_lookup_skip(props: Seq<(Seq<u8>, Seq<u8>)>, name: Seq<u8>, i: int)
    requires
        0 <= i <= props.len(),
        forall|j: int| 0 <= j < i ==> (#[trigger] props[j]).0 != name,
    ensures
        prop_lookup(props, name) == prop_lookup(props.subrange(i, props.len() as int), name),
    decreases i,
{
    if i > 0 {
        assert(props[0].0 != name);
        let rest = props.drop_first();
        assert forall|j: int| 0 <= j < i - 1 implies (#[trigger] rest[j]).0 != name by {
            assert(rest[j] == props[j + 1]);
        }
        lemma_lookup_skip(rest, name, i - 1);
        assert(rest.subrange(i - 1, rest.len() as int) =~= props.subrange(i, props.len() as int));
    } else {
        assert(props.subrange(0, props.len() as int) =~= props);
    }
}

/// The value of the first property named `name`.
pub fn find_prop<'x>(props: &'x Vec<(Vec<u8>, Vec<u8>)>, name: &[u8]) -> (r: Option<&'x [u8]>)
    ensures
        opt_bytes(r) == prop_lookup(props_data(props@), name@),
{
    let ghost all = props_data(props@);
    let mut i: usize = 0;
    while i < props.len()
        invariant
            i <= props@.len(),
            all == props_data(props@),
            forall|j: int| 0 <= j < i ==> (#[trigger] all[j]).0 != name@,
        decreases props@.len() - i,
    {
        if crate::build::assembly::bytes_eq(props[i].0.as_slice(), name) {
            proof {
                lemma_lookup_skip(all, name@, i as int);
                assert(all.subrange(i as int, all.len() as int)[0] == all[i as int]);
            }
            return Some(props[i].1.as_slice());
        }
        i = i + 1;
    }
    proof {
        lemma_lookup_skip(all, name@, i as int);
    }
    None
}

} // verus!
