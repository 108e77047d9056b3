//! Text of the constant files made from the linker script: a Rust module and a C header
//! that define the linker symbols' values.

use vstd::prelude::*;
use vstd::string::StringExecFns;
use vstd::utf8::encode_utf8;

use super::parse::parse_value_spec;
use crate::libs::dtb::props::all_hex;
use crate::libs::dtb::props::hex_digit;
use crate::libs::dtb::props::hex_value;
use crate::libs::dtb::props::parse_hex_spec;
use super::parse::try_parse_value;
use super::parse::literal_value;
use super::parse::strip_underscores;

verus! {

/// Symbols whose values are read from the linker script.
pub const LINKER_SYMBOLS: [&'static str; 3] = ["KERNEL_VMA_BASE", "KERNEL_LMA_BASE", "PHYSICAL_BASE"];

/// Path of the linker script of an architecture: `linker/<arch>.ld`.
pub fn linker_script_path(target_arch: &str) -> (r: String)
    ensures
        r@ == "linker/"@ + target_arch@ + ".ld"@,
{
    let mut p = String::from_str("linker/");
    p.append(target_arch);
    p.append(".ld");
    p
}

/// ASCII code of an upper-case hexadecimal digit.
pub open spec fn hex_char(d: nat) -> u8 {
    if d < 10 {
        (0x30 + d) as u8
    } else {
        (0x41 + d - 10) as u8
    }
}

/// Upper-case hexadecimal digits of `v`, most significant first, without leading zeros.
pub open spec fn hex_upper(v: nat) -> Seq<u8>
    decreases v,
{
    if v < 16 {
        seq![hex_char(v)]
    } else {
        hex_upper(v / 16).push(hex_char(v % 16))
    }
}

/// `v` formatted as `{:#X}` does: `0x` and the upper-case hexadecimal digits.
pub open spec fn fmt_hex(v: nat) -> Seq<u8> {
    seq![0x30u8, 0x78u8] + hex_upper(v)
}

/// The digits `{:#X}` writes read back, as hexadecimal, to the value written.
pub proof fn lemma_hex_roundtrip(v: nat)
    ensures
        all_hex(hex_upper(v)),
        hex_value(hex_upper(v)) == v,
        hex_upper(v).len() > 0,
        v <= usize::MAX ==> parse_hex_spec(hex_upper(v)) == Some(v as usize),
    decreases v,
{
    if v < 16 {
        assert(hex_digit(hex_char(v)) == Some(v));
        assert(hex_upper(v).drop_last() =~= Seq::<u8>::empty());
        assert(hex_upper(v).last() == hex_char(v));
        assert(hex_value(hex_upper(v)) == hex_value(Seq::<u8>::empty()) * 16 + v);
    } else {
        lemma_hex_roundtrip(v / 16);
        let d = v % 16;
        assert(hex_digit(hex_char(d)) == Some(d));
        assert(hex_upper(v).drop_last() =~= hex_upper(v / 16));
        assert(hex_upper(v).last() == hex_char(d));
        assert(hex_value(hex_upper(v)) == hex_value(hex_upper(v / 16)) * 16 + d);
        assert(v == (v / 16) * 16 + d);
        assert forall|i: int| 0 <= i < hex_upper(v).len() implies (#[trigger] hex_digit(hex_upper(v)[i])) is Some by {
            if i < hex_upper(v / 16).len() {
                assert(hex_upper(v)[i] == hex_upper(v / 16)[i]);
            }
        }
    }
    if v <= usize::MAX {
        assert(hex_upper(v)[0] != 0x2B) by {
            assert(hex_digit(hex_upper(v)[0]) is Some);
        }
    }
}

/// ASCII code of a lower-case hexadecimal digit.
pub open spec fn hex_char_lower(d: nat) -> u8 {
    if d < 10 {
        (0x30 + d) as u8
    } else {
        (0x61 + d - 10) as u8
    }
}

/// Lower-case hexadecimal digits of `v`, most significant first, without leading zeros.
pub open spec fn hex_lower(v: nat) -> Seq<u8>
    decreases v,
{
    if v < 16 {
        seq![hex_char_lower(v)]
    } else {
        hex_lower(v / 16).push(hex_char_lower(v % 16))
    }
}

/// Every hexadecimal digit value is read back from its digit, written in upper or lower
/// case: `0`-`9`, `a`-`f` and `A`-`F` all decode to their values.
pub proof fn lemma_hex_digits_decode(d: nat)
    requires
        d < 16,
    ensures
        hex_digit(hex_char(d)) == Some(d),
        hex_digit(hex_char_lower(d)) == Some(d),
{
}

/// A value written in lower-case hexadecimal digits is read back as that value: for every
/// `usize` `v`, parsing `hex_lower(v)` gives `v`.
pub proof fn lemma_hex_lower_roundtrip(v: nat)
    ensures
        all_hex(hex_lower(v)),
        hex_value(hex_lower(v)) == v,
        hex_lower(v).len() > 0,
        v <= usize::MAX ==> parse_hex_spec(hex_lower(v)) == Some(v as usize),
    decreases v,
{
    if v < 16 {
        lemma_hex_digits_decode(v);
        assert(hex_lower(v).drop_last() =~= Seq::<u8>::empty());
        assert(hex_lower(v).last() == hex_char_lower(v));
        assert(hex_value(hex_lower(v)) == hex_value(Seq::<u8>::empty()) * 16 + v);
    } else {
        lemma_hex_lower_roundtrip(v / 16);
        let d = v % 16;
        lemma_hex_digits_decode(d);
        assert(hex_lower(v).drop_last() =~= hex_lower(v / 16));
        assert(hex_lower(v).last() == hex_char_lower(d));
        assert(hex_value(hex_lower(v)) == hex_value(hex_lower(v / 16)) * 16 + d);
        assert(v == (v / 16) * 16 + d);
        assert forall|i: int| 0 <= i < hex_lower(v).len() implies (#[trigger] hex_digit(hex_lower(v)[i])) is Some by {
            if i < hex_lower(v / 16).len() {
                assert(hex_lower(v)[i] == hex_lower(v / 16)[i]);
            }
        }
    }
    if v <= usize::MAX {
        assert(hex_lower(v)[0] != 0x2B) by {
            assert(hex_digit(hex_lower(v)[0]) is Some);
        }
    }
}

/// Text made of ASCII bytes encodes in UTF-8 to those same bytes.
proof fn lemma_ascii_utf8(bs: Seq<u8>)
    requires
        forall|i: int| 0 <= i < bs.len() ==> bs[i] < 0x80,
    ensures
        encode_utf8(bs.map_values(|b: u8| b as char)) == bs,
    decreases bs.len(),
{
    let cs = bs.map_values(|b: u8| b as char);
    if bs.len() > 0 {
        let u: u32 = cs[0] as u32;
        assert(u == bs[0] as u32);
        assert(u & 0x7F == u) by (bit_vector)
            requires
                u < 0x80,
        ;
        assert(cs.drop_first() =~= bs.drop_first().map_values(|b: u8| b as char));
        lemma_ascii_utf8(bs.drop_first());
        assert(encode_utf8(cs) =~= bs);
    } else {
        assert(encode_utf8(cs) =~= bs);
    }
}

/// Bytes with no underscore are left as they are when underscores are dropped.
proof fn lemma_no_underscores(b: Seq<u8>)
    requires
        forall|i: int| 0 <= i < b.len() ==> b[i] != 0x5F,
    ensures
        strip_underscores(b) == b,
    decreases b.len(),
{
    reveal(Seq::filter);
    if b.len() > 0 {
        lemma_no_underscores(b.drop_last());
        assert(b.drop_last().push(b.last()) =~= b);
    }
}

/// The text `0x` followed by the lower-case hexadecimal digits of `v`.
pub open spec fn hex_lower_literal(v: nat) -> Seq<char> {
    (seq![0x30u8, 0x78u8] + hex_lower(v)).map_values(|b: u8| b as char)
}

/// A captured literal written `0x` and lower-case digits is read as its value: for every
/// `usize` `v`, the literal `0x` + the lower-case hexadecimal digits of `v` gives `v`
/// (so `0xffff_ffd0_8020_0000` and `0xFFFF_FFD0_8020_0000` read alike).
pub proof fn lemma_lower_literal_value(v: nat)
    requires
        v <= usize::MAX,
    ensures
        literal_value(hex_lower_literal(v)) == Some(v as usize),
{
    lemma_hex_lower_roundtrip(v);
    let b = seq![0x30u8, 0x78u8] + hex_lower(v);
    assert forall|i: int| 0 <= i < b.len() implies b[i] < 0x80 && b[i] != 0x5F by {
        if i >= 2 {
            assert(b[i] == hex_lower(v)[i - 2]);
            assert(hex_digit(hex_lower(v)[i - 2]) is Some);
        }
    }
    lemma_ascii_utf8(b);
    lemma_no_underscores(b);
    assert(hex_digit(b[2]) is Some) by {
        assert(b[2] == hex_lower(v)[0]);
    }
    assert(b.subrange(2, b.len() as int) =~= hex_lower(v));
}

/// Appends the hexadecimal digits of `v`.
fn push_hex_digits(v: usize, out: &mut Vec<u8>)
    ensures
        final(out)@ == old(out)@ + hex_upper(v as nat),
    decreases v,
{
    if v >= 16 {
        push_hex_digits(v / 16, out);
    }
    let d = (v % 16) as u8;
    let c = if d < 10 { 0x30 + d } else { 0x41 + d - 10 };
    out.push(c);
    proof {
        if v >= 16 {
            assert(old(out)@ + hex_upper(v as nat) =~= old(out)@ + hex_upper((v / 16) as nat) + seq![hex_char((v % 16) as nat)]);
        } else {
            assert(old(out)@ + hex_upper(v as nat) =~= old(out)@.push(c));
        }
    }
}

/// Appends `v` as `{:#X}` formats it.
pub fn push_hex(v: usize, out: &mut Vec<u8>)
    ensures
        final(out)@ == old(out)@ + fmt_hex(v as nat),
{
    out.push(0x30);
    out.push(0x78);
    push_hex_digits(v, out);
    assert(final(out)@ =~= old(out)@ + fmt_hex(v as nat));
}

/// Appends the UTF-8 bytes of `s`.
pub fn push_str(s: &str, out: &mut Vec<u8>)
    ensures
        final(out)@ == old(out)@ + encode_utf8(s@),
{
    let b = s.as_bytes();
    let ghost start = out@;
    let mut i: usize = 0;
    while i < b.len()
        invariant
            i <= b@.len(),
            b@ == encode_utf8(s@),
            out@ == start + b@.take(i as int),
        decreases b@.len() - i,
    {
        out.push(b[i]);
        assert(b@.take(i + 1) =~= b@.take(i as int).push(b@[i as int]));
        i = i + 1;
    }
    assert(b@.take(b@.len() as int) =~= b@);
}

/// Appends `n` spaces.
fn push_spaces(n: usize, out: &mut Vec<u8>)
    ensures
        final(out)@ == old(out)@ + Seq::new(n as nat, |i: int| 0x20u8),
{
    let ghost start = out@;
    let mut i: usize = 0;
    while i < n
        invariant
            i <= n,
            out@ == start + Seq::new(i as nat, |k: int| 0x20u8),
        decreases n - i,
    {
        out.push(0x20);
        assert(Seq::new((i + 1) as nat, |k: int| 0x20u8) =~= Seq::new(i as nat, |k: int| 0x20u8).push(0x20u8));
        i = i + 1;
    }
}

/// A linker symbol and its value.
#[derive(Clone, Copy, Debug)]
pub struct LinkerConst {
    pub name: &'static str,
    pub value: usize,
}

/// The Rust line defining one constant.
pub open spec fn rust_const_line(c: LinkerConst) -> Seq<u8> {
    encode_utf8("pub const "@) + encode_utf8(c.name@) + encode_utf8(": usize = "@) + fmt_hex(c.value as nat)
        + encode_utf8(";\n"@)
}

/// The Rust lines defining the constants, in order.
pub open spec fn rust_const_lines(cs: Seq<LinkerConst>) -> Seq<u8>
    decreases cs.len(),
{
    if cs.len() == 0 {
        Seq::empty()
    } else {
        rust_const_lines(cs.drop_last()) + rust_const_line(cs.last())
    }
}

/// The Rust module defining the constants, with a banner naming the script.
pub open spec fn rust_module_text(header: Seq<char>, cs: Seq<LinkerConst>) -> Seq<u8> {
    encode_utf8("//! DO NOT EDIT! Generated from `"@) + encode_utf8(header) + encode_utf8("`.\n\n"@)
        + rust_const_lines(cs)
}

/// The text of the Rust module that defines the constants.
pub fn render_rust_consts(header: &str, consts: &Vec<LinkerConst>) -> (r: Vec<u8>)
    ensures
        r@ == rust_module_text(header@, consts@),
{
    let mut out: Vec<u8> = Vec::new();
    push_str("//! DO NOT EDIT! Generated from `", &mut out);
    push_str(header, &mut out);
    push_str("`.\n\n", &mut out);
    let ghost banner = out@;
    let mut i: usize = 0;
    while i < consts.len()
        invariant
            i <= consts@.len(),
            out@ == banner + rust_const_lines(consts@.take(i as int)),
        decreases consts@.len() - i,
    {
        let c = consts[i];
        push_str("pub const ", &mut out);
        push_str(c.name, &mut out);
        push_str(": usize = ", &mut out);
        push_hex(c.value, &mut out);
        push_str(";\n", &mut out);
        proof {
            assert(consts@.take(i + 1).drop_last() =~= consts@.take(i as int));
            assert(out@ =~= banner + rust_const_lines(consts@.take(i + 1)));
        }
        i = i + 1;
    }
    proof {
        assert(consts@.take(consts@.len() as int) =~= consts@);
    }
    out
}

/// Spaces padding a name of `len` characters to 16.
pub open spec fn pad16(len: nat) -> Seq<u8> {
    Seq::new(if len < 16 { (16 - len) as nat } else { 0 }, |i: int| 0x20u8)
}

/// The C line defining one constant; the name is left-aligned in 16 characters.
pub open spec fn c_define_line(c: LinkerConst) -> Seq<u8> {
    encode_utf8("#define "@) + encode_utf8(c.name@) + pad16(c.name@.len()) + fmt_hex(c.value as nat) + encode_utf8(
        "\n"@,
    )
}

/// The C lines defining the constants, in order.
pub open spec fn c_define_lines(cs: Seq<LinkerConst>) -> Seq<u8>
    decreases cs.len(),
{
    if cs.len() == 0 {
        Seq::empty()
    } else {
        c_define_lines(cs.drop_last()) + c_define_line(cs.last())
    }
}

/// The C header defining the constants, with a banner naming the script and an include
/// guard.
pub open spec fn c_header_text(header: Seq<char>, cs: Seq<LinkerConst>) -> Seq<u8> {
    encode_utf8("/* DO NOT EDIT! Generated from `"@) + encode_utf8(header) + encode_utf8(
        "` */\n\n#ifndef _LINKER_CONST_H_\n#define _LINKER_CONST_H_\n\n"@,
    ) + c_define_lines(cs) + encode_utf8("\n#endif // _LINKER_CONST_H_\n"@)
}

/// Appends the C line defining `c`.
fn push_c_define(c: LinkerConst, out: &mut Vec<u8>)
    ensures
        final(out)@ == old(out)@ + c_define_line(c),
{
    push_str("#define ", out);
    push_str(c.name, out);
    let n = c.name.unicode_len();
    let pad = if n < 16 { 16 - n } else { 0 };
    push_spaces(pad, out);
    push_hex(c.value, out);
    push_str("\n", out);
    assert(final(out)@ =~= old(out)@ + c_define_line(c));
}

/// The text of the C header that defines the constants.
pub fn render_c_header(header: &str, consts: &Vec<LinkerConst>) -> (r: Vec<u8>)
    ensures
        r@ == c_header_text(header@, consts@),
{
    let mut out: Vec<u8> = Vec::new();
    push_str("/* DO NOT EDIT! Generated from `", &mut out);
    push_str(header, &mut out);
    push_str("` */\n\n#ifndef _LINKER_CONST_H_\n#define _LINKER_CONST_H_\n\n", &mut out);
    let ghost banner = out@;
    let mut i: usize = 0;
    while i < consts.len()
        invariant
            i <= consts@.len(),
            out@ == banner + c_define_lines(consts@.take(i as int)),
        decreases consts@.len() - i,
    {
        push_c_define(consts[i], &mut out);
        proof {
            assert(consts@.take(i + 1).drop_last() =~= consts@.take(i as int));
            assert(out@ =~= banner + c_define_lines(consts@.take(i + 1)));
        }
        i = i + 1;
    }
    push_str("\n#endif // _LINKER_CONST_H_\n", &mut out);
    proof {
        assert(consts@.take(consts@.len() as int) =~= consts@);
    }
    out
}


/// The constants read from a linker script, `None` when a symbol's value cannot be read.
pub open spec fn linker_constants_spec(content: Seq<char>, names: Seq<&'static str>) -> Option<Seq<usize>>
    decreases names.len(),
{
    if names.len() == 0 {
        Some(Seq::empty())
    } else {
        match (linker_constants_spec(content, names.drop_last()), parse_value_spec(content, names.last()@)) {
            (Some(vs), Some(v)) => Some(vs.push(v)),
            _ => None,
        }
    }
}

/// Reads the value of each symbol of `names` from the linker script `content`; `None`
/// when one of them cannot be read.
pub fn read_linker_constants(content: &str, names: &[&'static str]) -> (r: Option<Vec<LinkerConst>>)
    ensures
        match linker_constants_spec(content@, names@) {
            None => r is None,
            Some(vs) => r matches Some(cs) && cs@.len() == names@.len() && forall|i: int|
                0 <= i < names@.len() ==> (#[trigger] cs@[i]).name == names@[i] && cs@[i].value == vs[i],
        },
{
    let mut out: Vec<LinkerConst> = Vec::new();
    let mut i: usize = 0;
    while i < names.len()
        invariant
            i <= names@.len(),
            linker_constants_spec(content@, names@.take(i as int)) matches Some(vs) && out@.len() == i && vs.len() == i
                && forall|k: int| 0 <= k < i ==> (#[trigger] out@[k]).name == names@[k] && out@[k].value == vs[k],
        decreases names@.len() - i,
    {
        let name = names[i];
        proof {
            assert(names@.take(i + 1).drop_last() =~= names@.take(i as int));
        }
        let ghost old_out = out@;
        match try_parse_value(content, name) {
            Some(v) => {
                out.push(LinkerConst { name, value: v });
                proof {
                    let vs = linker_constants_spec(content@, names@.take(i as int)).unwrap();
                    lemma_constants_len(content@, names@.take(i + 1));
                    assert(names@.take(i + 1).last() == name);
                    assert(linker_constants_spec(content@, names@.take(i + 1)) == Some(vs.push(v)));
                    assert forall|k: int| 0 <= k < i + 1 implies (#[trigger] out@[k]).name == names@[k] && out@[k].value == vs.push(v)[k] by {
                        if k < i {
                            assert(out@[k] == old_out[k]);
                        }
                    }
                }
            },
            None => {
                proof {
                    lemma_constants_none_extends(content@, names@, i as int + 1);
                }
                return None;
            },
        }
        i = i + 1;
    }
    proof {
        assert(names@.take(names@.len() as int) =~= names@);
    }
    Some(out)
}

/// The values read are as many as the symbols.
proof fn lemma_constants_len(content: Seq<char>, names: Seq<&'static str>)
    ensures
        linker_constants_spec(content, names) matches Some(vs) ==> vs.len() == names.len(),
    decreases names.len(),
{
    if names.len() > 0 {
        lemma_constants_len(content, names.drop_last());
    }
}

/// Once a prefix of the symbols cannot be read, neither can the whole list.
proof fn lemma_constants_none_extends(content: Seq<char>, names: Seq<&'static str>, k: int)
    requires
        0 <= k <= names.len(),
        linker_constants_spec(content, names.take(k)) is None,
    ensures
        linker_constants_spec(content, names) is None,
    decreases names.len() - k,
{
    if k < names.len() {
        assert(names.take(k + 1).drop_last() =~= names.take(k));
        lemma_constants_none_extends(content, names, k + 1);
    } else {
        assert(names.take(k) =~= names);
    }
}

} // verus!
