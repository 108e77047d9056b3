//! Choices of the assembly build step.

use vstd::prelude::*;
use vstd::utf8::encode_utf8;

verus! {

/// Whether two byte strings are equal.
pub fn bytes_eq(a: &[u8], b: &[u8]) -> (r: bool)
    ensures
        r == (a@ == b@),
{
    if a.len() != b.len() {
        return false;
    }
    let mut i: usize = 0;
    while i < a.len()
        invariant
            i <= a@.len(),
            a@.len() == b@.len(),
            a@.take(i as int) == b@.take(i as int),
        decreases a@.len() - i,
    {
        if a[i] != b[i] {
            return false;
        }
        assert(a@.take(i + 1) =~= a@.take(i as int).push(a@[i as int]));
        assert(b@.take(i + 1) =~= b@.take(i as int).push(b@[i as int]));
        i = i + 1;
    }
    assert(a@.take(a@.len() as int) =~= a@);
    assert(b@.take(b@.len() as int) =~= b@);
    true
}

/// Whether two strings are equal.
pub fn str_eq(a: &str, b: &str) -> (r: bool)
    ensures
        r == (encode_utf8(a@) == encode_utf8(b@)),
{
    bytes_eq(a.as_bytes(), b.as_bytes())
}

/// Whether a file extension is one of an assembly source: `S`, `s` or `asm`.
pub fn is_asm_extension(ext: &str) -> (r: bool)
    ensures
        r == (encode_utf8(ext@) == encode_utf8("S"@) || encode_utf8(ext@) == encode_utf8("s"@) || encode_utf8(ext@)
            == encode_utf8("asm"@)),
{
    str_eq(ext, "S") || str_eq(ext, "s") || str_eq(ext, "asm")
}

/// Extra compiler flags of the assembly build for an architecture.
pub fn asm_arch_flags(target_arch: &str) -> (r: Vec<&'static str>)
    ensures
        encode_utf8(target_arch@) == encode_utf8("riscv64"@) ==> r@ == seq!["-march=rv64gc_zihintpause", "-mabi=lp64d"],
        encode_utf8(target_arch@) != encode_utf8("riscv64"@) ==> r@.len() == 0,
{
    let mut flags: Vec<&'static str> = Vec::new();
    if str_eq(target_arch, "riscv64") {
        flags.push("-march=rv64gc_zihintpause");
        flags.push("-mabi=lp64d");
        assert(flags@ =~= seq!["-march=rv64gc_zihintpause", "-mabi=lp64d"]);
    }
    flags
}

} // verus!
