//! RISC-V page table entry.
//!
//! ```text
//! 63       54 53      28 27      19 18      10 9  8 7 6 5 4 3 2 1 0
//! +----------+----------+----------+----------+----+-+-+-+-+-+-+-+-+
//! | Reserved |  PPN[2]  |  PPN[1]  |  PPN[0]  |RSW |D|A|G|U|X|W|R|V|
//! +----------+----------+----------+----------+----+-+-+-+-+-+-+-+-+
//! ```

use vstd::prelude::*;

use crate::mm::addr::PhysPageNum;

verus! {

/// Bits of every named flag (`V` through `D`).
pub const PTE_FLAGS_ALL: u64 = 0xFF;

/// Shift of the PPN field.
pub const PPN_SHIFT: u64 = 10;

/// Mask of the PPN field, bits [53:10].
pub const PPN_MASK: u64 = 0x003F_FFFF_FFFF_FC00;

/// Mask of the flag field, bits [9:0].
pub const FLAGS_MASK: u64 = 0x3FF;

/// RISC-V PTE flag bits. Only the eight named bits can be set.
#[derive(Clone, Copy, Debug, PartialEq, Eq, Structural)]
pub struct PTEFlags {
    bits: u64,
}

impl PTEFlags {
    /// The raw bit pattern.
    pub closed spec fn spec_bits(self) -> u64 {
        self.bits
    }

    /// Every flag value stays within the named bits.
    #[verifier::type_invariant]
    closed spec fn inv(self) -> bool {
        self.bits & !PTE_FLAGS_ALL == 0
    }

    /// Valid.
    pub const V: u64 = 1;
    /// Readable.
    pub const R: u64 = 2;
    /// Writable.
    pub const W: u64 = 4;
    /// Executable.
    pub const X: u64 = 8;
    /// User accessible.
    pub const U: u64 = 0x10;
    /// Global mapping.
    pub const G: u64 = 0x20;
    /// Accessed.
    pub const A: u64 = 0x40;
    /// Dirty.
    pub const D: u64 = 0x80;
    /// R | W.
    pub const RW: u64 = 0x6;
    /// R | X.
    pub const RX: u64 = 0xA;
    /// R | W | X.
    pub const RWX: u64 = 0xE;
    /// Boot phase: V | R | W | X.
    pub const BOOT: u64 = 0xF;
    /// Kernel read-only: V | R | G.
    pub const KERNEL_RO: u64 = 0x23;
    /// Kernel read-write: V | R | W | G.
    pub const KERNEL_RW: u64 = 0x27;
    /// Kernel read-execute: V | R | X | G.
    pub const KERNEL_RX: u64 = 0x2B;
    /// User read-only: V | R | U.
    pub const USER_RO: u64 = 0x13;
    /// User read-write: V | R | W | U.
    pub const USER_RW: u64 = 0x17;
    /// User read-execute: V | R | X | U.
    pub const USER_RX: u64 = 0x1B;
}


impl PTEFlags {
    /// No flag set.
    pub fn empty() -> (r: Self)
        ensures
            r.spec_bits() == 0,
    {
        assert(0u64 & !0xFFu64 == 0) by (bit_vector);
        PTEFlags { bits: 0 }
    }

    /// Keeps the named bits of `bits` and drops the others.
    pub fn from_bits_truncate(bits: u64) -> (r: Self)
        ensures
            r.spec_bits() == bits & PTE_FLAGS_ALL,
    {
        let b = bits & PTE_FLAGS_ALL;
        assert(b & !PTE_FLAGS_ALL == 0) by (bit_vector)
            requires
                b == bits & 0xFFu64,
        ;
        PTEFlags { bits: b }
    }

    /// The raw bit pattern.
    pub fn bits(&self) -> (r: u64)
        ensures
            r == self.spec_bits(),
            r & !PTE_FLAGS_ALL == 0,
    {
        proof {
            use_type_invariant(self);
        }
        self.bits
    }

    /// Whether every flag of `other` is set in `self`.
    pub fn contains(&self, other: Self) -> (r: bool)
        ensures
            r == (self.spec_bits() & other.spec_bits() == other.spec_bits()),
    {
        self.bits & other.bits == other.bits
    }

    /// The flags set in either `self` or `other`.
    pub fn union(self, other: Self) -> (r: Self)
        ensures
            r.spec_bits() == self.spec_bits() | other.spec_bits(),
    {
        proof {
            use_type_invariant(self);
            use_type_invariant(other);
        }
        let a = self.bits;
        let b = other.bits;
        assert((a | b) & !PTE_FLAGS_ALL == 0) by (bit_vector)
            requires
                a & !0xFFu64 == 0,
                b & !0xFFu64 == 0,
        ;
        PTEFlags { bits: a | b }
    }
}

/// RISC-V page table entry.
#[derive(Clone, Copy, PartialEq, Eq, Structural)]
pub struct PTE(u64);

/// Raw value of a new leaf entry.
pub open spec fn leaf_bits(ppn: usize, flags: u64) -> u64 {
    ((ppn as u64) << PPN_SHIFT) | flags | PTEFlags::V
}

/// Raw value of a new table entry.
pub open spec fn table_bits(ppn: usize) -> u64 {
    ((ppn as u64) << PPN_SHIFT) | PTEFlags::V
}

/// Whether the valid bit of a raw entry is set.
pub open spec fn bits_valid(raw: u64) -> bool {
    raw & PTEFlags::V != 0
}

/// Whether a raw entry is valid and has one of R, W, X set.
pub open spec fn bits_leaf(raw: u64) -> bool {
    bits_valid(raw) && raw & PTEFlags::RWX != 0
}

/// Physical page number held by a raw entry.
pub open spec fn bits_ppn(raw: u64) -> usize {
    ((raw & PPN_MASK) >> PPN_SHIFT) as usize
}

impl PTE {
    /// The raw 64-bit value of the entry.
    pub closed spec fn view(self) -> u64 {
        self.0
    }

    /// An entry is its raw value: equal values make equal entries, so
    /// `from_raw(x).raw() == x` and `from_raw(p.raw()) == p`.
    pub proof fn lemma_view_determines(a: Self, b: Self)
        ensures
            (a@ == b@) == (a == b),
    {
    }

    /// An invalid, all-zero entry.
    pub fn empty() -> (r: Self)
        ensures
            r@ == 0,
    {
        PTE(0)
    }

    /// Creates an entry from raw bits.
    pub fn from_raw(raw: u64) -> (r: Self)
        ensures
            r@ == raw,
    {
        PTE(raw)
    }

    /// Creates a leaf entry mapping the page `ppn` with `flags` (the valid bit is always set).
    pub fn new_leaf(ppn: PhysPageNum, flags: PTEFlags) -> (r: Self)
        ensures
            r@ == leaf_bits(ppn.0, flags.spec_bits()),
    {
        PTE(((ppn.as_usize() as u64) << PPN_SHIFT) | flags.bits() | PTEFlags::V)
    }

    /// Creates a non-leaf entry pointing to the next level table at `ppn`.
    pub fn new_table(ppn: PhysPageNum) -> (r: Self)
        ensures
            r@ == table_bits(ppn.0),
    {
        PTE(((ppn.as_usize() as u64) << PPN_SHIFT) | PTEFlags::V)
    }

    /// Whether the entry is valid.
    pub fn is_valid(&self) -> (r: bool)
        ensures
            r == bits_valid(self@),
    {
        (self.0 & PTEFlags::V) != 0
    }

    /// Whether the entry is a valid leaf (R, W or X set).
    pub fn is_leaf(&self) -> (r: bool)
        ensures
            r == bits_leaf(self@),
    {
        self.is_valid() && (self.0 & PTEFlags::RWX) != 0
    }

    /// The raw value.
    pub fn raw(&self) -> (r: u64)
        ensures
            r == self@,
    {
        self.0
    }

    /// The flag bits of the entry.
    pub fn flags(&self) -> (r: PTEFlags)
        ensures
            r.spec_bits() == self@ & PTE_FLAGS_ALL,
    {
        let r = PTEFlags::from_bits_truncate(self.0 & FLAGS_MASK);
        let raw = self.0;
        assert((raw & 0x3FFu64) & 0xFFu64 == raw & 0xFFu64) by (bit_vector);
        r
    }

    /// The physical page number.
    pub fn ppn(&self) -> (r: PhysPageNum)
        ensures
            r.0 == bits_ppn(self@),
    {
        PhysPageNum::new(((self.0 & PPN_MASK) >> PPN_SHIFT) as usize)
    }

    /// Replaces the flag field (bits [9:0]) by `flags`, keeping the rest.
    pub fn set_flags(&mut self, flags: PTEFlags)
        ensures
            final(self)@ == (old(self)@ & !FLAGS_MASK) | flags.spec_bits(),
    {
        self.0 = (self.0 & !FLAGS_MASK) | flags.bits();
    }

    /// Replaces the physical page number, keeping the flag field (bits [9:0]).
    pub fn set_ppn(&mut self, ppn: PhysPageNum)
        ensures
            final(self)@ == (old(self)@ & FLAGS_MASK) | ((ppn.0 as u64) << PPN_SHIFT),
    {
        self.0 = (self.0 & FLAGS_MASK) | ((ppn.as_usize() as u64) << PPN_SHIFT);
    }

    /// Resets the entry to invalid.
    pub fn clear(&mut self)
        ensures
            final(self)@ == 0,
    {
        self.0 = 0;
    }
}


/// A new leaf entry is valid, holds the page number it was made with (which fits in
/// the 44-bit PPN field), and its flag byte is the requested flags plus the valid bit.
pub proof fn lemma_new_leaf(ppn: usize, flags: u64)
    requires
        ppn < 0x1000_0000_0000,
        flags & !PTE_FLAGS_ALL == 0,
    ensures
        bits_valid(leaf_bits(ppn, flags)),
        bits_ppn(leaf_bits(ppn, flags)) == ppn,
        leaf_bits(ppn, flags) & PTE_FLAGS_ALL == flags | PTEFlags::V,
        bits_leaf(leaf_bits(ppn, flags)) == (flags & PTEFlags::RWX != 0),
{
    let p = ppn as u64;
    assert(p < 0x1000_0000_0000);
    assert(
        p < 0x1000_0000_0000u64 && flags & !0xFFu64 == 0 ==> {
            let raw = (p << 10u64) | flags | 1u64;
            &&& raw & 1u64 != 0
            &&& (raw & 0x003F_FFFF_FFFF_FC00u64) >> 10u64 == p
            &&& raw & 0xFFu64 == flags | 1u64
            &&& (raw & 0xEu64 != 0) == (flags & 0xEu64 != 0)
        }
    ) by (bit_vector);
}

/// A new table entry is valid, is not a leaf, and holds the page number it was made with.
pub proof fn lemma_new_table(ppn: usize)
    requires
        ppn < 0x1000_0000_0000,
    ensures
        bits_valid(table_bits(ppn)),
        !bits_leaf(table_bits(ppn)),
        bits_ppn(table_bits(ppn)) == ppn,
        table_bits(ppn) & PTE_FLAGS_ALL == PTEFlags::V,
{
    let p = ppn as u64;
    assert(p < 0x1000_0000_0000);
    assert(
        p < 0x1000_0000_0000u64 ==> {
            let raw = (p << 10u64) | 1u64;
            &&& raw & 1u64 != 0
            &&& raw & 0xEu64 == 0
            &&& (raw & 0x003F_FFFF_FFFF_FC00u64) >> 10u64 == p
            &&& raw & 0xFFu64 == 1u64
        }
    ) by (bit_vector);
}

/// Setting the page number of an entry keeps its flag field, and reading the page number
/// back gives what was set (when it fits in the 44-bit PPN field).
pub proof fn lemma_set_ppn(raw: u64, ppn: usize)
    requires
        ppn < 0x1000_0000_0000,
    ensures
        bits_ppn((raw & FLAGS_MASK) | ((ppn as u64) << PPN_SHIFT)) == ppn,
        ((raw & FLAGS_MASK) | ((ppn as u64) << PPN_SHIFT)) & FLAGS_MASK == raw & FLAGS_MASK,
        bits_valid((raw & FLAGS_MASK) | ((ppn as u64) << PPN_SHIFT)) == bits_valid(raw),
        bits_leaf((raw & FLAGS_MASK) | ((ppn as u64) << PPN_SHIFT)) == bits_leaf(raw),
{
    let p = ppn as u64;
    assert(p < 0x1000_0000_0000);
    assert(
        p < 0x1000_0000_0000u64 ==> {
            let n = (raw & 0x3FFu64) | (p << 10u64);
            &&& (n & 0x003F_FFFF_FFFF_FC00u64) >> 10u64 == p
            &&& n & 0x3FFu64 == raw & 0x3FFu64
            &&& (n & 1u64 != 0) == (raw & 1u64 != 0)
            &&& (n & 0xEu64 != 0) == (raw & 0xEu64 != 0)
        }
    ) by (bit_vector);
}

/// Setting the flags of an entry keeps its page number, and its flag byte becomes the
/// given flags.
pub proof fn lemma_set_flags(raw: u64, flags: u64)
    requires
        flags & !PTE_FLAGS_ALL == 0,
    ensures
        bits_ppn((raw & !FLAGS_MASK) | flags) == bits_ppn(raw),
        ((raw & !FLAGS_MASK) | flags) & PTE_FLAGS_ALL == flags,
        bits_valid((raw & !FLAGS_MASK) | flags) == (flags & PTEFlags::V != 0),
{
    assert(
        flags & !0xFFu64 == 0 ==> {
            let n = (raw & !0x3FFu64) | flags;
            &&& n & 0x003F_FFFF_FFFF_FC00u64 == raw & 0x003F_FFFF_FFFF_FC00u64
            &&& n & 0xFFu64 == flags
            &&& (n & 1u64 != 0) == (flags & 1u64 != 0)
        }
    ) by (bit_vector);
}

/// A cleared entry is invalid.
pub proof fn lemma_cleared_invalid()
    ensures
        !bits_valid(0),
        !bits_leaf(0),
{
    assert(0u64 & 1u64 == 0) by (bit_vector);
}

} // verus!
