//! Physical/virtual addresses and physical page numbers.

use vstd::prelude::*;

use crate::config::PAGE_SIZE;

verus! {

/// A physical page number.
#[derive(Clone, Copy, Debug, PartialEq, Eq, Structural)]
pub struct PhysPageNum(pub usize);

/// A physical address.
#[derive(Clone, Copy, Debug, PartialEq, Eq, Structural)]
pub struct PhysAddr(pub usize);

/// A virtual address.
#[derive(Clone, Copy, Debug, PartialEq, Eq, Structural)]
pub struct VirtAddr(pub usize);

/// `addr` rounded down to a multiple of `align`.
pub open spec fn align_down_spec(addr: int, align: int) -> int {
    addr - addr % align
}

/// `addr` rounded up to a multiple of `align`.
pub open spec fn align_up_spec(addr: int, align: int) -> int {
    if addr % align == 0 {
        addr
    } else {
        addr - addr % align + align
    }
}

/// Facts about the remainder used by the alignment helpers.
pub proof fn lemma_align_facts(addr: int, align: int)
    requires
        addr >= 0,
        align > 0,
    ensures
        0 <= addr % align < align,
        addr % align <= addr,
        (addr - addr % align) % align == 0,
        (addr - addr % align + align) % align == 0,
{
    vstd::arithmetic::div_mod::lemma_fundamental_div_mod(addr, align);
    vstd::arithmetic::div_mod::lemma_mod_bound(addr, align);
    let q = addr / align;
    assert(q >= 0) by {
        vstd::arithmetic::div_mod::lemma_div_pos_is_pos(addr, align);
    }
    assert(addr - addr % align == q * align) by (nonlinear_arith)
        requires
            addr == align * q + addr % align,
    ;
    vstd::arithmetic::div_mod::lemma_mod_multiples_basic(q, align);
    assert(addr - addr % align + align == (q + 1) * align) by (nonlinear_arith)
        requires
            addr == align * q + addr % align,
    ;
    vstd::arithmetic::div_mod::lemma_mod_multiples_basic(q + 1, align);
    assert(addr % align <= addr) by (nonlinear_arith)
        requires
            addr == align * q + addr % align,
            q >= 0,
            align > 0,
    ;
}

/// Rounds `addr` down to a multiple of `align`.
pub fn align_down(addr: usize, align: usize) -> (r: usize)
    requires
        align > 0,
    ensures
        r == align_down_spec(addr as int, align as int),
        r % align == 0,
        r <= addr,
{
    proof {
        lemma_align_facts(addr as int, align as int);
    }
    addr - addr % align
}

/// Rounds `addr` up to a multiple of `align`; the result must fit in a `usize`.
pub fn align_up(addr: usize, align: usize) -> (r: usize)
    requires
        align > 0,
        align_up_spec(addr as int, align as int) <= usize::MAX,
    ensures
        r == align_up_spec(addr as int, align as int),
        r % align == 0,
        addr <= r,
{
    proof {
        lemma_align_facts(addr as int, align as int);
    }
    let rem = addr % align;
    if rem == 0 {
        addr
    } else {
        addr - rem + align
    }
}

impl PhysPageNum {
    pub fn new(ppn: usize) -> (r: Self)
        ensures
            r.0 == ppn,
    {
        PhysPageNum(ppn)
    }

    pub fn as_usize(&self) -> (r: usize)
        ensures
            r == self.0,
    {
        self.0
    }

    /// Address of the first byte of this page.
    pub fn to_addr(&self) -> (r: PhysAddr)
        requires
            self.0 * PAGE_SIZE <= usize::MAX,
        ensures
            r.0 == self.0 * PAGE_SIZE,
    {
        PhysAddr(self.0 * PAGE_SIZE)
    }
}

impl PhysAddr {
    pub fn new(pa: usize) -> (r: Self)
        ensures
            r.0 == pa,
    {
        PhysAddr(pa)
    }

    pub fn as_usize(&self) -> (r: usize)
        ensures
            r == self.0,
    {
        self.0
    }

    /// Number of the page holding this address.
    pub fn to_ppn(&self) -> (r: PhysPageNum)
        ensures
            r.0 == self.0 / PAGE_SIZE,
    {
        PhysPageNum(self.0 / PAGE_SIZE)
    }

    pub fn is_page_aligned(&self) -> (r: bool)
        ensures
            r == (self.0 % PAGE_SIZE == 0),
    {
        self.0 % PAGE_SIZE == 0
    }

    pub fn align_down(&self, align: usize) -> (r: Self)
        requires
            align > 0,
        ensures
            r.0 == align_down_spec(self.0 as int, align as int),
    {
        PhysAddr(align_down(self.0, align))
    }

    pub fn align_up(&self, align: usize) -> (r: Self)
        requires
            align > 0,
            align_up_spec(self.0 as int, align as int) <= usize::MAX,
        ensures
            r.0 == align_up_spec(self.0 as int, align as int),
    {
        PhysAddr(align_up(self.0, align))
    }
}

impl VirtAddr {
    pub fn new(va: usize) -> (r: Self)
        ensures
            r.0 == va,
    {
        VirtAddr(va)
    }

    pub fn as_usize(&self) -> (r: usize)
        ensures
            r == self.0,
    {
        self.0
    }

    /// Virtual page number of this address.
    pub fn to_ppn(&self) -> (r: PhysPageNum)
        ensures
            r.0 == self.0 / PAGE_SIZE,
    {
        PhysPageNum(self.0 / PAGE_SIZE)
    }
}

} // verus!
