//! Page table level abstraction.

use vstd::prelude::*;
use vstd::arithmetic::power2::pow2;

use crate::config::PAGE_SIZE;
use crate::arch::riscv64::vm::consts::PT_LEVEL_BITS;

verus! {

/// A logical page table level.
#[derive(Debug, Clone, Copy, PartialEq, Eq, PartialOrd, Ord, Structural)]
pub enum PageLevel {
    /// 4 KiB pages (always physical level 0)
    PTE,
    /// 2 MiB pages
    PMD,
    /// 1 GiB pages
    PUD,
    /// 512 GiB
    PGD,
}

/// Numeric index of a level: PTE is 0, PGD is 3.
pub open spec fn level_index(l: PageLevel) -> int {
    match l {
        PageLevel::PTE => 0,
        PageLevel::PMD => 1,
        PageLevel::PUD => 2,
        PageLevel::PGD => 3,
    }
}

/// The level with index `i`, if there is one.
pub open spec fn level_from_index(i: int) -> Option<PageLevel> {
    if i == 0 {
        Some(PageLevel::PTE)
    } else if i == 1 {
        Some(PageLevel::PMD)
    } else if i == 2 {
        Some(PageLevel::PUD)
    } else if i == 3 {
        Some(PageLevel::PGD)
    } else {
        None
    }
}

/// Size in bytes of a page mapped at level `l`, as computed in a `usize`.
pub open spec fn level_page_size(l: PageLevel) -> usize {
    PAGE_SIZE << ((level_index(l) * 9) as usize)
}

impl PageLevel {
    /// Number of supported levels.
    pub const MAX_LEVELS: usize = 5;

    /// The level with numeric index `index`.
    pub fn from_index(index: usize) -> (r: Option<Self>)
        ensures
            r == level_from_index(index as int),
    {
        match index {
            0 => Some(Self::PTE),
            1 => Some(Self::PMD),
            2 => Some(Self::PUD),
            3 => Some(Self::PGD),
            _ => None,
        }
    }

    /// Numeric index of the level.
    pub fn as_index(self) -> (r: usize)
        ensures
            r == level_index(self),
    {
        match self {
            Self::PTE => 0,
            Self::PMD => 1,
            Self::PUD => 2,
            Self::PGD => 3,
        }
    }

    /// Page size at this level.
    pub fn page_size(self) -> (r: usize)
        ensures
            r == level_page_size(self),
    {
        PAGE_SIZE << (self.as_index() * PT_LEVEL_BITS)
    }

    /// Page offset mask at this level; the page size must not vanish in a `usize`.
    pub fn page_mask(self) -> (r: usize)
        requires
            level_page_size(self) > 0,
        ensures
            r == level_page_size(self) - 1,
    {
        self.page_size() - 1
    }

    /// Next lower level (towards PTE).
    pub fn down(self) -> (r: Option<Self>)
        ensures
            r == level_from_index(level_index(self) - 1),
    {
        match self {
            Self::PGD => Some(Self::PUD),
            Self::PUD => Some(Self::PMD),
            Self::PMD => Some(Self::PTE),
            Self::PTE => None,
        }
    }

    /// Next lower level (towards PTE); the same as `down`.
    pub fn next(self) -> (r: Option<Self>)
        ensures
            r == level_from_index(level_index(self) - 1),
    {
        self.down()
    }

    /// Next higher level (towards root).
    pub fn up(self) -> (r: Option<Self>)
        ensures
            r == level_from_index(level_index(self) + 1),
    {
        match self {
            Self::PTE => Some(Self::PMD),
            Self::PMD => Some(Self::PUD),
            Self::PUD => Some(Self::PGD),
            Self::PGD => None,
        }
    }
}

/// Converting a level to its index and back gives the level; an index converts to a
/// level exactly when it is below four, and then converts back to itself.
pub proof fn lemma_index_roundtrip(l: PageLevel, i: int)
    ensures
        level_from_index(level_index(l) as int) == Some(l),
        level_index(l) < 4,
        level_from_index(i) is Some <==> 0 <= i < 4,
        level_from_index(i) is Some ==> level_index(level_from_index(i).unwrap()) == i,
{
}

/// Going down then up, or up then down, returns to the starting level.
pub proof fn lemma_down_up_inverse(l: PageLevel)
    ensures
        level_from_index(level_index(l) - 1) matches Some(d) ==> level_from_index(level_index(d) + 1) == Some(l),
        level_from_index(level_index(l) + 1) matches Some(u) ==> level_from_index(level_index(u) - 1) == Some(l),
{
}

/// Each level's page is 512 times the size of the level below; the 4 KiB, 2 MiB and
/// 1 GiB sizes fit any `usize`, the 512 GiB size needs a 64-bit one.
pub proof fn lemma_page_sizes()
    ensures
        level_page_size(PageLevel::PTE) == 0x1000,
        level_page_size(PageLevel::PMD) == 0x20_0000,
        level_page_size(PageLevel::PUD) == 0x4000_0000,
        usize::BITS == 64 ==> level_page_size(PageLevel::PGD) as int == 0x80_0000_0000,
{
    assert(4096usize << 0usize == 0x1000usize) by (bit_vector);
    assert(4096usize << 9usize == 0x20_0000usize) by (bit_vector);
    assert(4096usize << 18usize == 0x4000_0000usize) by (bit_vector);
    assert(usize::BITS == 64 ==> (4096usize << 27usize) as u64 == 0x80_0000_0000u64) by (bit_vector);
}

/// The page mask of a level holds exactly the offset bits below its page size: the two
/// share no bit, and together they make the next multiple's bits.
pub proof fn lemma_page_mask_bits(l: PageLevel)
    requires
        usize::BITS == 64,
    ensures
        level_page_size(l) > 0,
        level_page_size(l) & ((level_page_size(l) - 1) as usize) == 0,
        level_page_size(l) as int == pow2((12 + 9 * level_index(l)) as nat),
{
    lemma_page_sizes();
    vstd::arithmetic::power2::lemma2_to64();
    vstd::arithmetic::power2::lemma2_to64_rest();
    assert(usize::BITS == 64 ==> (4096usize << 27usize) & ((4096usize << 27usize) - 1) as usize == 0) by (bit_vector);
    assert((4096usize << 0usize) & ((4096usize << 0usize) - 1) as usize == 0) by (bit_vector);
    assert((4096usize << 9usize) & ((4096usize << 9usize) - 1) as usize == 0) by (bit_vector);
    assert((4096usize << 18usize) & ((4096usize << 18usize) - 1) as usize == 0) by (bit_vector);
}

} // verus!
