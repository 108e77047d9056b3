//! Kernel memory layout constants from the linker script, and the linear mapping
//! between physical and kernel virtual addresses.

use vstd::prelude::*;

verus! {

/// Addresses fixed by the linker script.
#[derive(Clone, Copy, Debug, PartialEq, Eq, Structural)]
pub struct LinkerLayout {
    /// Virtual address the kernel image is linked at.
    pub kernel_vma_base: usize,
    /// Physical address the kernel image is loaded at.
    pub kernel_lma_base: usize,
    /// Start of physical memory.
    pub physical_base: usize,
}

impl LinkerLayout {
    /// The layout is usable: the image is linked no lower than it is loaded.
    pub open spec fn wf(&self) -> bool {
        self.kernel_vma_base >= self.kernel_lma_base
    }

    /// Distance between kernel virtual and physical addresses.
    pub open spec fn spec_offset(&self) -> int {
        self.kernel_vma_base - self.kernel_lma_base
    }

    pub fn vma_base(&self) -> (r: usize)
        ensures
            r == self.kernel_vma_base,
    {
        self.kernel_vma_base
    }

    pub fn lma_base(&self) -> (r: usize)
        ensures
            r == self.kernel_lma_base,
    {
        self.kernel_lma_base
    }

    pub fn phy_base(&self) -> (r: usize)
        ensures
            r == self.physical_base,
    {
        self.physical_base
    }

    /// `KERNEL_VMA_BASE - KERNEL_LMA_BASE`.
    pub fn offset(&self) -> (r: usize)
        requires
            self.wf(),
        ensures
            r == self.spec_offset(),
    {
        self.kernel_vma_base - self.kernel_lma_base
    }

    /// Kernel virtual address of the physical address `paddr`.
    pub fn p2v_linear(&self, paddr: usize) -> (r: usize)
        requires
            self.wf(),
            paddr + self.spec_offset() <= usize::MAX,
        ensures
            r == paddr + self.spec_offset(),
    {
        paddr + self.offset()
    }

    /// Physical address of the kernel virtual address `vaddr`.
    pub fn v2p_linear(&self, vaddr: usize) -> (r: usize)
        requires
            self.wf(),
            vaddr >= self.spec_offset(),
        ensures
            r == vaddr - self.spec_offset(),
    {
        vaddr - self.offset()
    }
}

/// The linear mapping is invertible: translating to virtual and back gives the physical
/// address, and back and forth from virtual gives the virtual address.
pub proof fn lemma_linear_roundtrip(layout: LinkerLayout, paddr: int, vaddr: int)
    requires
        layout.wf(),
    ensures
        (paddr + layout.spec_offset()) - layout.spec_offset() == paddr,
        (vaddr - layout.spec_offset()) + layout.spec_offset() == vaddr,
{
}

} // verus!
