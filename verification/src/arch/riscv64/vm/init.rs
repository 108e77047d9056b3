//! Decisions of the kernel page table setup: which physical ranges are mapped, with which
//! permissions, and the `satp` value that switches to the table.

use vstd::prelude::*;

use crate::arch::riscv64::boot::linker::LinkerLayout;
use crate::arch::riscv64::cpu::regs::satp::SATP_MODE;
use crate::arch::riscv64::vm::pte::PTEFlags;
use crate::config::PAGE_SIZE;
use crate::kernel::vm::level::PageLevel;
use crate::libs::dtb::DtbMemKind;
use crate::libs::dtb::DtbMemRegion;
use crate::mm::addr::align_down_spec;
use crate::mm::addr::align_up_spec;
use crate::mm::addr::PhysAddr;

verus! {

/// Alignment of the kernel mappings: one PMD entry, 2 MiB.
pub const PMD_ALIGN: usize = 0x20_0000;

/// A physical range of the kernel with its linear virtual address.
#[derive(Clone, Copy, Debug, PartialEq, Eq, Structural)]
pub struct KernelSection {
    pub pa_start: usize,
    pub va_start: usize,
    pub size: usize,
}

impl KernelSection {
    /// The section from `pa_start` to `pa_end`, at its linear kernel address.
    pub fn from_pa(layout: &LinkerLayout, pa_start: usize, pa_end: usize) -> (r: Self)
        requires
            layout.wf(),
            pa_start <= pa_end,
            pa_start + layout.spec_offset() <= usize::MAX,
        ensures
            r.pa_start == pa_start,
            r.va_start == pa_start + layout.spec_offset(),
            r.size == pa_end - pa_start,
    {
        KernelSection { pa_start, va_start: layout.p2v_linear(pa_start), size: pa_end - pa_start }
    }

    /// Number of base pages in the section.
    pub fn page_count(&self) -> (r: usize)
        ensures
            r == self.size / PAGE_SIZE,
    {
        self.size / PAGE_SIZE
    }
}

/// Name and permissions of a mapped memory region kind; reserved memory is not mapped.
pub open spec fn region_mapping_spec(kind: DtbMemKind) -> Option<(&'static str, u64)> {
    match kind {
        DtbMemKind::Ram => Some(("RAM", PTEFlags::KERNEL_RW)),
        DtbMemKind::Mmio => Some(("MMIO", PTEFlags::KERNEL_RW)),
        DtbMemKind::Reserved => None,
    }
}

/// Name and permissions with which a memory region kind is mapped, `None` for reserved
/// memory.
pub fn region_mapping(kind: DtbMemKind) -> (r: Option<(&'static str, PTEFlags)>)
    ensures
        match region_mapping_spec(kind) {
            Some((name, flags)) => r matches Some((n, f)) && n == name && f.spec_bits() == flags,
            None => r is None,
        },
{
    assert(PTEFlags::KERNEL_RW & 0xFF == PTEFlags::KERNEL_RW) by (bit_vector);
    match kind {
        DtbMemKind::Ram => Some(("RAM", PTEFlags::from_bits_truncate(PTEFlags::KERNEL_RW))),
        DtbMemKind::Mmio => Some(("MMIO", PTEFlags::from_bits_truncate(PTEFlags::KERNEL_RW))),
        DtbMemKind::Reserved => None,
    }
}

/// The section a memory region is mapped as: its range widened to 2 MiB boundaries.
pub open spec fn region_section_spec(layout: LinkerLayout, region: DtbMemRegion) -> KernelSection {
    let start = align_down_spec(region.base as int, PMD_ALIGN as int);
    let end = align_up_spec(region.base + region.size, PMD_ALIGN as int);
    KernelSection { pa_start: start as usize, va_start: (start + layout.spec_offset()) as usize, size: (end - start) as usize }
}

/// The end of a region, widened to 2 MiB, and its kernel address fit in a `usize`.
pub open spec fn region_fits(layout: LinkerLayout, region: DtbMemRegion) -> bool {
    &&& region.base + region.size <= usize::MAX
    &&& align_up_spec(region.base + region.size, PMD_ALIGN as int) + layout.spec_offset() <= usize::MAX
}

/// The section a memory region is mapped as.
pub fn region_section(layout: &LinkerLayout, region: &DtbMemRegion) -> (r: KernelSection)
    requires
        layout.wf(),
        region_fits(*layout, *region),
    ensures
        r == region_section_spec(*layout, *region),
{
    proof {
        crate::mm::addr::lemma_align_facts(region.base as int, PMD_ALIGN as int);
        crate::mm::addr::lemma_align_facts((region.base + region.size) as int, PMD_ALIGN as int);
    }
    let pa_start = PhysAddr::new(region.base).align_down(PMD_ALIGN);
    let pa_end = PhysAddr::new(region.base + region.size).align_up(PMD_ALIGN);
    KernelSection::from_pa(layout, pa_start.as_usize(), pa_end.as_usize())
}

/// The firmware's range below the kernel text, `None` when it is empty: from the start of
/// physical memory rounded down to 2 MiB to the physical address of the text rounded up.
pub open spec fn sbi_section_spec(layout: LinkerLayout, stext: usize) -> Option<KernelSection> {
    let start = align_down_spec(layout.physical_base as int, PMD_ALIGN as int);
    let end = align_up_spec(stext - layout.spec_offset(), PMD_ALIGN as int);
    if end > start {
        Some(KernelSection { pa_start: start as usize, va_start: (start + layout.spec_offset()) as usize, size: (end - start) as usize })
    } else {
        None
    }
}

/// The requirements of `sbi_reserved_section`: the text lies above the offset and the
/// rounded ends fit.
pub open spec fn sbi_fits(layout: LinkerLayout, stext: usize) -> bool {
    &&& stext >= layout.spec_offset()
    &&& align_up_spec(stext - layout.spec_offset(), PMD_ALIGN as int) <= usize::MAX
    &&& align_down_spec(layout.physical_base as int, PMD_ALIGN as int) + layout.spec_offset() <= usize::MAX
}

/// The firmware (SBI) range below the kernel text, from the start of physical memory
/// rounded down to 2 MiB to the physical address of `stext` rounded up to 2 MiB; `None`
/// when it is empty.
pub fn sbi_reserved_section(layout: &LinkerLayout, stext: usize) -> (r: Option<KernelSection>)
    requires
        layout.wf(),
        sbi_fits(*layout, stext),
    ensures
        r == sbi_section_spec(*layout, stext),
{
    let sbi_start = PhysAddr::new(layout.phy_base()).align_down(PMD_ALIGN);
    let sbi_end = PhysAddr::new(layout.v2p_linear(stext)).align_up(PMD_ALIGN);
    if sbi_end.as_usize() > sbi_start.as_usize() {
        Some(KernelSection::from_pa(layout, sbi_start.as_usize(), sbi_end.as_usize()))
    } else {
        None
    }
}

/// Whether a change of the kernel page table maps or unmaps.
#[derive(Clone, Copy, Debug, PartialEq, Eq, Structural)]
pub enum VmOpKind {
    MapRange,
    UnmapRange,
}

/// A change of the kernel page table: map (or unmap) `pages` pages from virtual page
/// `vpn` (to physical page `ppn`) with entries of at most `level`, for the named section.
#[derive(Clone, Copy, Debug)]
pub struct VmOp {
    pub name: &'static str,
    pub kind: VmOpKind,
    pub section: KernelSection,
    pub vpn: usize,
    pub ppn: usize,
    pub pages: usize,
    /// PTE flag bits of a mapping; zero for an unmapping.
    pub flags: u64,
    pub level: PageLevel,
}

/// The change that maps or unmaps a section with entries of at most 2 MiB.
pub open spec fn seg_op(name: &'static str, kind: VmOpKind, flags: u64, seg: KernelSection) -> VmOp {
    VmOp {
        name,
        kind,
        section: seg,
        vpn: seg.va_start / PAGE_SIZE,
        ppn: seg.pa_start / PAGE_SIZE,
        pages: seg.size / PAGE_SIZE,
        flags,
        level: PageLevel::PMD,
    }
}

/// The mapping of `seg` with `flags`.
pub fn map_mem_seg(seg: &KernelSection, name: &'static str, flags: PTEFlags) -> (r: VmOp)
    ensures
        r == seg_op(name, VmOpKind::MapRange, flags.spec_bits(), *seg),
{
    VmOp {
        name,
        kind: VmOpKind::MapRange,
        section: *seg,
        vpn: seg.va_start / PAGE_SIZE,
        ppn: seg.pa_start / PAGE_SIZE,
        pages: seg.size / PAGE_SIZE,
        flags: flags.bits(),
        level: PageLevel::PMD,
    }
}

/// The unmapping of `seg`.
pub fn unmap_mem_seg(seg: &KernelSection, name: &'static str) -> (r: VmOp)
    ensures
        r == seg_op(name, VmOpKind::UnmapRange, 0, *seg),
{
    VmOp {
        name,
        kind: VmOpKind::UnmapRange,
        section: *seg,
        vpn: seg.va_start / PAGE_SIZE,
        ppn: seg.pa_start / PAGE_SIZE,
        pages: seg.size / PAGE_SIZE,
        flags: 0,
        level: PageLevel::PMD,
    }
}

/// The mapping a memory region gets: none for reserved memory.
pub open spec fn region_ops(layout: LinkerLayout, region: DtbMemRegion) -> Seq<VmOp> {
    match region_mapping_spec(region.kind) {
        Some((name, flags)) => seq![seg_op(name, VmOpKind::MapRange, flags, region_section_spec(layout, region))],
        None => Seq::empty(),
    }
}

/// The mappings of the memory regions, in order.
pub open spec fn regions_ops(layout: LinkerLayout, regions: Seq<DtbMemRegion>) -> Seq<VmOp>
    decreases regions.len(),
{
    if regions.len() == 0 {
        Seq::empty()
    } else {
        regions_ops(layout, regions.drop_last()) + region_ops(layout, regions.last())
    }
}

/// Unmapping then remapping a kernel image section with its own permissions; an empty
/// section is skipped unless `always`.
pub open spec fn section_ops(name: &'static str, flags: u64, seg: KernelSection, always: bool) -> Seq<VmOp> {
    if always || seg.size > 0 {
        seq![seg_op(name, VmOpKind::UnmapRange, 0, seg), seg_op(name, VmOpKind::MapRange, flags, seg)]
    } else {
        Seq::empty()
    }
}

/// The changes `vm_setup` makes, in order: the mapping of each memory region, the
/// unmapping of the firmware range, then the text (read-execute), read-only data
/// (read-only) and data and bss (read-write) sections remapped with their permissions.
pub open spec fn vm_setup_ops(
    layout: LinkerLayout,
    regions: Seq<DtbMemRegion>,
    stext: usize,
    text: KernelSection,
    rodata: KernelSection,
    data_bss: KernelSection,
) -> Seq<VmOp> {
    regions_ops(layout, regions) + match sbi_section_spec(layout, stext) {
        Some(seg) => seq![seg_op("SBI_RESERVED", VmOpKind::UnmapRange, 0, seg)],
        None => Seq::empty(),
    } + section_ops("TEXT", PTEFlags::KERNEL_RX, text, true) + section_ops("RODATA", PTEFlags::KERNEL_RO, rodata, false)
        + section_ops("DATA_BSS", PTEFlags::KERNEL_RW, data_bss, false)
}

/// The permissions a change carries. An unmapping carries no flags. A mapping is valid,
/// readable, global and not user-accessible; the text is executable and not writable,
/// the read-only data neither writable nor executable, and the data, bss, RAM and device
/// (MMIO) mappings writable and not executable.
pub open spec fn op_permissions_ok(op: VmOp) -> bool {
    &&& op.kind == VmOpKind::UnmapRange ==> op.flags == 0
    &&& op.kind == VmOpKind::MapRange ==> {
        &&& op.flags & 0x1 != 0
        &&& op.flags & 0x2 != 0
        &&& op.flags & 0x10 == 0
        &&& op.flags & 0x20 != 0
    }
    &&& (op.kind == VmOpKind::MapRange && op.name == "TEXT") ==> op.flags & 0x8 != 0 && op.flags & 0x4 == 0
    &&& (op.kind == VmOpKind::MapRange && op.name == "RODATA") ==> op.flags & 0x8 == 0 && op.flags & 0x4 == 0
    &&& (op.kind == VmOpKind::MapRange && (op.name == "DATA_BSS" || op.name == "RAM" || op.name == "MMIO"))
        ==> op.flags & 0x4 != 0 && op.flags & 0x8 == 0
}

/// The names the plan uses are distinct.
proof fn lemma_names_distinct()
    ensures
        "TEXT" != "RODATA",
        "TEXT" != "DATA_BSS",
        "TEXT" != "RAM",
        "TEXT" != "MMIO",
        "RODATA" != "DATA_BSS",
        "RODATA" != "RAM",
        "RODATA" != "MMIO",
{
    reveal_strlit("TEXT");
    reveal_strlit("RODATA");
    reveal_strlit("DATA_BSS");
    reveal_strlit("RAM");
    reveal_strlit("MMIO");
    assert("TEXT"@[0] != "RODATA"@[0]);
    assert("TEXT"@[0] != "DATA_BSS"@[0]);
    assert("TEXT"@[0] != "RAM"@[0]);
    assert("TEXT"@[0] != "MMIO"@[0]);
    assert("RODATA"@[0] != "DATA_BSS"@[0]);
    assert("RODATA"@.len() != "RAM"@.len());
    assert("RODATA"@[0] != "MMIO"@[0]);
}

/// The bits of the kernel permission sets.
proof fn lemma_kernel_flag_bits()
    ensures
        PTEFlags::KERNEL_RW & 0x1 != 0 && PTEFlags::KERNEL_RW & 0x2 != 0 && PTEFlags::KERNEL_RW & 0x4 != 0
            && PTEFlags::KERNEL_RW & 0x8 == 0 && PTEFlags::KERNEL_RW & 0x10 == 0 && PTEFlags::KERNEL_RW & 0x20 != 0,
        PTEFlags::KERNEL_RO & 0x1 != 0 && PTEFlags::KERNEL_RO & 0x2 != 0 && PTEFlags::KERNEL_RO & 0x4 == 0
            && PTEFlags::KERNEL_RO & 0x8 == 0 && PTEFlags::KERNEL_RO & 0x10 == 0 && PTEFlags::KERNEL_RO & 0x20 != 0,
        PTEFlags::KERNEL_RX & 0x1 != 0 && PTEFlags::KERNEL_RX & 0x2 != 0 && PTEFlags::KERNEL_RX & 0x4 == 0
            && PTEFlags::KERNEL_RX & 0x8 != 0 && PTEFlags::KERNEL_RX & 0x10 == 0 && PTEFlags::KERNEL_RX & 0x20 != 0,
{
    assert({
        &&& 0x27u64 & 0x1 != 0 && 0x27u64 & 0x2 != 0 && 0x27u64 & 0x4 != 0 && 0x27u64 & 0x8 == 0 && 0x27u64 & 0x10 == 0 && 0x27u64 & 0x20 != 0
        &&& 0x23u64 & 0x1 != 0 && 0x23u64 & 0x2 != 0 && 0x23u64 & 0x4 == 0 && 0x23u64 & 0x8 == 0 && 0x23u64 & 0x10 == 0 && 0x23u64 & 0x20 != 0
        &&& 0x2Bu64 & 0x1 != 0 && 0x2Bu64 & 0x2 != 0 && 0x2Bu64 & 0x4 == 0 && 0x2Bu64 & 0x8 != 0 && 0x2Bu64 & 0x10 == 0 && 0x2Bu64 & 0x20 != 0
    }) by (bit_vector);
}

/// RAM and device memory are mapped readable and writable, not executable, under their
/// own names; reserved memory is not mapped.
pub proof fn lemma_region_mapping_permissions(kind: DtbMemKind)
    ensures
        kind == DtbMemKind::Reserved <==> region_mapping_spec(kind) is None,
        kind == DtbMemKind::Ram ==> (region_mapping_spec(kind) matches Some((n, _)) && n == "RAM"),
        kind == DtbMemKind::Mmio ==> (region_mapping_spec(kind) matches Some((n, _)) && n == "MMIO"),
        region_mapping_spec(kind) is Some ==> ({
            let f = region_mapping_spec(kind).unwrap().1;
            f & 0x1 != 0 && f & 0x2 != 0 && f & 0x4 != 0 && f & 0x8 == 0 && f & 0x10 == 0
        }),
{
    lemma_kernel_flag_bits();
}

/// Every change the memory regions give has the permissions of `op_permissions_ok`, and
/// each RAM or device region is mapped, writable, at its 2 MiB-widened linear range.
proof fn lemma_regions_ops_permissions(layout: LinkerLayout, regions: Seq<DtbMemRegion>)
    ensures
        forall|i: int| 0 <= i < regions_ops(layout, regions).len() ==> op_permissions_ok(#[trigger] regions_ops(layout, regions)[i]),
        forall|k: int| 0 <= k < regions.len() && (#[trigger] regions[k]).kind != DtbMemKind::Reserved ==>
            regions_ops(layout, regions).contains(seg_op(
                if regions[k].kind == DtbMemKind::Ram { "RAM" } else { "MMIO" },
                VmOpKind::MapRange,
                PTEFlags::KERNEL_RW,
                region_section_spec(layout, regions[k]),
            )),
    decreases regions.len(),
{
    lemma_names_distinct();
    lemma_kernel_flag_bits();
    if regions.len() > 0 {
        let init = regions.drop_last();
        lemma_regions_ops_permissions(layout, init);
        let a = regions_ops(layout, init);
        let b = region_ops(layout, regions.last());
        assert(regions_ops(layout, regions) == a + b);
        assert forall|i: int| 0 <= i < regions_ops(layout, regions).len() implies op_permissions_ok(#[trigger] regions_ops(layout, regions)[i]) by {
            if i < a.len() {
                assert(regions_ops(layout, regions)[i] == a[i]);
            } else {
                assert(regions_ops(layout, regions)[i] == b[i - a.len()]);
            }
        }
        assert forall|k: int| 0 <= k < regions.len() && (#[trigger] regions[k]).kind != DtbMemKind::Reserved implies
            regions_ops(layout, regions).contains(seg_op(
                if regions[k].kind == DtbMemKind::Ram { "RAM" } else { "MMIO" },
                VmOpKind::MapRange,
                PTEFlags::KERNEL_RW,
                region_section_spec(layout, regions[k]),
            )) by {
            let x = seg_op(
                if regions[k].kind == DtbMemKind::Ram { "RAM" } else { "MMIO" },
                VmOpKind::MapRange,
                PTEFlags::KERNEL_RW,
                region_section_spec(layout, regions[k]),
            );
            if k < init.len() {
                assert(init[k] == regions[k]);
                assert(a.contains(x));
                let j = choose|j: int| 0 <= j < a.len() && a[j] == x;
                assert(regions_ops(layout, regions)[j] == a[j]);
            } else {
                assert(b[0] == x);
                assert(regions_ops(layout, regions)[a.len() as int] == b[0]);
            }
        }
    }
}

/// Every change `vm_setup` plans carries the permissions of `op_permissions_ok`: the text
/// is read-execute, the read-only data read-only, and the data and bss, RAM and device
/// memory read-write. Each RAM or device region is mapped at its widened linear range
/// with `KERNEL_RW`, the text with `KERNEL_RX`, non-empty read-only data with `KERNEL_RO`
/// and non-empty data and bss with `KERNEL_RW`.
pub proof fn lemma_vm_setup_permissions(
    layout: LinkerLayout,
    regions: Seq<DtbMemRegion>,
    stext: usize,
    text: KernelSection,
    rodata: KernelSection,
    data_bss: KernelSection,
)
    ensures
        forall|i: int| 0 <= i < vm_setup_ops(layout, regions, stext, text, rodata, data_bss).len()
            ==> op_permissions_ok(#[trigger] vm_setup_ops(layout, regions, stext, text, rodata, data_bss)[i]),
        forall|k: int| 0 <= k < regions.len() && (#[trigger] regions[k]).kind == DtbMemKind::Mmio ==>
            vm_setup_ops(layout, regions, stext, text, rodata, data_bss).contains(
                seg_op("MMIO", VmOpKind::MapRange, PTEFlags::KERNEL_RW, region_section_spec(layout, regions[k]))),
        forall|k: int| 0 <= k < regions.len() && (#[trigger] regions[k]).kind == DtbMemKind::Ram ==>
            vm_setup_ops(layout, regions, stext, text, rodata, data_bss).contains(
                seg_op("RAM", VmOpKind::MapRange, PTEFlags::KERNEL_RW, region_section_spec(layout, regions[k]))),
        vm_setup_ops(layout, regions, stext, text, rodata, data_bss).contains(
            seg_op("TEXT", VmOpKind::MapRange, PTEFlags::KERNEL_RX, text)),
        rodata.size > 0 ==> vm_setup_ops(layout, regions, stext, text, rodata, data_bss).contains(
            seg_op("RODATA", VmOpKind::MapRange, PTEFlags::KERNEL_RO, rodata)),
        data_bss.size > 0 ==> vm_setup_ops(layout, regions, stext, text, rodata, data_bss).contains(
            seg_op("DATA_BSS", VmOpKind::MapRange, PTEFlags::KERNEL_RW, data_bss)),
{
    lemma_names_distinct();
    lemma_kernel_flag_bits();
    lemma_regions_ops_permissions(layout, regions);
    let r = regions_ops(layout, regions);
    let sb = match sbi_section_spec(layout, stext) {
        Some(seg) => seq![seg_op("SBI_RESERVED", VmOpKind::UnmapRange, 0, seg)],
        None => Seq::<VmOp>::empty(),
    };
    let t = section_ops("TEXT", PTEFlags::KERNEL_RX, text, true);
    let ro = section_ops("RODATA", PTEFlags::KERNEL_RO, rodata, false);
    let d = section_ops("DATA_BSS", PTEFlags::KERNEL_RW, data_bss, false);
    let ops = vm_setup_ops(layout, regions, stext, text, rodata, data_bss);
    assert(ops == r + sb + t + ro + d);
    let o1: int = r.len() as int;
    let o2: int = o1 + sb.len();
    let o3: int = o2 + t.len();
    let o4: int = o3 + ro.len();
    assert forall|i: int| 0 <= i < ops.len() implies op_permissions_ok(#[trigger] ops[i]) by {
        if i < o1 {
            assert(ops[i] == r[i]);
        } else if i < o2 {
            assert(ops[i] == sb[i - o1]);
        } else if i < o3 {
            assert(ops[i] == t[i - o2]);
        } else if i < o4 {
            assert(ops[i] == ro[i - o3]);
        } else {
            assert(ops[i] == d[i - o4]);
        }
    }
    assert forall|k: int| 0 <= k < regions.len() && (#[trigger] regions[k]).kind != DtbMemKind::Reserved implies
        ops.contains(seg_op(
            if regions[k].kind == DtbMemKind::Ram { "RAM" } else { "MMIO" },
            VmOpKind::MapRange,
            PTEFlags::KERNEL_RW,
            region_section_spec(layout, regions[k]),
        )) by {
        let x = seg_op(
            if regions[k].kind == DtbMemKind::Ram { "RAM" } else { "MMIO" },
            VmOpKind::MapRange,
            PTEFlags::KERNEL_RW,
            region_section_spec(layout, regions[k]),
        );
        assert(r.contains(x));
        let j = choose|j: int| 0 <= j < r.len() && r[j] == x;
        assert(ops[j] == r[j]);
    }
    assert(ops[o2 + 1] == t[1]);
    if rodata.size > 0 {
        assert(ops[o3 + 1] == ro[1]);
    }
    if data_bss.size > 0 {
        assert(ops[o4 + 1] == d[1]);
    }
}

/// Appends the unmapping and remapping of a kernel image section.
fn push_section_ops(name: &'static str, flags: u64, seg: &KernelSection, always: bool, out: &mut Vec<VmOp>)
    requires
        flags & 0xFF == flags,
    ensures
        final(out)@ == old(out)@ + section_ops(name, flags, *seg, always),
{
    if always || seg.size > 0 {
        out.push(unmap_mem_seg(seg, name));
        out.push(map_mem_seg(seg, name, PTEFlags::from_bits_truncate(flags)));
        assert(final(out)@ =~= old(out)@ + section_ops(name, flags, *seg, always));
    } else {
        assert(final(out)@ =~= old(out)@ + section_ops(name, flags, *seg, always));
    }
}

/// The changes that set up the kernel page table: each memory region of `regions` mapped
/// at its linear address (2 MiB aligned), the firmware range below the text at `stext`
/// unmapped, and the kernel image sections remapped with their permissions; with the
/// `satp` value that switches to the table whose root the caller allocated at `root_pa`.
pub fn vm_setup(
    layout: &LinkerLayout,
    regions: &Vec<DtbMemRegion>,
    stext: usize,
    text: &KernelSection,
    rodata: &KernelSection,
    data_bss: &KernelSection,
    root_pa: usize,
) -> (r: (Vec<VmOp>, usize))
    requires
        usize::BITS == 64,
        layout.wf(),
        forall|i: int| 0 <= i < regions@.len() ==> region_fits(*layout, #[trigger] regions@[i]),
        sbi_fits(*layout, stext),
    ensures
        r.0@ == vm_setup_ops(*layout, regions@, stext, *text, *rodata, *data_bss),
        r.1 == satp_value_spec(SATP_MODE, root_pa),
{
    let mut out: Vec<VmOp> = Vec::new();
    let mut i: usize = 0;
    while i < regions.len()
        invariant
            i <= regions@.len(),
            layout.wf(),
            forall|k: int| 0 <= k < regions@.len() ==> region_fits(*layout, #[trigger] regions@[k]),
            out@ == regions_ops(*layout, regions@.take(i as int)),
        decreases regions@.len() - i,
    {
        let region = &regions[i];
        proof {
            assert(regions@.take(i + 1).drop_last() =~= regions@.take(i as int));
            assert(regions@.take(i + 1).last() == regions@[i as int]);
        }
        match region_mapping(region.kind) {
            Some((name, flags)) => {
                let seg = region_section(layout, region);
                out.push(map_mem_seg(&seg, name, flags));
                assert(out@ =~= regions_ops(*layout, regions@.take(i + 1)));
            },
            None => {
                assert(out@ =~= regions_ops(*layout, regions@.take(i + 1)));
            },
        }
        i = i + 1;
    }
    proof {
        assert(regions@.take(regions@.len() as int) =~= regions@);
    }
    let ghost ram = out@;
    match sbi_reserved_section(layout, stext) {
        Some(seg) => out.push(unmap_mem_seg(&seg, "SBI_RESERVED")),
        None => {},
    }
    let ghost with_sbi = out@;
    assert(PTEFlags::KERNEL_RX & 0xFF == PTEFlags::KERNEL_RX && PTEFlags::KERNEL_RO & 0xFF == PTEFlags::KERNEL_RO
        && PTEFlags::KERNEL_RW & 0xFF == PTEFlags::KERNEL_RW) by (bit_vector);
    push_section_ops("TEXT", PTEFlags::KERNEL_RX, text, true, &mut out);
    push_section_ops("RODATA", PTEFlags::KERNEL_RO, rodata, false, &mut out);
    push_section_ops("DATA_BSS", PTEFlags::KERNEL_RW, data_bss, false, &mut out);
    assert(out@ =~= vm_setup_ops(*layout, regions@, stext, *text, *rodata, *data_bss));
    (out, satp_value(SATP_MODE, root_pa))
}

/// The `satp` value selecting paging mode `mode` with the root table at `root_pa`.
pub open spec fn satp_value_spec(mode: usize, root_pa: usize) -> usize {
    (mode << 60usize) | (root_pa >> 12usize)
}

/// The `satp` value selecting paging mode `mode` with the root table at `root_pa`.
pub fn satp_value(mode: usize, root_pa: usize) -> (r: usize)
    requires
        usize::BITS == 64,
    ensures
        r == satp_value_spec(mode, root_pa),
{
    (mode << 60usize) | (root_pa >> 12usize)
}

/// The fields of a `satp` value built for a page-aligned root below 2^56 and a 4-bit mode
/// read back as that mode and the root's page number.
pub proof fn lemma_satp_fields(mode: usize, root_pa: usize)
    requires
        usize::BITS == 64,
        mode < 16,
        (root_pa as u64) < 0x0100_0000_0000_0000u64,
    ensures
        satp_value_spec(mode, root_pa) >> 60usize == mode,
        (satp_value_spec(mode, root_pa) as u64) & 0xFFF_FFFF_FFFFu64 == (root_pa >> 12usize) as u64,
{
    assert(usize::BITS == 64 && mode < 16usize && (root_pa as u64) < 0x0100_0000_0000_0000u64 ==> ((mode << 60usize) | (root_pa >> 12usize)) >> 60usize == mode) by (bit_vector);
    assert(usize::BITS == 64 && mode < 16usize && (root_pa as u64) < 0x0100_0000_0000_0000u64 ==> (((mode << 60usize) | (root_pa >> 12usize)) as u64) & 0xFFF_FFFF_FFFFu64 == (root_pa >> 12usize) as u64) by (bit_vector);
}

} // verus!
