use rvkernel::arch::riscv64::boot::linker::LinkerLayout;
use rvkernel::arch::riscv64::mm::init::bootmem_reserved_range;
use rvkernel::arch::riscv64::mm::init::bootmem_setup;
use rvkernel::arch::riscv64::mm::init::pages_setup;
use rvkernel::arch::riscv64::mm::init::percpu_setup;
use rvkernel::arch::riscv64::cpu::cpu::this_cpu_raw;
use rvkernel::arch::riscv64::cpu::regs::CsrFile;
use rvkernel::arch::riscv64::vm::init::map_mem_seg;
use rvkernel::arch::riscv64::vm::init::unmap_mem_seg;
use rvkernel::arch::riscv64::vm::init::vm_setup;
use rvkernel::arch::riscv64::vm::init::VmOpKind;
use rvkernel::kernel::vm::level::PageLevel;
use rvkernel::arch::riscv64::mm::init::ceil_log2;
use rvkernel::arch::riscv64::mm::init::div_ceil;
use rvkernel::arch::riscv64::vm::init::region_mapping;
use rvkernel::arch::riscv64::vm::init::region_section;
use rvkernel::arch::riscv64::vm::init::satp_value;
use rvkernel::arch::riscv64::vm::init::sbi_reserved_section;
use rvkernel::arch::riscv64::vm::init::KernelSection;
use rvkernel::arch::riscv64::vm::pte::PTEFlags;
use rvkernel::cpu::numa::cpu_node_map_setup;
use rvkernel::cpu::numa::CpuNodeMap;
use rvkernel::cpu::numa::NId;
use rvkernel::cpu::CpuId;
use rvkernel::drivers::sbi::console_write;
use rvkernel::drivers::sbi::put_char;
use rvkernel::drivers::sbi::shutdown;
use rvkernel::drivers::sbi::PutStr;
use rvkernel::drivers::sbi::PutStrAction;
use rvkernel::drivers::sbi::SbiRet;
use rvkernel::drivers::sbi::EID_DBCN;
use rvkernel::drivers::sbi::EID_SRST;
use rvkernel::libs::dtb::cpu::cpu_from_node;
use rvkernel::libs::dtb::cpu::is_cpu_name;
use rvkernel::libs::dtb::cpu::is_node_enabled;
use rvkernel::libs::dtb::cpu::read_clock_freq;
use rvkernel::libs::dtb::cpu::read_cpu_id;
use rvkernel::libs::dtb::numa::read_numa_id;
use rvkernel::libs::dtb::props::parse_hex_usize;
use rvkernel::libs::dtb::props::prop_u32;
use rvkernel::libs::dtb::DtbCpu;
use rvkernel::libs::dtb::DtbMemKind;
use rvkernel::libs::dtb::DtbMemRegion;
use rvkernel::libs::endian::read_be_u32_at;
use rvkernel::libs::endian::read_le_u32_at;
use rvkernel::libs::error::KErr;
use rvkernel::libs::error::KErrNo;
use rvkernel::libs::unsafe_static::UnsafeStatic;
use rvkernel::mm::addr::align_down;
use rvkernel::mm::addr::align_up;
use rvkernel::mm::addr::PhysAddr;

fn qemu_layout() -> LinkerLayout {
    LinkerLayout {
        kernel_vma_base: 0xffff_ffc0_8020_0000,
        kernel_lma_base: 0x8020_0000,
        physical_base: 0x8000_0000,
    }
}

#[test]
fn hex_parsing_follows_from_str_radix() {
    assert_eq!(parse_hex_usize(b"1f"), Some(0x1f));
    assert_eq!(parse_hex_usize(b"+1F"), Some(0x1f));
    assert_eq!(parse_hex_usize(b"ffffffffffffffff"), Some(usize::MAX));
    assert_eq!(parse_hex_usize(b"10000000000000000"), None);
    assert_eq!(parse_hex_usize(b""), None);
    assert_eq!(parse_hex_usize(b"+"), None);
    assert_eq!(parse_hex_usize(b"-1"), None);
    assert_eq!(parse_hex_usize(b"1g"), None);
    for s in ["0", "7", "abc", "+DEAD", "00ff"] {
        assert_eq!(parse_hex_usize(s.as_bytes()), usize::from_str_radix(s, 16).ok());
    }
}

#[test]
fn u32_properties() {
    assert_eq!(prop_u32(Some(&[0, 0, 1, 2])), Some(0x102));
    assert_eq!(prop_u32(Some(&[0, 0, 1, 2, 9, 9])), Some(0x102));
    assert_eq!(prop_u32(Some(&[0, 1, 2])), None);
    assert_eq!(prop_u32(None), None);
    assert_eq!(read_numa_id(Some(&[0, 0, 0, 3])), Some(3));
    assert_eq!(read_numa_id(None), None);
}

#[test]
fn cpu_ids() {
    assert_eq!(read_cpu_id(Some(7), b"cpu@1"), Some(7));
    assert_eq!(read_cpu_id(None, b"cpu@1f"), Some(0x1f));
    assert_eq!(read_cpu_id(None, b"cpu@2@3"), Some(2));
    assert_eq!(read_cpu_id(None, b"cpu"), None);
    assert_eq!(read_cpu_id(None, b"cpu@"), None);
    assert_eq!(read_cpu_id(None, b"cpu@zz"), None);
}

#[test]
fn cpu_names() {
    assert!(is_cpu_name(b"cpu"));
    assert!(is_cpu_name(b"cpu@0"));
    assert!(!is_cpu_name(b"cpu-map"));
    assert!(!is_cpu_name(b"cpus"));
    assert!(!is_cpu_name(b""));
}

#[test]
fn clock_frequency() {
    assert_eq!(read_clock_freq(Some(&[0x3b, 0x9a, 0xca, 0x00])), Some(1_000_000_000));
    assert_eq!(read_clock_freq(Some(&[0, 0, 0, 1, 0, 0, 0, 2])), Some(0x1_0000_0002));
    assert_eq!(read_clock_freq(Some(&[1, 2])), None);
    assert_eq!(read_clock_freq(None), None);
}

#[test]
fn status_values() {
    assert!(is_node_enabled(None));
    assert!(is_node_enabled(Some(b"okay\0")));
    assert!(is_node_enabled(Some(b"ok")));
    assert!(is_node_enabled(Some(b"ok\0\0")));
    assert!(!is_node_enabled(Some(b"disabled\0")));
    assert!(!is_node_enabled(Some(b"")));
    assert!(is_node_enabled(Some(&[0xff, 0xfe])));
}

#[test]
fn cpu_from_node_fields() {
    let c = cpu_from_node(b"cpu@3", None, Some(&[0, 0, 0, 1]), Some(&[0, 0, 0, 10]), Some(b"okay"));
    assert_eq!(c, Some(DtbCpu { id: 3, numa_id: Some(1), freq: Some(10), enabled: true }));
    assert_eq!(cpu_from_node(b"cpu-map", Some(0), None, None, None), None);
    assert_eq!(cpu_from_node(b"cpu", None, None, None, None), None);
}

#[test]
fn endian_reads() {
    let b = [0x12u8, 0x34, 0x56, 0x78, 0x9a];
    assert_eq!(read_be_u32_at(&b, 0), 0x1234_5678);
    assert_eq!(read_be_u32_at(&b, 1), 0x3456_789a);
    assert_eq!(read_le_u32_at(&b, 0), 0x7856_3412);
}

#[test]
fn error_numbers() {
    assert_eq!(KErrNo::EPERM.as_isize(), -1);
    assert_eq!(KErrNo::EAGAIN.as_isize(), -11);
    assert_eq!(KErrNo::EINVAL.as_isize(), -22);
    assert_eq!(KErrNo::EROFS.as_isize(), -30);
    let e = KErr::new(KErrNo::ENOMEM, "out of memory");
    assert_eq!(e.errno(), -12);
    assert_eq!(e.msg, "out of memory");
}

#[test]
fn sbi_requests() {
    let c = console_write(5, PhysAddr::new(0x8020_0000));
    assert_eq!((c.eid, c.fid, c.args), (EID_DBCN, 0, [5, 0x8020_0000, 0, 0, 0, 0]));
    let c = put_char(b'A');
    assert_eq!((c.eid, c.fid, c.args), (EID_DBCN, 2, [0x41, 0, 0, 0, 0, 0]));
    let c = shutdown(true);
    assert_eq!((c.eid, c.fid, c.args), (EID_SRST, 0, [0, 1, 0, 0, 0, 0]));
    let c = shutdown(false);
    assert_eq!(c.args, [0, 0, 0, 0, 0, 0]);
    assert!(SbiRet { error: 0, value: 1 }.is_ok());
    assert!(SbiRet { error: -2, value: 0 }.is_err());
}

#[test]
fn put_str_progress() {
    let mut p = PutStr::new(0x1000, 10);
    match p.next_call() {
        PutStrAction::Write(c) => assert_eq!(c.args[..2], [10, 0x1000]),
        _ => panic!("expected a write"),
    }
    assert_eq!(p.on_reply(SbiRet { error: 0, value: 4 }), None);
    assert_eq!(p.offset, 4);
    match p.next_call() {
        PutStrAction::Write(c) => assert_eq!(c.args[..2], [6, 0x1004]),
        _ => panic!("expected a write"),
    }
    assert_eq!(p.on_reply(SbiRet { error: -1, value: 0 }), Some(4));
    assert_eq!(p.offset, 4);
    assert_eq!(p.on_reply(SbiRet { error: 0, value: 6 }), None);
    assert!(matches!(p.next_call(), PutStrAction::Done));
    assert_eq!(PutStr::new(0, 3).on_reply(SbiRet { error: 0, value: 0 }), Some(0));
}

#[test]
fn alignment() {
    assert_eq!(align_down(0x1234, 0x1000), 0x1000);
    assert_eq!(align_up(0x1234, 0x1000), 0x2000);
    assert_eq!(align_up(0x2000, 0x1000), 0x2000);
    assert_eq!(PhysAddr::new(0x8020_0123).align_down(0x20_0000).as_usize(), 0x8020_0000);
    assert!(PhysAddr::new(0x3000).is_page_aligned());
    assert_eq!(PhysAddr::new(0x3fff).to_ppn().as_usize(), 3);
}

#[test]
fn log_and_division() {
    assert_eq!(ceil_log2(0), 0);
    assert_eq!(ceil_log2(1), 0);
    assert_eq!(ceil_log2(2), 1);
    assert_eq!(ceil_log2(5), 3);
    assert_eq!(ceil_log2(4096), 12);
    assert_eq!(ceil_log2(usize::MAX), 64);
    assert_eq!(div_ceil(10, 4), 3);
    assert_eq!(div_ceil(8, 4), 2);
    assert_eq!(div_ceil(0, 4), 0);
}

#[test]
fn linear_mapping() {
    let l = qemu_layout();
    assert_eq!(l.offset(), 0xffff_ffc0_0000_0000);
    assert_eq!(l.p2v_linear(0x8000_0000), 0xffff_ffc0_8000_0000);
    assert_eq!(l.v2p_linear(0xffff_ffc0_8020_1000), 0x8020_1000);
    assert_eq!(l.v2p_linear(l.p2v_linear(0x8123_4567)), 0x8123_4567);
}

#[test]
fn vm_sections() {
    let l = qemu_layout();
    let r = DtbMemRegion { base: 0x8010_0000, size: 0x30_0000, numa_id: None, kind: DtbMemKind::Ram, hotpluggable: false };
    let s = region_section(&l, &r);
    assert_eq!(s, KernelSection { pa_start: 0x8000_0000, va_start: 0xffff_ffc0_8000_0000, size: 0x40_0000 });
    assert_eq!(s.page_count(), 0x400);
    let sbi = sbi_reserved_section(&l, 0xffff_ffc0_8020_0000).unwrap();
    assert_eq!(sbi, KernelSection { pa_start: 0x8000_0000, va_start: 0xffff_ffc0_8000_0000, size: 0x20_0000 });
    assert_eq!(sbi_reserved_section(&l, 0xffff_ffc0_8000_0000), None);
    assert_eq!(satp_value(9, 0x8060_0000), (9usize << 60) | 0x80600);
    let (name, flags) = region_mapping(DtbMemKind::Ram).unwrap();
    assert_eq!((name, flags.bits()), ("RAM", PTEFlags::KERNEL_RW));
    assert_eq!(region_mapping(DtbMemKind::Mmio).unwrap().0, "MMIO");
    assert!(region_mapping(DtbMemKind::Reserved).is_none());
}

#[test]
fn reserved_boot_memory() {
    let l = qemu_layout();
    assert_eq!(bootmem_reserved_range(&l, 0x8071_0010), (0x8000_0000, 0x71_1000));
}

#[test]
fn numa_placement() {
    let mut m = CpuNodeMap::new();
    let cpus = vec![
        DtbCpu { id: 0, numa_id: Some(0), freq: None, enabled: true },
        DtbCpu { id: 1, numa_id: Some(1), freq: None, enabled: true },
        DtbCpu { id: 2, numa_id: Some(1), freq: None, enabled: true },
    ];
    cpu_node_map_setup(&mut m, &cpus);
    assert_eq!(m.cpu_to_node[2].get(), 1);
    assert_eq!(m.cpu_to_node[0].get(), 0);
    assert!(m.node_to_cpu[1].test(CpuId::new(1)));
    assert!(m.node_to_cpu[1].test(CpuId::new(2)));
    assert!(!m.node_to_cpu[0].test(CpuId::new(1)));
    assert_eq!(m.node_to_cpu[1].count(), 2);
    m.record(CpuId::new(5), NId::new(3));
    assert_eq!(m.cpu_to_node[5].get(), 3);
}

#[test]
fn static_cell() {
    let mut s: UnsafeStatic<u32> = UnsafeStatic::uninit();
    s.init(4);
    assert_eq!(*s.get(), 4);
    *s.get_mut() = 9;
    assert_eq!(*s.get(), 9);
    assert_eq!(*UnsafeStatic::new(1u8).get(), 1);
}

#[test]
fn vm_setup_plan() {
    let l = qemu_layout();
    let regions = vec![
        DtbMemRegion { base: 0x8000_0000, size: 0x800_0000, numa_id: None, kind: DtbMemKind::Ram, hotpluggable: false },
        DtbMemRegion { base: 0x8800_0000, size: 0x10_0000, numa_id: None, kind: DtbMemKind::Reserved, hotpluggable: false },
        DtbMemRegion { base: 0x1000_0000, size: 0x100, numa_id: None, kind: DtbMemKind::Mmio, hotpluggable: false },
    ];
    let text = KernelSection { pa_start: 0x8020_0000, va_start: 0xffff_ffc0_8020_0000, size: 0x20_0000 };
    let rodata = KernelSection { pa_start: 0x8040_0000, va_start: 0xffff_ffc0_8040_0000, size: 0 };
    let data = KernelSection { pa_start: 0x8040_0000, va_start: 0xffff_ffc0_8040_0000, size: 0x20_0000 };
    let (ops, satp) = vm_setup(&l, &regions, 0xffff_ffc0_8020_0000, &text, &rodata, &data, 0x8100_0000);
    assert_eq!(satp, (9usize << 60) | 0x81000);
    let names: Vec<&str> = ops.iter().map(|o| o.name).collect();
    assert_eq!(names, vec!["RAM", "MMIO", "SBI_RESERVED", "TEXT", "TEXT", "DATA_BSS", "DATA_BSS"]);
    assert_eq!(ops[0].kind, VmOpKind::MapRange);
    assert_eq!((ops[0].vpn, ops[0].ppn, ops[0].pages), (0xffff_ffc0_8000_0, 0x8000_0, 0x8000));
    assert_eq!(ops[0].flags, PTEFlags::KERNEL_RW);
    assert_eq!(ops[0].level, PageLevel::PMD);
    assert_eq!(ops[1].section, KernelSection { pa_start: 0x1000_0000, va_start: 0xffff_ffc0_1000_0000, size: 0x20_0000 });
    assert_eq!(ops[2].kind, VmOpKind::UnmapRange);
    assert_eq!(ops[2].pages, 0x200);
    assert_eq!((ops[3].kind, ops[4].kind), (VmOpKind::UnmapRange, VmOpKind::MapRange));
    assert_eq!(ops[4].flags, PTEFlags::KERNEL_RX);
    assert_eq!(ops[6].flags, PTEFlags::KERNEL_RW);
}

#[test]
fn segment_requests() {
    let seg = KernelSection { pa_start: 0x8020_0000, va_start: 0xffff_ffc0_8020_0000, size: 0x40_0000 };
    let m = map_mem_seg(&seg, "TEXT", PTEFlags::from_bits_truncate(PTEFlags::KERNEL_RX));
    assert_eq!((m.vpn, m.ppn, m.pages, m.flags), (0xffff_ffc0_8020_0, 0x8020_0, 0x400, 0x2B));
    let u = unmap_mem_seg(&seg, "TEXT");
    assert_eq!((u.kind, u.vpn, u.pages, u.flags), (VmOpKind::UnmapRange, 0xffff_ffc0_8020_0, 0x400, 0));
}

#[test]
fn bootmem_regions() {
    let l = qemu_layout();
    let ram = vec![DtbMemRegion { base: 0x8000_0000, size: 0x800_0000, numa_id: Some(0), kind: DtbMemKind::Ram, hotpluggable: false }];
    let r = bootmem_setup(&l, 0x8071_0010, &ram);
    assert_eq!(r.len(), 2);
    assert_eq!(r[0], DtbMemRegion { base: 0x8000_0000, size: 0x71_1000, numa_id: Some(0), kind: DtbMemKind::Reserved, hotpluggable: false });
    assert_eq!(r[1], ram[0]);
    percpu_setup();
    pages_setup();
}

#[test]
fn this_cpu_pointer() {
    let mut c = CsrFile::new();
    rvkernel::arch::riscv64::cpu::cpu::set_this_cpu(&mut c, 0x8030_0040);
    assert_eq!(this_cpu_raw(&c), 0x8030_0040);
}

#[test]
fn errno_doc_example() {
    let err = KErr::new(KErrNo::ENOENT, "file not found");
    assert_eq!(err.errno(), -2);
}

#[test]
fn error_text() {
    let e = KErr::new(KErrNo::ENOMEM, "buddy allocator exhausted");
    assert_eq!(e.describe(), "ENOMEM(-12): buddy allocator exhausted");
    assert_eq!(KErr::new(KErrNo::EPERM, "").describe(), "EPERM(-1): ");
    assert_eq!(KErr::new(KErrNo::EROFS, "ro").describe(), "EROFS(-30): ro");
    assert_eq!(KErrNo::E2BIG.name(), "E2BIG");
    assert_eq!(KErrNo::EINVAL.name(), format!("{:?}", KErrNo::EINVAL));
}

#[test]
fn cpu_id_text() {
    assert_eq!(CpuId::new(3).describe(), "C3");
    assert_eq!(CpuId::new(0).describe(), "C0");
    assert_eq!(CpuId::new(63).describe(), "C63");
}
