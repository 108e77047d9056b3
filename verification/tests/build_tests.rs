use rvkernel::build::assembly::asm_arch_flags;
use rvkernel::build::assembly::is_asm_extension;
use rvkernel::build::linker::linker_script_path;
use rvkernel::build::linker::read_linker_constants;
use rvkernel::build::linker::render_c_header;
use rvkernel::build::linker::render_rust_consts;
use rvkernel::build::linker::LinkerConst;
use rvkernel::build::linker::LINKER_SYMBOLS;
use rvkernel::build::parse::literal_hex_value;
use rvkernel::build::parse::parse_value;
use rvkernel::build::parse::try_parse_value;

const SCRIPT: &str = "OUTPUT_ARCH(riscv)\n\
ENTRY(_start)\n\
KERNEL_VMA_BASE = 0xffff_ffc0_8020_0000;\n\
KERNEL_LMA_BASE   =   0x80200000 ;\n\
PHYSICAL_BASE = 0x8000_0000;\n\
SECTIONS { . = KERNEL_VMA_BASE; }\n";

#[test]
fn parses_assignments() {
    assert_eq!(try_parse_value(SCRIPT, "KERNEL_VMA_BASE"), Some(0xffff_ffc0_8020_0000));
    assert_eq!(try_parse_value(SCRIPT, "KERNEL_LMA_BASE"), Some(0x8020_0000));
    assert_eq!(parse_value(SCRIPT, "PHYSICAL_BASE"), 0x8000_0000);
}

#[test]
fn missing_or_bad_assignments() {
    assert_eq!(try_parse_value(SCRIPT, "MISSING"), None);
    assert_eq!(try_parse_value("A = 0x1", "A"), None);
    assert_eq!(try_parse_value("A = 12;", "A"), None);
    assert_eq!(try_parse_value("A = 0x1_0000_0000_0000_0000;", "A"), None);
    assert_eq!(try_parse_value("A = 0xAb_c;", "A"), Some(0xabc));
    assert_eq!(try_parse_value("A = 0x1;", "("), None);
}

#[test]
fn reads_all_linker_symbols() {
    let cs = read_linker_constants(SCRIPT, &LINKER_SYMBOLS).unwrap();
    assert_eq!(cs.len(), 3);
    assert_eq!(cs[0].name, "KERNEL_VMA_BASE");
    assert_eq!(cs[0].value, 0xffff_ffc0_8020_0000);
    assert_eq!(cs[1].value, 0x8020_0000);
    assert_eq!(cs[2].value, 0x8000_0000);
    assert!(read_linker_constants("KERNEL_VMA_BASE = 0x1;", &LINKER_SYMBOLS).is_none());
}

#[test]
fn script_path() {
    assert_eq!(linker_script_path("riscv64"), "linker/riscv64.ld");
}

fn sample_consts() -> Vec<LinkerConst> {
    vec![
        LinkerConst { name: "KERNEL_VMA_BASE", value: 0xffff_ffc0_8020_0000 },
        LinkerConst { name: "PHYSICAL_BASE", value: 0x8000_0000 },
    ]
}

#[test]
fn rust_module_text() {
    let out = render_rust_consts("linker/riscv64.ld", &sample_consts());
    let expected = "//! DO NOT EDIT! Generated from `linker/riscv64.ld`.\n\n\
pub const KERNEL_VMA_BASE: usize = 0xFFFFFFC080200000;\n\
pub const PHYSICAL_BASE: usize = 0x80000000;\n";
    assert_eq!(String::from_utf8(out).unwrap(), expected);
    let v: usize = 0xffff_ffc0_8020_0000;
    assert!(expected.contains(&format!("{:#X}", v)));
}

#[test]
fn c_header_text() {
    let out = render_c_header("linker/riscv64.ld", &sample_consts());
    let expected = "/* DO NOT EDIT! Generated from `linker/riscv64.ld` */\n\n\
#ifndef _LINKER_CONST_H_\n\
#define _LINKER_CONST_H_\n\n\
#define KERNEL_VMA_BASE 0xFFFFFFC080200000\n\
#define PHYSICAL_BASE   0x80000000\n\
\n#endif // _LINKER_CONST_H_\n";
    assert_eq!(String::from_utf8(out).unwrap(), expected);
}

#[test]
fn empty_constant_list() {
    let out = render_rust_consts("x", &Vec::new());
    assert_eq!(String::from_utf8(out).unwrap(), "//! DO NOT EDIT! Generated from `x`.\n\n");
}

#[test]
fn assembly_sources() {
    assert!(is_asm_extension("S"));
    assert!(is_asm_extension("s"));
    assert!(is_asm_extension("asm"));
    assert!(!is_asm_extension("rs"));
    assert!(!is_asm_extension(""));
    assert_eq!(asm_arch_flags("riscv64"), vec!["-march=rv64gc_zihintpause", "-mabi=lp64d"]);
    assert!(asm_arch_flags("x86_64").is_empty());
}

#[test]
fn doc_example_value() {
    assert_eq!(try_parse_value("NAME = 0x1234_5678;", "NAME"), Some(0x1234_5678));
}

#[test]
fn captured_literals() {
    assert_eq!(literal_hex_value("0x1234_5678"), Some(0x1234_5678));
    assert_eq!(literal_hex_value("0x_ff"), Some(0xff));
    assert_eq!(literal_hex_value("0x"), None);
    assert_eq!(literal_hex_value("0xzz"), None);
}
