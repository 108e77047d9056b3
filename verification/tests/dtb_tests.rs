use rvkernel::libs::dtb::Dtb;
use rvkernel::libs::dtb::DtbCpu;
use rvkernel::libs::dtb::DtbMemKind;
use rvkernel::libs::dtb::DtbMemRegion;

const BEGIN_NODE: u32 = 1;
const END_NODE: u32 = 2;
const PROP: u32 = 3;
const END: u32 = 9;

struct Builder {
    structs: Vec<u8>,
    strings: Vec<u8>,
}

impl Builder {
    fn new() -> Self {
        Builder { structs: Vec::new(), strings: Vec::new() }
    }

    fn word(&mut self, w: u32) {
        self.structs.extend_from_slice(&w.to_be_bytes());
    }

    fn pad(&mut self) {
        while self.structs.len() % 4 != 0 {
            self.structs.push(0);
        }
    }

    fn begin(&mut self, name: &str) {
        self.word(BEGIN_NODE);
        self.structs.extend_from_slice(name.as_bytes());
        self.structs.push(0);
        self.pad();
    }

    fn end(&mut self) {
        self.word(END_NODE);
    }

    fn prop(&mut self, name: &str, value: &[u8]) {
        let off = self.strings.len() as u32;
        self.strings.extend_from_slice(name.as_bytes());
        self.strings.push(0);
        self.word(PROP);
        self.word(value.len() as u32);
        self.word(off);
        self.structs.extend_from_slice(value);
        self.pad();
    }

    fn prop_u32(&mut self, name: &str, v: u32) {
        self.prop(name, &v.to_be_bytes());
    }

    fn finish(mut self) -> Vec<u8> {
        self.word(END);
        let off_struct = 40 + 16;
        let off_strings = off_struct + self.structs.len();
        let total = off_strings + self.strings.len();
        let mut out = Vec::new();
        for w in [
            0xd00dfeedu32,
            total as u32,
            off_struct as u32,
            off_strings as u32,
            40,
            17,
            16,
            0,
            self.strings.len() as u32,
            self.structs.len() as u32,
        ] {
            out.extend_from_slice(&w.to_be_bytes());
        }
        out.extend_from_slice(&[0u8; 16]);
        out.extend_from_slice(&self.structs);
        out.extend_from_slice(&self.strings);
        out
    }
}

fn sample_blob() -> Vec<u8> {
    let mut b = Builder::new();
    b.begin("");
    b.prop_u32("#address-cells", 2);
    b.prop_u32("#size-cells", 2);
    b.begin("cpus");
    b.prop_u32("#address-cells", 1);
    b.prop_u32("#size-cells", 0);
    b.begin("cpu@0");
    b.prop("device_type", b"cpu\0");
    b.prop_u32("reg", 0);
    b.prop("status", b"okay\0");
    b.prop_u32("clock-frequency", 1_000_000_000);
    b.prop_u32("numa-node-id", 0);
    b.end();
    b.begin("cpu@1");
    b.prop("device_type", b"cpu\0");
    b.prop_u32("reg", 1);
    b.prop("status", b"disabled\0");
    b.prop("clock-frequency", &0x1_0000_0002u64.to_be_bytes());
    b.end();
    b.begin("cpu@1a");
    b.prop("device_type", b"cpu\0");
    b.end();
    b.begin("cpu-map");
    b.end();
    b.end();
    b.begin("memory@80000000");
    b.prop("device_type", b"memory\0");
    let mut reg = Vec::new();
    for v in [0x8000_0000u64, 0x800_0000, 0x1_0000_0000, 0x4000_0000] {
        reg.extend_from_slice(&v.to_be_bytes());
    }
    b.prop("reg", &reg);
    b.prop_u32("numa-node-id", 1);
    b.end();
    b.begin("memory@200000000");
    b.prop("device_type", b"memory\0");
    b.end();
    b.end();
    b.finish()
}

#[test]
fn parses_cpus_in_order() {
    let blob = sample_blob();
    let dtb = Dtb::new(&blob).unwrap();
    assert!(dtb.structure_ok());
    let cpus = dtb.for_each_cpu();
    assert_eq!(
        cpus,
        vec![
            DtbCpu { id: 0, numa_id: Some(0), freq: Some(1_000_000_000), enabled: true },
            DtbCpu { id: 1, numa_id: None, freq: Some(0x1_0000_0002), enabled: false },
            DtbCpu { id: 0x1a, numa_id: None, freq: None, enabled: true },
        ]
    );
    assert_eq!(dtb.cpu_count(), 3);
}

#[test]
fn parses_memory_regions() {
    let blob = sample_blob();
    let dtb = Dtb::new(&blob).unwrap();
    let mem = dtb.for_each_mem();
    assert_eq!(
        mem,
        vec![
            DtbMemRegion { base: 0x8000_0000, size: 0x800_0000, numa_id: Some(1), kind: DtbMemKind::Ram, hotpluggable: false },
            DtbMemRegion { base: 0x1_0000_0000, size: 0x4000_0000, numa_id: Some(1), kind: DtbMemKind::Ram, hotpluggable: false },
        ]
    );
}

#[test]
fn total_size_is_header_size() {
    let blob = sample_blob();
    let dtb = Dtb::new(&blob).unwrap();
    assert_eq!(dtb.total_size(), blob.len());
}

#[test]
fn trailing_bytes_ignored() {
    let mut blob = sample_blob();
    let n = blob.len();
    blob.extend_from_slice(&[0xffu8; 64]);
    let dtb = Dtb::new(&blob).unwrap();
    assert_eq!(dtb.total_size(), n);
    assert_eq!(dtb.cpu_count(), 3);
}

#[test]
fn bad_magic_rejected() {
    let mut blob = sample_blob();
    blob[0] = 0xde;
    assert!(Dtb::new(&blob).is_none());
}

#[test]
fn zero_size_rejected() {
    let mut blob = sample_blob();
    blob[4] = 0;
    blob[5] = 0;
    blob[6] = 0;
    blob[7] = 0;
    assert!(Dtb::new(&blob).is_none());
}

#[test]
fn no_cpus_node() {
    let mut b = Builder::new();
    b.begin("");
    b.end();
    let blob = b.finish();
    let dtb = Dtb::new(&blob).unwrap();
    assert!(dtb.for_each_cpu().is_empty());
    assert!(dtb.for_each_mem().is_empty());
}

#[test]
fn malformed_structure_finds_nothing() {
    let mut blob = sample_blob();
    // Cut the closing token of the root node: the structure check fails.
    let off_struct = u32::from_be_bytes([blob[8], blob[9], blob[10], blob[11]]) as usize;
    let size_struct = u32::from_be_bytes([blob[36], blob[37], blob[38], blob[39]]) as usize;
    let end_root = off_struct + size_struct - 8;
    blob[end_root..end_root + 4].copy_from_slice(&7u32.to_be_bytes());
    let dtb = Dtb::new(&blob).unwrap();
    assert!(!dtb.structure_ok());
    assert!(dtb.for_each_cpu().is_empty());
    assert!(dtb.for_each_mem().is_empty());
    assert_eq!(dtb.cpu_count(), 0);
    assert_eq!(dtb.total_size(), blob.len());
}

#[test]
fn property_name_outside_strings_finds_nothing() {
    let mut b = Builder::new();
    b.begin("");
    b.word(PROP);
    b.word(4);
    b.word(1000);
    b.word(0);
    b.end();
    let blob = b.finish();
    let dtb = Dtb::new(&blob).unwrap();
    assert!(!dtb.structure_ok());
    assert!(dtb.for_each_cpu().is_empty());
}

#[test]
fn short_cell_count_finds_nothing() {
    let mut b = Builder::new();
    b.begin("");
    b.prop("#address-cells", &[0, 2]);
    b.end();
    let blob = b.finish();
    let dtb = Dtb::new(&blob).unwrap();
    assert!(!dtb.structure_ok());
    assert!(dtb.for_each_mem().is_empty());
}

#[test]
fn nop_token_accepted_by_new() {
    let mut b = Builder::new();
    b.begin("");
    b.word(4);
    b.end();
    let blob = b.finish();
    let dtb = Dtb::new(&blob).unwrap();
    assert_eq!(dtb.total_size(), blob.len());
    assert!(!dtb.structure_ok());
}
