# rvkernel

The decision logic of a small RISC-V (riscv64) kernel, verified with Verus, and the
hardware glue that runs it.

- `src/` is the verified library:
  - `arch::riscv64`: page table entries and flags, the Sv39/Sv48 level geometry, the boot
    allocator and the boot page table (identity and linear 1 GiB mappings), the kernel
    page table plan, `satp` values, supervisor registers modelled as a register file,
    interrupt save/restore and the boot memory regions.
  - `kernel`: page levels, page tables and their configuration, CPU masks and their
    iteration, per-CPU data with preemption and interrupt guards.
  - `libs`: device tree reading (a verified structure check, then queries through the
    `fdt` crate), big/little-endian reads,
    error codes, an arena-indexed FIFO queue and a set-once cell.
  - `drivers::sbi`: the SBI requests the kernel makes and the console-write state machine.
  - `build`: reading linker-script constants (through the `regex` crate) and the text of
    the generated Rust and C constant files; assembly source selection and flags.
- `app/` holds what runs on the hart or touches the host: CSR and `ecall` instructions,
  console and logging, the boot entry, kernel start-up, and the build tasks (file I/O and
  the `cc` compile).
- `tests/` exercises the library on concrete values.
