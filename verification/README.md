# fioxa

The decision-making core of the Fioxa hobby operating system, written in
Verus: every function in `src/` carries a `requires`/`ensures` contract that
Verus proves, and the laws that tie several functions together stand there
as public proof functions (`lemma_*`).

## Layout

- `src/` — the verified library, one module per subsystem:
  - input: `keys`, `scancode` (PS/2 scan code set 2), `us_keyboard`
    (key to character), `console` (keyboard decoder), `ps2` (controller
    setup and command replies);
  - storage: `mbr`, `fat`, `fat_dir`, `fat_file`, `kfat` (the kernel's own
    FAT reader), `ahci`, `bytes`, `text`;
  - kernel: `slab` (allocator), `channel`, `event` (edge/level events and
    queues), `interrupts`, `madt`, `paging`, `memmap` (carving pages out of
    the firmware memory map), `elf_load`, `ap_boot`, `timing`, `pcnet`;
  - boot and host: `boot`, `font` (PSF1), `builder`, `calc`, `terminal`.
- `tests/` — ordinary Rust tests run against the compiled library.
- `app/` — the input and output around the library: the build tool's
  `main` (cargo, QEMU, files), the calculator's and terminal's standard
  input and output, the firmware calls of the bootloader, and serde copies
  of the event types.

Calls into outside crates (`bit_field`, `elf`, `x86_64`, `numeric-sort`,
`hashbrown`) and a few standard-library string functions go through small
`#[verifier::external_body]` wrappers whose doc comments say what their
contracts claim.
