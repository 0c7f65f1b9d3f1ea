//! Verified core logic of the Fioxa operating system: keyboard decoding,
//! FAT and MBR parsing, ACPI MADT parsing, slab allocation, kernel channels,
//! page-table index arithmetic and the small state machines that drive the
//! kernel's devices.
pub mod keys;
pub mod us_keyboard;
pub mod scancode;
pub mod console;
pub mod bytes;
pub mod fat;
pub mod text;
pub mod fat_dir;
pub mod fat_file;
pub mod slab;
pub mod channel;
pub mod bits;
pub mod madt;
pub mod calc;
pub mod mbr;
pub mod paging;
pub mod timing;
pub mod ahci;
pub mod pcnet;
pub mod interrupts;
pub mod terminal;
pub mod memmap;
pub mod elf_load;
pub mod font;
pub mod event;
pub mod builder;
pub mod ap_boot;
pub mod boot;
pub mod kfat;
pub mod ps2;
