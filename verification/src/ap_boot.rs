//! Starting the other processor cores: which cores are started, the
//! interrupt commands that start them, and where the startup code finds its
//! parameters.
use vstd::prelude::*;

verus! {

/// The physical page the startup code runs from.
pub const TRAMPOLINE_BASE: u64 = 0x8000;

/// The interrupt command that sends INIT.
pub const INIT_IPI: u32 = 0x4500;

/// The interrupt command that sends STARTUP at page 8 (0800:0000).
pub const STARTUP_IPI: u32 = 0x4608;

/// The space each core's kernel memory takes.
pub const PER_CPU_STRIDE: u64 = 0x100_0000;

/// The local APIC id of the boot core, from `cpuid` leaf 1: the top byte of
/// `ebx`.
pub fn bsp_apic_id(ebx: u32) -> (id: u8)
    ensures
        id == ebx / 0x100_0000,
{
    let v = ebx >> 24;
    assert(ebx >> 24 == ebx / 0x100_0000) by (bit_vector);
    v as u8
}

/// The cores to start: every core of the MADT but the boot core, in order.
pub fn cores_to_boot(lapic_ids: &Vec<u8>, bsp: u8) -> (v: Vec<u8>)
    ensures
        v@ == lapic_ids@.filter(|id: u8| id != bsp),
{
    let mut v: Vec<u8> = Vec::new();
    let mut i: usize = 0;
    while i < lapic_ids.len()
        invariant
            i <= lapic_ids@.len(),
            v@ == lapic_ids@.take(i as int).filter(|id: u8| id != bsp),
        decreases lapic_ids.len() - i,
    {
        reveal(Seq::filter);
        assert(lapic_ids@.take(i + 1).drop_last() =~= lapic_ids@.take(i as int));
        if lapic_ids[i] != bsp {
            v.push(lapic_ids[i]);
        }
        i += 1;
    }
    assert(lapic_ids@.take(lapic_ids@.len() as int) =~= lapic_ids@);
    v
}

/// The value that selects a core in the interrupt command register's high
/// half: its id in the top byte.
pub fn ipi_select(id: u8) -> (v: u32)
    ensures
        v == id as u32 * 0x100_0000,
{
    let x = id as u32;
    assert(x < 256 ==> x << 24 == x * 0x100_0000) by (bit_vector);
    x << 24
}

/// Whether the last interrupt command is still being delivered (bit 12).
pub fn ipi_pending(icr_low: u32) -> (b: bool)
    ensures
        b == ((icr_low / 0x1000) % 2 == 1),
{
    assert(icr_low & 0x1000 != 0 <==> (icr_low / 0x1000) % 2 == 1) by (bit_vector);
    icr_low & 0x1000 != 0
}

/// Where the startup code finds what the boot core leaves it, right after
/// the code: the flag that the boot core is done, the count of running
/// cores, the page-table root, the address to jump to, and then one slot per
/// core id for its local storage.
#[derive(Clone, Copy, Debug, PartialEq, Eq, Structural)]
pub struct TrampolineSlots {
    pub bsp_done: u64,
    pub ap_running: u64,
    pub cr3: u64,
    pub entry: u64,
    pub local_storage: u64,
}

/// The parameter slots after startup code of `code_len` bytes.
pub fn trampoline_slots(code_len: u64) -> (s: TrampolineSlots)
    requires
        code_len <= 0x1000,
    ensures
        s.bsp_done == TRAMPOLINE_BASE + code_len,
        s.ap_running == s.bsp_done + 4,
        s.cr3 == s.bsp_done + 8,
        s.entry == s.bsp_done + 16,
        s.local_storage == s.bsp_done + 24,
{
    let end = TRAMPOLINE_BASE + code_len;
    TrampolineSlots {
        bsp_done: end,
        ap_running: end + 4,
        cr3: end + 8,
        entry: end + 16,
        local_storage: end + 24,
    }
}

/// The slot of a core's local storage.
pub fn local_storage_slot(slots: &TrampolineSlots, id: u8) -> (a: u64)
    requires
        slots.local_storage <= 0x10000,
    ensures
        a == slots.local_storage + id * 8,
{
    slots.local_storage + id as u64 * 8
}

/// Where a started core finds its descriptor table: one page into its
/// share of the per-core memory.
pub fn ap_gdt_address(per_cpu_base: u64, core_id: u32) -> (a: Option<u64>)
    ensures
        per_cpu_base + core_id * PER_CPU_STRIDE + 0x1000 <= u64::MAX ==> a == Some(
            (per_cpu_base + core_id * PER_CPU_STRIDE + 0x1000) as u64,
        ),
        per_cpu_base + core_id * PER_CPU_STRIDE + 0x1000 > u64::MAX ==> a is None,
{
    let off = core_id as u64 * PER_CPU_STRIDE;
    match per_cpu_base.checked_add(off) {
        None => None,
        Some(b) => b.checked_add(0x1000),
    }
}

/// Whether every core has started: the running count has reached the
/// number of cores.
pub fn all_cores_running(running: u32, n_cores: usize) -> (b: bool)
    ensures
        b == (running == n_cores),
{
    running as usize == n_cores
}

} // verus!
