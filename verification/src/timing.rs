//! Time keeping with the HPET, and the physical mappings of ACPI tables.
use vstd::prelude::*;

verus! {

/// Femtoseconds per second.
pub const FEMPTOSECOND: u64 = 1_000_000_000_000_000;

/// Milliseconds per second.
pub const MILLISECOND: u64 = 1_000;

/// The number of counter ticks per millisecond for a tick period given in
/// femtoseconds.
pub open spec fn ticks_per_ms(tick_period: u64) -> int {
    (FEMPTOSECOND / MILLISECOND) as int / tick_period as int
}

/// Milliseconds since the HPET started, from its main counter and its tick
/// period. The period must leave at least one tick per millisecond.
pub fn get_uptime(counter: u64, tick_period: u64) -> (ms: u64)
    requires
        tick_period > 0,
        ticks_per_ms(tick_period) > 0,
    ensures
        ms == counter as int / ticks_per_ms(tick_period),
{
    counter / (FEMPTOSECOND / MILLISECOND / tick_period)
}

/// The uptime at which a sleep of `time` milliseconds started at `now` ends.
pub fn sleep_deadline(now: u64, time: u64) -> (end: u64)
    requires
        now + time <= u64::MAX,
    ensures
        end == now + time,
{
    now + time
}

/// Whether a sleep that ends at `end` is still going at `now`.
pub fn still_sleeping(end: u64, now: u64) -> (b: bool)
    ensures
        b == (end > now),
{
    end > now
}

/// The HPET capabilities register: revision, timer count, 64-bit and legacy
/// capabilities, vendor, and the counter's tick period in femtoseconds.
#[derive(Clone, Copy, Debug, PartialEq, Eq, Structural)]
pub struct CapabilitiesIDRegister {
    pub rev_id: u8,
    pub timer_cnt: u8,
    pub can_64_bit: bool,
    pub legacy_replacement_cap: bool,
    pub vendor_id: u16,
    pub counter_tick_period: u32,
}

impl CapabilitiesIDRegister {
    /// Decodes the register: bits 0-7 revision, 8-12 timer count, 13 64-bit
    /// capable, 15 legacy replacement capable, 16-31 vendor, 32-63 period.
    pub fn from_bits(x: u64) -> (r: Self)
        ensures
            r.rev_id == x % 256,
            r.timer_cnt == (x / 256) % 32,
            r.can_64_bit == ((x / 8192) % 2 == 1),
            r.legacy_replacement_cap == ((x / 32768) % 2 == 1),
            r.vendor_id == (x / 65536) % 65536,
            r.counter_tick_period == x / 4294967296,
    {
        assert((x & 0xFF) == x % 256 && ((x >> 8u64) & 0x1F) == (x / 256) % 32 && (((x
            >> 13u64) & 1) == 1) == ((x / 8192) % 2 == 1) && (((x >> 15u64) & 1) == 1) == ((x
            / 32768) % 2 == 1) && ((x >> 16u64) & 0xFFFF) == (x / 65536) % 65536 && (x >> 32u64)
            == x / 4294967296 && (x >> 32u64) <= 0xFFFF_FFFFu64) by (bit_vector);
        CapabilitiesIDRegister {
            rev_id: (x & 0xFF) as u8,
            timer_cnt: ((x >> 8) & 0x1F) as u8,
            can_64_bit: (x >> 13) & 1 == 1,
            legacy_replacement_cap: (x >> 15) & 1 == 1,
            vendor_id: ((x >> 16) & 0xFFFF) as u16,
            counter_tick_period: (x >> 32) as u32,
        }
    }
}

/// The page-aligned region that maps `size` bytes at physical address
/// `physical_address`: its first page, its length in bytes, and the
/// offset of the requested address within the first page.
#[derive(Clone, Copy, Debug, PartialEq, Eq, Structural)]
pub struct PhysicalRegion {
    pub base: usize,
    pub mapped_size: usize,
    pub offset: usize,
}

/// The pages covering a physical range, as the ACPI handler maps them.
pub fn physical_region(physical_address: usize, size: usize) -> (r: PhysicalRegion)
    requires
        physical_address + size + 0xFFF <= usize::MAX,
    ensures
        r.base == physical_address - physical_address % 4096,
        r.offset == physical_address % 4096,
        r.base + r.mapped_size == (physical_address + size + 4095) / 4096 * 4096,
        r.base <= physical_address,
        physical_address + size <= r.base + r.mapped_size,
        r.base % 4096 == 0,
        r.mapped_size % 4096 == 0,
{
    let pa = physical_address;
    let top = physical_address + size + 0xFFF;
    let base = physical_address & !0xFFF;
    let end = top & !0xFFF;
    assert(pa & !0xFFFusize == pa - pa % 4096) by (bit_vector);
    assert(top & !0xFFFusize == top / 4096 * 4096) by (bit_vector);
    assert(pa & 0xFFFusize == pa % 4096) by (bit_vector);
    PhysicalRegion { base, mapped_size: end - base, offset: physical_address & 0xFFF }
}

} // verus!
