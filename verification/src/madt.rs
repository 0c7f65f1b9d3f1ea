//! The ACPI MADT: the list of processors, I/O APICs and interrupt overrides
//! that the firmware describes, and the I/O APIC redirection entries the
//! kernel programs from it.
use vstd::prelude::*;
use crate::bits::{u32_set_bit, with_bit};
use crate::bytes::{read_u16_le, read_u32_le, read_u64_le, seq_le16, seq_le32, seq_le64};

verus! {

/// Size of the MADT's fixed part: the ACPI table header, the local APIC
/// address and the flags.
pub const MADT_HEADER_SIZE: u32 = 44;

/// An I/O APIC record (MADT entry type 1).
#[derive(Clone, Copy, Debug, PartialEq, Eq, Structural)]
pub struct IOApic {
    pub apic_id: u8,
    pub rsv: u8,
    pub apic_addr: u32,
    pub interrupt_base: u32,
}

/// An interrupt source override record (MADT entry type 2).
#[derive(Clone, Copy, Debug, PartialEq, Eq, Structural)]
pub struct ApicInterruptOveride {
    pub bus_source: u8,
    pub irq_source: u8,
    pub interrupt_num: u32,
    pub flags: u16,
}

/// The I/O APIC record whose bytes start at `p`.
pub open spec fn ioapic_at(t: Seq<u8>, p: int) -> IOApic {
    IOApic {
        apic_id: t[p],
        rsv: t[p + 1],
        apic_addr: seq_le32(t, p + 2),
        interrupt_base: seq_le32(t, p + 6),
    }
}

/// The override record whose bytes start at `p`.
pub open spec fn override_at(t: Seq<u8>, p: int) -> ApicInterruptOveride {
    ApicInterruptOveride {
        bus_source: t[p],
        irq_source: t[p + 1],
        interrupt_num: seq_le32(t, p + 2),
        flags: seq_le16(t, p + 6),
    }
}

/// The number of bytes past an entry's start that the parser reads for its type.
pub open spec fn entry_reach(kind: u8) -> int {
    if kind == 0 {
        5
    } else if kind == 1 {
        12
    } else if kind == 2 {
        10
    } else if kind == 5 {
        12
    } else {
        2
    }
}

/// Whether the entries from `p`, with `left` bytes of the table remaining,
/// can be walked: each entry's length is nonzero and within what remains,
/// and the bytes the parser reads lie within the table.
pub open spec fn entries_walkable(t: Seq<u8>, p: int, left: int) -> bool
    decreases left,
{
    if left <= 0 {
        left == 0
    } else {
        &&& p >= 0
        &&& p + 2 <= t.len()
        &&& p + entry_reach(t[p]) <= t.len()
        &&& 0 < t[p + 1] <= left
        &&& entries_walkable(t, p + t[p + 1], left - t[p + 1])
    }
}

/// Whether a processor entry at `p` is enabled, with an id of at most 8.
pub open spec fn usable_processor(t: Seq<u8>, p: int) -> bool {
    t[p] == 0 && t[p + 4] & 1 > 0 && t[p + 3] <= 8
}

/// The APIC ids of the usable processors, in table order.
pub open spec fn lapic_ids_from(t: Seq<u8>, p: int, left: int) -> Seq<u8>
    decreases left,
{
    if left <= 0 || p + 2 > t.len() || t[p + 1] == 0 || t[p + 1] > left {
        Seq::empty()
    } else {
        let rest = lapic_ids_from(t, p + t[p + 1], left - t[p + 1]);
        if usable_processor(t, p) {
            seq![t[p + 3]] + rest
        } else {
            rest
        }
    }
}

/// The I/O APIC records, in table order.
pub open spec fn ioapics_from(t: Seq<u8>, p: int, left: int) -> Seq<IOApic>
    decreases left,
{
    if left <= 0 || p + 2 > t.len() || t[p + 1] == 0 || t[p + 1] > left {
        Seq::empty()
    } else {
        let rest = ioapics_from(t, p + t[p + 1], left - t[p + 1]);
        if t[p] == 1 {
            seq![ioapic_at(t, p + 2)] + rest
        } else {
            rest
        }
    }
}

/// The interrupt source overrides, in table order.
pub open spec fn overrides_from(t: Seq<u8>, p: int, left: int) -> Seq<ApicInterruptOveride>
    decreases left,
{
    if left <= 0 || p + 2 > t.len() || t[p + 1] == 0 || t[p + 1] > left {
        Seq::empty()
    } else {
        let rest = overrides_from(t, p + t[p + 1], left - t[p + 1]);
        if t[p] == 2 {
            seq![override_at(t, p + 2)] + rest
        } else {
            rest
        }
    }
}

/// The local APIC address: that of the last address-override entry (type
/// 5), or `default` when there is none.
pub open spec fn lapic_addr_from(t: Seq<u8>, p: int, left: int, default: u64) -> u64
    decreases left,
{
    if left <= 0 || p + 2 > t.len() || t[p + 1] == 0 || t[p + 1] > left {
        default
    } else {
        let here = if t[p] == 5 {
            seq_le64(t, p + 4)
        } else {
            default
        };
        lapic_addr_from(t, p + t[p + 1], left - t[p + 1], here)
    }
}

/// The fixed part of a MADT.
#[derive(Clone, Copy, Debug, PartialEq, Eq, Structural)]
pub struct Madt {
    pub length: u32,
    pub local_apic_address: u32,
    pub flags: u32,
}

impl Madt {
    /// Whether the table `t`, of which this is the fixed part, can be
    /// walked entry by entry.
    pub open spec fn walkable(&self, t: Seq<u8>) -> bool {
        &&& self.length >= MADT_HEADER_SIZE
        &&& self.length <= t.len()
        &&& entries_walkable(t, MADT_HEADER_SIZE as int, self.length - MADT_HEADER_SIZE)
    }

    /// Reads the fixed part from the table's bytes.
    pub fn from_bytes(t: &[u8]) -> (m: Self)
        requires
            t@.len() >= MADT_HEADER_SIZE,
        ensures
            m.length == seq_le32(t@, 4),
            m.local_apic_address == seq_le32(t@, 36),
            m.flags == seq_le32(t@, 40),
    {
        Madt {
            length: read_u32_le(t, 4),
            local_apic_address: read_u32_le(t, 36),
            flags: read_u32_le(t, 40),
        }
    }

    /// The APIC ids of the enabled processors with ids up to 8.
    pub fn get_lapid_ids(&self, t: &[u8]) -> (ids: Vec<u8>)
        requires
            self.walkable(t@),
        ensures
            ids@ == lapic_ids_from(t@, MADT_HEADER_SIZE as int, self.length - MADT_HEADER_SIZE),
    {
        let (_, ids, _, _) = self.find_ioapic(t);
        ids
    }

    /// Walks the entries: returns the local APIC address, the usable
    /// processors' APIC ids, the I/O APICs and the interrupt overrides.
    pub fn find_ioapic(&self, t: &[u8]) -> (r: (u64, Vec<u8>, Vec<IOApic>, Vec<ApicInterruptOveride>))
        requires
            self.walkable(t@),
        ensures
            ({
                let p = MADT_HEADER_SIZE as int;
                let left = self.length - MADT_HEADER_SIZE;
                &&& r.0 == lapic_addr_from(t@, p, left, self.local_apic_address as u64)
                &&& r.1@ == lapic_ids_from(t@, p, left)
                &&& r.2@ == ioapics_from(t@, p, left)
                &&& r.3@ == overrides_from(t@, p, left)
            }),
    {
        let ghost p0 = MADT_HEADER_SIZE as int;
        let ghost left0 = self.length - MADT_HEADER_SIZE;
        let mut p: usize = MADT_HEADER_SIZE as usize;
        let mut length_left: u32 = self.length - MADT_HEADER_SIZE;
        let mut lapic_ids: Vec<u8> = Vec::new();
        let mut io_apics: Vec<IOApic> = Vec::new();
        let mut apic_overide: Vec<ApicInterruptOveride> = Vec::new();
        let mut lapic_addr = self.local_apic_address as u64;
        while length_left > 0
            invariant
                entries_walkable(t@, p as int, length_left as int),
                p + length_left == self.length,
                self.length <= t@.len(),
                lapic_ids@ + lapic_ids_from(t@, p as int, length_left as int) == lapic_ids_from(
                    t@,
                    p0,
                    left0,
                ),
                io_apics@ + ioapics_from(t@, p as int, length_left as int) == ioapics_from(
                    t@,
                    p0,
                    left0,
                ),
                apic_overide@ + overrides_from(t@, p as int, length_left as int) == overrides_from(
                    t@,
                    p0,
                    left0,
                ),
                lapic_addr_from(t@, p as int, length_left as int, lapic_addr) == lapic_addr_from(
                    t@,
                    p0,
                    left0,
                    self.local_apic_address as u64,
                ),
            decreases length_left,
        {
            let entry = t[p];
            let len = t[p + 1];
            let ghost rest_ids = lapic_ids_from(t@, p + len, length_left - len);
            let ghost rest_io = ioapics_from(t@, p + len, length_left - len);
            let ghost rest_ov = overrides_from(t@, p + len, length_left - len);
            if entry == 0 {
                let ptr3 = t[p + 3];
                let ptr4 = t[p + 4];
                if ptr4 & 1 > 0 && ptr3 <= 8 {
                    lapic_ids.push(ptr3);
                    assert(lapic_ids@ + rest_ids =~= lapic_ids@.drop_last() + (seq![ptr3]
                        + rest_ids));
                }
            } else if entry == 1 {
                let q = p + 2;
                io_apics.push(
                    IOApic {
                        apic_id: t[q],
                        rsv: t[q + 1],
                        apic_addr: read_u32_le(t, q + 2),
                        interrupt_base: read_u32_le(t, q + 6),
                    },
                );
                assert(io_apics@ + rest_io =~= io_apics@.drop_last() + (seq![
                    ioapic_at(t@, q as int),
                ] + rest_io));
            } else if entry == 2 {
                let q = p + 2;
                apic_overide.push(
                    ApicInterruptOveride {
                        bus_source: t[q],
                        irq_source: t[q + 1],
                        interrupt_num: read_u32_le(t, q + 2),
                        flags: read_u16_le(t, q + 6),
                    },
                );
                assert(apic_overide@ + rest_ov =~= apic_overide@.drop_last() + (seq![
                    override_at(t@, q as int),
                ] + rest_ov));
            } else if entry == 5 {
                lapic_addr = read_u64_le(t, p + 4);
            }
            p = p + len as usize;
            length_left = length_left - len as u32;
        }
        (lapic_addr, lapic_ids, io_apics, apic_overide)
    }
}

/// The register numbers of an interrupt's redirection entry: the low and
/// the high half.
pub open spec fn redirect_registers(irq: u8) -> (u8, u8) {
    ((0x10 + 2 * irq) as u8, (0x11 + 2 * irq) as u8)
}

/// The new low half of a redirection entry: masked unless enabled, physical
/// destination mode, fixed delivery, the given vector; other bits kept.
pub open spec fn redirect_low(low: u32, vector: u8, enable: bool) -> u32 {
    ((with_bit(low, 16, !enable) & !0x800u32 & !0x700u32 & !0xFFu32) | vector as u32) as u32
}

/// The new high half: the destination processor in the top byte.
pub open spec fn redirect_high(high: u32, processor: u32) -> u32 {
    ((high & !0xff00_0000u32) | (processor << 24u32)) as u32
}

/// The register writes that program a redirection entry.
#[derive(Clone, Copy, Debug, PartialEq, Eq, Structural)]
pub struct RedirectWrites {
    pub high_register: u8,
    pub high: u32,
    pub low_register: u8,
    pub low: u32,
}

/// The redirection entry of interrupt `irq` for the current register values
/// `low` and `high`: deliver `vector` to `processor`, masked unless
/// `enable`. The caller writes the high half first, then the low half.
pub fn set_redirect_entry(low: u32, high: u32, processor: u32, irq: u8, vector: u8, enable: bool) -> (w:
    RedirectWrites)
    requires
        irq < 120,
    ensures
        (w.low_register, w.high_register) == redirect_registers(irq),
        w.high == redirect_high(high, processor),
        w.low == redirect_low(low, vector, enable),
{
    let mut high = high;
    high &= !0xff000000;
    high |= processor << 24;
    let mut low = u32_set_bit(low, 16, !enable);
    // physical destination mode (bit 11)
    low &= !0x800;
    // fixed delivery
    low &= !(0x700);
    low &= !0xFF;
    low |= vector as u32;
    RedirectWrites {
        high_register: 0x11 + 2 * irq,
        high,
        low_register: 0x10 + 2 * irq,
        low,
    }
}

/// The low half of a redirection entry after masking or unmasking it.
pub fn mask_entry(low: u32, enable: bool) -> (r: u32)
    ensures
        r == with_bit(low, 16, !enable),
{
    u32_set_bit(low, 16, !enable)
}

} // verus!
