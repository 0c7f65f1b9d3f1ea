//! The bootloader's page-table arithmetic: splitting a virtual address into
//! table indices, and the layout of a page-directory entry.
use vstd::prelude::*;

verus! {

/// The four table indices of a virtual address.
pub struct PageMapIndexer {
    pub pdp_i: u64,
    pub pd_i: u64,
    pub pt_i: u64,
    pub p_i: u64,
}

/// The index that the table at `level` (0 for the page table, 3 for the
/// top-level table) uses for a virtual address: nine bits above the
/// 12-bit page offset and the lower levels' bits.
pub open spec fn table_index(va: u64, level: int) -> int {
    (va as int / pow2_9(level) / 4096) % 512
}

/// 512 to the power `level`, for the levels 0 to 3.
pub open spec fn pow2_9(level: int) -> int {
    if level == 0 {
        1int
    } else if level == 1 {
        512int
    } else if level == 2 {
        262144int
    } else {
        134217728int
    }
}

impl PageMapIndexer {
    /// Splits a virtual address into its four table indices.
    pub fn new(virtual_address: u64) -> (r: Self)
        ensures
            r.p_i == table_index(virtual_address, 0),
            r.pt_i == table_index(virtual_address, 1),
            r.pd_i == table_index(virtual_address, 2),
            r.pdp_i == table_index(virtual_address, 3),
    {
        let mut va = virtual_address;
        va = va >> 12;
        let p_i = va & 0x1ff;
        va = va >> 9;
        let pt_i = va & 0x1ff;
        va = va >> 9;
        let pd_i = va & 0x1ff;
        va = va >> 9;
        let pdp_i = va & 0x1ff;
        let v = virtual_address;
        assert(((v >> 12u64) & 0x1ffu64) == (v / 4096u64) % 512u64 && (((v >> 12u64) >> 9u64)
            & 0x1ffu64) == (v / 512u64 / 4096u64) % 512u64 && ((((v >> 12u64) >> 9u64) >> 9u64)
            & 0x1ffu64) == (v / 262144u64 / 4096u64) % 512u64 && (((((v >> 12u64) >> 9u64)
            >> 9u64) >> 9u64) & 0x1ffu64) == (v / 134217728u64 / 4096u64) % 512u64)
            by (bit_vector);
        Self { pdp_i, pd_i, pt_i, p_i }
    }
}

/// Bit masks of a page-directory entry.
pub const PDE_PRESENT: u64 = 0x1;
pub const PDE_READ_WRITE: u64 = 0x2;
pub const PDE_USER_SUPER: u64 = 0x4;
pub const PDE_WRITE_THROUGH: u64 = 0x8;
pub const PDE_CACHE_DISABLED: u64 = 0x10;
pub const PDE_ACCESSED: u64 = 0x20;
pub const PDE_LARGER_PAGES: u64 = 0x80;

/// The address bits of an entry: bits 12 to 51.
pub const PDE_ADDRESS_MASK: u64 = 0x000F_FFFF_FFFF_F000;

/// A page-directory entry: flags in the low bits (present, writable, user,
/// write-through, cache-disabled, accessed, a skipped bit, large page, a
/// skipped bit, three available bits), a 40-bit frame number from bit 12,
/// and 12 reserved bits.
#[derive(Clone, Copy, Debug, PartialEq, Eq, Structural)]
pub struct PageDirectoryEntry {
    bits: u64,
}

impl PageDirectoryEntry {
    /// The entry's 64 bits.
    pub closed spec fn spec_bits(&self) -> u64 {
        self.bits
    }

    /// The address the entry points to.
    pub open spec fn spec_address(&self) -> u64 {
        self.spec_bits() & PDE_ADDRESS_MASK
    }

    /// Whether a flag bit is set.
    pub open spec fn flag(&self, mask: u64) -> bool {
        self.spec_bits() & mask != 0
    }

    /// An entry with every bit clear.
    pub fn new() -> (e: Self)
        ensures
            e.spec_bits() == 0,
    {
        Self { bits: 0 }
    }

    /// An entry with the given bits.
    pub fn from_bits(bits: u64) -> (e: Self)
        ensures
            e.spec_bits() == bits,
    {
        Self { bits }
    }

    /// The entry's bits.
    pub fn into_bits(&self) -> (b: u64)
        ensures
            b == self.spec_bits(),
    {
        self.bits
    }

    /// Whether the entry maps something.
    pub fn present(&self) -> (b: bool)
        ensures
            b == self.flag(PDE_PRESENT),
    {
        self.bits & PDE_PRESENT != 0
    }

    /// Whether writes are allowed.
    pub fn read_write(&self) -> (b: bool)
        ensures
            b == self.flag(PDE_READ_WRITE),
    {
        self.bits & PDE_READ_WRITE != 0
    }

    /// Sets or clears one flag bit, leaving the others and the address.
    fn set_flag(&mut self, mask: u64, value: bool)
        requires
            mask == PDE_PRESENT || mask == PDE_READ_WRITE || mask == PDE_USER_SUPER || mask
                == PDE_WRITE_THROUGH || mask == PDE_CACHE_DISABLED || mask == PDE_ACCESSED || mask
                == PDE_LARGER_PAGES,
        ensures
            final(self).flag(mask) == value,
            final(self).spec_address() == old(self).spec_address(),
            forall|m: u64|
                m != mask && (m == PDE_PRESENT || m == PDE_READ_WRITE || m == PDE_USER_SUPER || m
                    == PDE_WRITE_THROUGH || m == PDE_CACHE_DISABLED || m == PDE_ACCESSED || m
                    == PDE_LARGER_PAGES) ==> final(self).flag(m) == old(self).flag(m),
    {
        let b = self.bits;
        let nb = if value {
            b | mask
        } else {
            b & !mask
        };
        assert(value ==> (nb & mask != 0)) by (bit_vector)
            requires
                nb == (if value { b | mask } else { b & !mask }),
                mask == 1u64 || mask == 2u64 || mask == 4u64 || mask == 8u64 || mask == 0x10u64
                    || mask == 0x20u64 || mask == 0x80u64,
        ;
        assert(!value ==> (nb & mask == 0)) by (bit_vector)
            requires
                nb == (if value { b | mask } else { b & !mask }),
        ;
        assert(nb & 0x000F_FFFF_FFFF_F000u64 == b & 0x000F_FFFF_FFFF_F000u64) by (bit_vector)
            requires
                nb == (if value { b | mask } else { b & !mask }),
                mask == 1u64 || mask == 2u64 || mask == 4u64 || mask == 8u64 || mask == 0x10u64
                    || mask == 0x20u64 || mask == 0x80u64,
        ;
        assert(forall|m: u64|
            m != mask && (m == 1u64 || m == 2u64 || m == 4u64 || m == 8u64 || m == 0x10u64 || m
                == 0x20u64 || m == 0x80u64) ==> ((nb & m != 0) == (b & m != 0))) by (bit_vector)
            requires
                nb == (if value { b | mask } else { b & !mask }),
                mask == 1u64 || mask == 2u64 || mask == 4u64 || mask == 8u64 || mask == 0x10u64
                    || mask == 0x20u64 || mask == 0x80u64,
        ;
        self.bits = nb;
    }

    /// Marks the entry present or not.
    pub fn set_present(&mut self, value: bool)
        ensures
            final(self).flag(PDE_PRESENT) == value,
            final(self).flag(PDE_READ_WRITE) == old(self).flag(PDE_READ_WRITE),
            final(self).spec_address() == old(self).spec_address(),
    {
        self.set_flag(PDE_PRESENT, value)
    }

    /// Allows or forbids writes.
    pub fn set_read_write(&mut self, value: bool)
        ensures
            final(self).flag(PDE_READ_WRITE) == value,
            final(self).flag(PDE_PRESENT) == old(self).flag(PDE_PRESENT),
            final(self).spec_address() == old(self).spec_address(),
    {
        self.set_flag(PDE_READ_WRITE, value)
    }

    /// The address the entry points to (its frame number shifted by 12).
    pub fn get_address(&self) -> (a: u64)
        ensures
            a == self.spec_address(),
            a % 4096 == 0,
    {
        let b = self.bits;
        assert(((b >> 12u64) & 0xFF_FFFF_FFFFu64) << 12u64 == b & 0x000F_FFFF_FFFF_F000u64)
            by (bit_vector);
        assert((b & 0x000F_FFFF_FFFF_F000u64) % 4096 == 0) by (bit_vector);
        ((self.bits >> 12) & 0xFF_FFFF_FFFF) << 12
    }

    /// Points the entry at `address` (its frame number, `address >> 12`,
    /// must fit the 40-bit field), leaving the flags.
    pub fn set_address(&mut self, address: u64)
        requires
            address >> 12 < 0x100_0000_0000,
        ensures
            final(self).spec_address() == address - address % 4096,
            forall|m: u64|
                (m == PDE_PRESENT || m == PDE_READ_WRITE || m == PDE_USER_SUPER || m
                    == PDE_WRITE_THROUGH || m == PDE_CACHE_DISABLED || m == PDE_ACCESSED || m
                    == PDE_LARGER_PAGES) ==> final(self).flag(m) == old(self).flag(m),
    {
        let b = self.bits;
        let nb = (b & !PDE_ADDRESS_MASK) | ((address >> 12) << 12);
        assert(nb & 0x000F_FFFF_FFFF_F000u64 == address - address % 4096) by (bit_vector)
            requires
                nb == (b & !0x000F_FFFF_FFFF_F000u64) | ((address >> 12u64) << 12u64),
                address >> 12u64 < 0x100_0000_0000u64,
        ;
        assert(forall|m: u64|
            (m == 1u64 || m == 2u64 || m == 4u64 || m == 8u64 || m == 0x10u64 || m == 0x20u64 || m
                == 0x80u64) ==> ((nb & m != 0) == (b & m != 0))) by (bit_vector)
            requires
                nb == (b & !0x000F_FFFF_FFFF_F000u64) | ((address >> 12u64) << 12u64),
        ;
        self.bits = nb;
    }
}

/// A table of 512 entries.
pub struct PageTable {
    pub entries: Vec<PageDirectoryEntry>,
}

impl PageTable {
    /// Whether no entry of the table is present.
    pub fn has_entries(&self) -> (b: bool)
        ensures
            b == (forall|i: int| 0 <= i < self.entries@.len() ==> !self.entries@[i].flag(PDE_PRESENT)),
    {
        let mut i: usize = 0;
        while i < self.entries.len()
            invariant
                0 <= i <= self.entries@.len(),
                forall|j: int| 0 <= j < i ==> !self.entries@[j].flag(PDE_PRESENT),
            decreases self.entries@.len() - i,
        {
            if self.entries[i].present() {
                return false;
            }
            i = i + 1;
        }
        true
    }
}

/// The page tables that the bootloader edits, named by the physical address
/// of their top-level table.
pub struct PageTableManager {
    page_lvl4_addr: u64,
}

impl PageTableManager {
    /// The top-level table's physical address.
    pub closed spec fn lvl4(&self) -> u64 {
        self.page_lvl4_addr
    }

    /// A manager of the tables rooted at `page_lvl4_addr`.
    pub fn new(page_lvl4_addr: u64) -> (m: Self)
        ensures
            m.lvl4() == page_lvl4_addr,
    {
        Self { page_lvl4_addr }
    }

    /// The top-level table's physical address.
    pub fn get_lvl4_addr(&self) -> (a: u64)
        ensures
            a == self.lvl4(),
    {
        self.page_lvl4_addr
    }
}

/// A pending TLB flush of one page, which the caller must perform or drop.
pub struct Flusher(pub u64);

impl Flusher {
    /// Drops the flush: the caller knows the old mapping was not cached.
    pub fn ignore(self) {
    }
}

} // verus!
