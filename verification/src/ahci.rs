//! The AHCI disk driver's decisions: which ports hold SATA disks, which
//! command slot to use, how a transfer is split into PRDT entries, the
//! register FIS of a command, and the bounds of a disk capability.
use vstd::prelude::*;
use crate::bits::u32_get_bit;

verus! {

pub const HBA_PORT_DEV_PRESENT: u8 = 0x3;
pub const HBA_PORT_IPM_ACTIVE: u8 = 0x1;
pub const SATA_SIG_ATAPI: u32 = 0xEB140101;
pub const SATA_SIG_ATA: u32 = 0x00000101;
pub const SATA_SIG_SEMB: u32 = 0xC33C0101;
pub const SATA_SIG_PM: u32 = 0x96690101;

/// Number of PRDT entries of a command table.
pub const PRDT_LENGTH: usize = 8;

/// The most sectors one read moves (one entry is kept for misalignment).
pub const MAX_SECTORS: u32 = 56;

/// What is attached to a port.
#[derive(Clone, Copy, Debug, PartialEq, Eq, Structural)]
pub enum PortType {
    Absent,
    SATA,
    SEMB,
    PM,
    SATAPI,
}

/// The device type a port reports: a device must be present and active;
/// its signature then names the type.
pub open spec fn spec_port_type(sata_status: u32, signature: u32) -> PortType {
    let ipm = (sata_status / 256) % 8;
    let det = sata_status % 8;
    if det != HBA_PORT_DEV_PRESENT || ipm != HBA_PORT_IPM_ACTIVE {
        PortType::Absent
    } else if signature == SATA_SIG_ATAPI {
        PortType::SATAPI
    } else if signature == SATA_SIG_ATA {
        PortType::SATA
    } else if signature == SATA_SIG_PM {
        PortType::PM
    } else if signature == SATA_SIG_SEMB {
        PortType::SEMB
    } else {
        PortType::Absent
    }
}

/// The type of device on a port, from its SATA status and signature
/// registers.
pub fn check_port_type(sata_status: u32, signature: u32) -> (t: PortType)
    ensures
        t == spec_port_type(sata_status, signature),
{
    let ss = sata_status;
    assert(((ss >> 8u32) & 7) == (ss / 256) % 8) by (bit_vector);
    assert((ss & 7) == ss % 8) by (bit_vector);
    let interface_power_management = ((sata_status >> 8) & 0b111) as u8;
    let device_detection = (sata_status & 0b111) as u8;
    if device_detection != HBA_PORT_DEV_PRESENT {
        return PortType::Absent;
    }
    if interface_power_management != HBA_PORT_IPM_ACTIVE {
        return PortType::Absent;
    }
    if signature == SATA_SIG_ATAPI {
        PortType::SATAPI
    } else if signature == SATA_SIG_ATA {
        PortType::SATA
    } else if signature == SATA_SIG_PM {
        PortType::PM
    } else if signature == SATA_SIG_SEMB {
        PortType::SEMB
    } else {
        PortType::Absent
    }
}

/// Whether the controller implements port `i`.
pub fn port_is_implemented(ports_implemented: u32, i: usize) -> (b: bool)
    requires
        i < 32,
    ensures
        b == (ports_implemented & (1u32 << i as u32) != 0),
{
    u32_get_bit(ports_implemented, i)
}

/// The lowest command slot that is neither issued nor active; none when all
/// 32 are busy (the driver then sleeps and asks again).
pub fn find_slot(command_issue: u32, sata_active: u32) -> (slot: Option<u8>)
    ensures
        match slot {
            Some(s) => s < 32 && (command_issue | sata_active) & (1u32 << s as u32) == 0 && forall|
                j: u32,
            |
                j < s ==> (command_issue | sata_active) & (1u32 << j) != 0,
            None => forall|j: u32| j < 32 ==> (command_issue | sata_active) & (1u32 << j) != 0,
        },
{
    let test = command_issue | sata_active;
    let mut slot: u32 = 0;
    while slot < 32
        invariant
            0 <= slot <= 32,
            test == command_issue | sata_active,
            forall|j: u32| j < slot ==> test & (1u32 << j) != 0,
        decreases 32 - slot,
    {
        if test & (1u32 << slot) == 0 {
            return Some(slot as u8);
        }
        slot = slot + 1;
    }
    None
}

/// One PRDT entry of a planned transfer: the virtual page it lies in (the
/// caller translates it), the offset within that page, and the byte count
/// field (the entry's size minus one).
#[derive(Clone, Copy, Debug, PartialEq, Eq, Structural)]
pub struct PrdtSegment {
    pub page: u64,
    pub offset: u64,
    pub byte_count: u32,
}

/// Entries of whole pages from `page` for `bytes` bytes, the last one
/// holding what is left.
pub open spec fn page_segments(page: u64, bytes: int) -> Seq<PrdtSegment>
    decreases bytes,
{
    if bytes > 0x1000 {
        seq![PrdtSegment { page, offset: 0, byte_count: 0xFFF }] + page_segments(
            (page + 0x1000) as u64,
            bytes - 0x1000,
        )
    } else if bytes > 0 {
        seq![PrdtSegment { page, offset: 0, byte_count: (bytes - 1) as u32 }]
    } else {
        Seq::empty()
    }
}

/// The PRDT of a read of `sector_count` sectors into the buffer at virtual
/// address `ptr`: when the buffer does not start on a page, a first entry
/// covers the start of its page (with a byte count of 0xFFF less the
/// offset), and the rest starts on the next page.
pub open spec fn spec_prdt_plan(ptr: u64, sector_count: u32) -> Seq<PrdtSegment> {
    let left = ptr % 4096;
    let total = 512 * sector_count;
    if left > 0 {
        let rest = if total > 4096 - left {
            total - (4096 - left)
        } else {
            0
        };
        seq![PrdtSegment { page: (ptr - left) as u64, offset: left as u64, byte_count: (0xFFF - left) as u32 }]
            + page_segments((ptr - left + 4096) as u64, rest)
    } else {
        page_segments(ptr, total)
    }
}

proof fn lemma_page_segments_len(page: u64, bytes: int)
    requires
        0 <= bytes,
        page + bytes + 0x1000 <= u64::MAX,
    ensures
        page_segments(page, bytes).len() == (bytes + 4095) / 4096,
    decreases bytes,
{
    if bytes > 0x1000 {
        lemma_page_segments_len((page + 0x1000) as u64, bytes - 0x1000);
    }
}

/// Plans the PRDT entries of a read of `sector_count` sectors (at most 56)
/// into the buffer at `ptr`; there are never more than the table's eight.
pub fn plan_prdt(ptr: u64, sector_count: u32) -> (v: Vec<PrdtSegment>)
    requires
        sector_count <= MAX_SECTORS,
        ptr + 0x9000 <= u64::MAX,
    ensures
        v@ == spec_prdt_plan(ptr, sector_count),
        v@.len() <= PRDT_LENGTH,
{
    let mut v: Vec<PrdtSegment> = Vec::new();
    let mut ptr_addr = ptr;
    let left_align_size = (ptr_addr & 0xFFF) as u32;
    let p0 = ptr;
    assert(p0 & 0xFFFu64 == p0 % 4096) by (bit_vector);
    assert(p0 & !0xFFFu64 == p0 - p0 % 4096) by (bit_vector);
    let mut bytes_to_read = 512 * sector_count;
    if left_align_size > 0 {
        ptr_addr = ptr_addr & !0xFFF;
        v.push(
            PrdtSegment {
                page: ptr_addr,
                offset: left_align_size as u64,
                byte_count: 0xFFF - left_align_size,
            },
        );
        bytes_to_read = if bytes_to_read > 0x1000 - left_align_size {
            bytes_to_read - (0x1000 - left_align_size)
        } else {
            0
        };
        ptr_addr = ptr_addr + 0x1000;
    }
    let ghost first = v@;
    let ghost start = ptr_addr;
    let ghost total = bytes_to_read as int;
    proof {
        lemma_page_segments_len(start, total);
        assert(total <= 28672);
        assert(left_align_size > 0 ==> first.len() == 1 && total <= 28671);
        assert(left_align_size == 0 ==> first.len() == 0);
        assert((total + 4095) / 4096 <= 7);
        assert(left_align_size > 0 ==> (total + 4095) / 4096 <= 7);
    }
    while bytes_to_read > 0x1000
        invariant
            first + v@.subrange(first.len() as int, v@.len() as int) + page_segments(
                ptr_addr,
                bytes_to_read as int,
            ) == first + page_segments(start, total),
            v@.subrange(0, first.len() as int) == first,
            first.len() <= v@.len(),
            ptr_addr == start + (v@.len() - first.len()) * 0x1000,
            bytes_to_read == total - (v@.len() - first.len()) * 0x1000,
            start + total + 0x1000 <= u64::MAX,
        decreases bytes_to_read,
    {
        let ghost old_v = v@;
        v.push(PrdtSegment { page: ptr_addr, offset: 0, byte_count: 0xFFF });
        assert(v@.subrange(0, first.len() as int) =~= first);
        assert(v@.subrange(first.len() as int, v@.len() as int) =~= old_v.subrange(
            first.len() as int,
            old_v.len() as int,
        ).push(PrdtSegment { page: ptr_addr, offset: 0, byte_count: 0xFFF }));
        bytes_to_read = bytes_to_read - 0x1000;
        ptr_addr = ptr_addr + 0x1000;
        assert(first + v@.subrange(first.len() as int, v@.len() as int) + page_segments(
            ptr_addr,
            bytes_to_read as int,
        ) =~= first + old_v.subrange(first.len() as int, old_v.len() as int) + page_segments(
            (ptr_addr - 0x1000) as u64,
            bytes_to_read + 0x1000,
        ));
    }
    if bytes_to_read > 0 {
        let ghost old_v = v@;
        v.push(PrdtSegment { page: ptr_addr, offset: 0, byte_count: bytes_to_read - 1 });
        assert(v@.subrange(first.len() as int, v@.len() as int) =~= old_v.subrange(
            first.len() as int,
            old_v.len() as int,
        ).push(PrdtSegment { page: ptr_addr, offset: 0, byte_count: (bytes_to_read - 1) as u32 }));
    }
    assert(v@ =~= v@.subrange(0, first.len() as int) + v@.subrange(
        first.len() as int,
        v@.len() as int,
    ));
    assert(v@ =~= first + page_segments(start, total));
    v
}

/// The types of frame information structure.
#[derive(Clone, Copy, Debug, PartialEq, Eq, Structural)]
pub enum FISTYPE {
    REGH2D,
    REGD2H,
    DMAACT,
    DMASETUP,
    DATA,
    BIST,
    PIOSETUP,
    DEVBITS,
}

impl FISTYPE {
    /// The type's code.
    pub fn value(&self) -> (v: u8)
        ensures
            v == match self {
                FISTYPE::REGH2D => 0x27u8,
                FISTYPE::REGD2H => 0x34u8,
                FISTYPE::DMAACT => 0x39u8,
                FISTYPE::DMASETUP => 0x41u8,
                FISTYPE::DATA => 0x46u8,
                FISTYPE::BIST => 0x58u8,
                FISTYPE::PIOSETUP => 0x5Fu8,
                FISTYPE::DEVBITS => 0xA1u8,
            },
    {
        match self {
            FISTYPE::REGH2D => 0x27,
            FISTYPE::REGD2H => 0x34,
            FISTYPE::DMAACT => 0x39,
            FISTYPE::DMASETUP => 0x41,
            FISTYPE::DATA => 0x46,
            FISTYPE::BIST => 0x58,
            FISTYPE::PIOSETUP => 0x5F,
            FISTYPE::DEVBITS => 0xA1,
        }
    }
}

/// The host-to-device register FIS of a command.
#[derive(Clone, Copy, Debug, PartialEq, Eq, Structural)]
pub struct FisRegH2D {
    pub fis_type: u8,
    pub port_multiplier: u8,
    pub command_control: bool,
    pub command: u8,
    pub feature_low: u8,
    pub lba0: u8,
    pub lba1: u8,
    pub lba2: u8,
    pub device_register: u8,
    pub lba3: u8,
    pub lba4: u8,
    pub lba5: u8,
    pub feature_high: u8,
    pub countl: u8,
    pub counth: u8,
    pub iso_command_completion: u8,
    pub control: u8,
}

/// ATA command: read DMA extended.
pub const ATA_CMD_READ_DMA_EX: u8 = 0x25;

/// ATA command: identify device.
pub const ATA_CMD_IDENTIFY: u8 = 0xEC;

/// The register FIS that reads `sector_count` sectors from `sector` by DMA:
/// the 48-bit LBA split into six bytes, LBA mode, and the count in two bytes.
pub fn read_dma_fis(sector: u64, sector_count: u32) -> (f: FisRegH2D)
    ensures
        f.fis_type == 0x27,
        f.control == 1,
        f.command == ATA_CMD_READ_DMA_EX,
        f.command_control,
        f.lba0 == sector % 0x100,
        f.lba1 == (sector / 0x100) % 0x100,
        f.lba2 == (sector / 0x1_0000) % 0x100,
        f.lba3 == (sector / 0x1_0000_0000) % 0x100,
        f.lba4 == (sector / 0x100_0000_0000) % 0x100,
        f.lba5 == (sector / 0x1_0000_0000_0000) % 0x100,
        f.device_register == 0x40,
        f.countl == sector_count % 0x100,
        f.counth == (sector_count / 0x100) % 0x100,
{
    let sector_low = (sector & 0xFFFF_FFFF) as u32;
    let sector_high = (sector >> 32) as u32;
    let s = sector;
    let c = sector_count;
    assert((s & 0xFFFF_FFFFu64) as u32 as u8 == s % 0x100 && (((s & 0xFFFF_FFFFu64) as u32)
        >> 8u32) as u8 == (s / 0x100) % 0x100 && (((s & 0xFFFF_FFFFu64) as u32) >> 16u32) as u8
        == (s / 0x1_0000) % 0x100 && ((s >> 32u64) as u32) as u8 == (s / 0x1_0000_0000) % 0x100
        && (((s >> 32u64) as u32) >> 8u32) as u8 == (s / 0x100_0000_0000) % 0x100 && (((s
        >> 32u64) as u32) >> 16u32) as u8 == (s / 0x1_0000_0000_0000) % 0x100) by (bit_vector);
    assert((c & 0xFF) as u8 == c % 0x100 && ((c >> 8u32) & 0xFF) as u8 == (c / 0x100) % 0x100)
        by (bit_vector);
    FisRegH2D {
        fis_type: FISTYPE::REGH2D.value(),
        port_multiplier: 0,
        command_control: true,
        command: ATA_CMD_READ_DMA_EX,
        feature_low: 0,
        lba0: sector_low as u8,
        lba1: (sector_low >> 8) as u8,
        lba2: (sector_low >> 16) as u8,
        // LBA mode (bit 6)
        device_register: 0x40,
        lba3: sector_high as u8,
        lba4: (sector_high >> 8) as u8,
        lba5: (sector_high >> 16) as u8,
        feature_high: 0,
        countl: (sector_count & 0xFF) as u8,
        counth: ((sector_count >> 8) & 0xFF) as u8,
        iso_command_completion: 0,
        control: 1,
    }
}

/// The register FIS of the identify command.
pub fn identify_fis() -> (f: FisRegH2D)
    ensures
        f.fis_type == 0x27,
        f.command == ATA_CMD_IDENTIFY,
        f.command_control,
        f.countl == 0,
{
    FisRegH2D {
        fis_type: FISTYPE::REGH2D.value(),
        port_multiplier: 0,
        command_control: true,
        command: ATA_CMD_IDENTIFY,
        feature_low: 0,
        lba0: 0,
        lba1: 0,
        lba2: 0,
        device_register: 0,
        lba3: 0,
        lba4: 0,
        lba5: 0,
        feature_high: 0,
        countl: 0,
        counth: 0,
        iso_command_completion: 0,
        control: 0,
    }
}

/// How many times a read polls the port's task file for it to be free
/// before giving up on a hung port.
pub const PORT_SPIN_LIMIT: u32 = 100_000;

/// Whether the port's task file says it is busy or wants data (bits 7 and
/// 3).
pub fn port_busy(task_file_data: u32) -> (b: bool)
    ensures
        b == (task_file_data & 0x88u32 != 0),
{
    task_file_data & 0x88 != 0
}

/// Whether the port reported a task-file error (bit 30 of its interrupt
/// status): the read failed.
pub fn read_failed(interrupt_status: u32) -> (b: bool)
    ensures
        b == (interrupt_status & (1u32 << 30u32) != 0),
{
    u32_get_bit(interrupt_status, 30)
}

/// Where waiting for a free port stands after one look at its task file.
#[derive(Clone, Copy, Debug, PartialEq, Eq, Structural)]
pub enum ReadyPoll {
    /// The port is free: issue the command.
    Ready,
    /// Still busy: look again with this many polls left.
    Spin(u32),
    /// The polls ran out: the port is hung and the read fails.
    Hung,
}

/// One look at the task file while waiting for a free port, with `spin`
/// polls left (starting at `PORT_SPIN_LIMIT`): a busy port with polls left
/// is polled again; once none are left the port is hung, even if it just
/// came free; else it is ready.
pub fn ready_poll(spin: u32, task_file_data: u32) -> (r: ReadyPoll)
    ensures
        r == if task_file_data & 0x88u32 != 0 && spin > 0 {
            ReadyPoll::Spin((spin - 1) as u32)
        } else if spin == 0 {
            ReadyPoll::Hung
        } else {
            ReadyPoll::Ready
        },
{
    if port_busy(task_file_data) && spin > 0 {
        ReadyPoll::Spin(spin - 1)
    } else if spin == 0 {
        ReadyPoll::Hung
    } else {
        ReadyPoll::Ready
    }
}

/// Where an issued command stands after one look at the port.
#[derive(Clone, Copy, Debug, PartialEq, Eq, Structural)]
pub enum CommandPoll {
    /// The slot's command is done: the read succeeds unless the interrupt
    /// status read after it reports an error (`read_failed`).
    Finished,
    /// The port reported an error: the read fails.
    Failed,
    /// Still running: look again.
    Pending,
}

/// One look at the port while the command in `slot` runs: done once its
/// bit of the command-issue register clears; else failed when the
/// interrupt status reports an error; else still pending.
pub fn command_poll(command_issue: u32, interrupt_status: u32, slot: u8) -> (r: CommandPoll)
    requires
        slot < 32,
    ensures
        r == if command_issue & (1u32 << slot as u32) == 0 {
            CommandPoll::Finished
        } else if interrupt_status & (1u32 << 30u32) != 0 {
            CommandPoll::Failed
        } else {
            CommandPoll::Pending
        },
{
    if !u32_get_bit(command_issue, slot as usize) {
        CommandPoll::Finished
    } else if read_failed(interrupt_status) {
        CommandPoll::Failed
    } else {
        CommandPoll::Pending
    }
}

/// The area of the FIS received from the device.
pub struct ReceivedFis(pub [u8; 256]);

/// Why a disk request was refused.
#[derive(Clone, Copy, Debug, PartialEq, Eq, Structural)]
pub enum DiskError {
    OutOfBounds,
    ReadOnly,
    NotSectorMultiple,
    NarrowingOutOfBounds,
}

/// A disk capability: a window of sectors of a port, and whether it may
/// write.
#[derive(Clone, Copy, Debug, PartialEq, Eq, Structural)]
pub struct DiskWindow {
    pub offset: u64,
    pub length: u64,
    pub write: bool,
}

impl DiskWindow {
    /// The window's sectors fit the sector numbers.
    pub open spec fn wf(&self) -> bool {
        self.offset + self.length <= u64::MAX
    }

    /// The whole disk, writable.
    pub fn whole_disk() -> (w: Self)
        ensures
            w.wf(),
            w.offset == 0 && w.length == u64::MAX && w.write,
    {
        DiskWindow { offset: 0, length: u64::MAX, write: true }
    }

    /// The disk sector where a read of `count` sectors from `sector` of the
    /// window starts, if it stays within the window.
    pub fn read(&self, sector: u64, count: u32) -> (r: Result<u64, DiskError>)
        requires
            self.wf(),
            sector + count <= u64::MAX,
        ensures
            count + sector > self.length ==> r == Err::<u64, DiskError>(DiskError::OutOfBounds),
            count + sector <= self.length ==> r == Ok::<u64, DiskError>((sector + self.offset) as u64),
    {
        if count as u64 + sector > self.length {
            return Err(DiskError::OutOfBounds);
        }
        Ok(sector + self.offset)
    }

    /// The disk sector where a write of `data_len` bytes to `sector` of the
    /// window starts; none for an empty write. Refused when the window is
    /// read-only, the length is not a multiple of 512, or the sectors leave
    /// the window.
    pub fn write(&self, sector: u64, data_len: usize) -> (r: Result<Option<u64>, DiskError>)
        requires
            self.wf(),
            sector + data_len / 512 <= u64::MAX,
        ensures
            !self.write ==> r == Err::<Option<u64>, DiskError>(DiskError::ReadOnly),
            self.write && data_len == 0 ==> r == Ok::<Option<u64>, DiskError>(None),
            self.write && data_len > 0 && data_len % 512 != 0 ==> r == Err::<Option<u64>, DiskError>(
                DiskError::NotSectorMultiple,
            ),
            self.write && data_len > 0 && data_len % 512 == 0 && data_len / 512 + sector
                > self.length ==> r == Err::<Option<u64>, DiskError>(DiskError::OutOfBounds),
            self.write && data_len > 0 && data_len % 512 == 0 && data_len / 512 + sector
                <= self.length ==> r == Ok::<Option<u64>, DiskError>(Some((self.offset + sector) as u64)),
    {
        if !self.write {
            return Err(DiskError::ReadOnly);
        }
        if data_len == 0 {
            return Ok(None);
        }
        if data_len % 512 != 0 {
            return Err(DiskError::NotSectorMultiple);
        }
        let count = data_len / 512;
        if count as u64 + sector > self.length {
            return Err(DiskError::OutOfBounds);
        }
        Ok(Some(self.offset + sector))
    }

    /// A narrower capability: with a nonzero `length`, the sectors from
    /// `offset` on within this window; with 0, the same window. The new
    /// capability may write as requested.
    pub fn restrict(&self, offset: u64, length: u64, write: bool) -> (r: Result<DiskWindow, DiskError>)
        requires
            self.wf(),
            self.offset + offset + length <= u64::MAX,
        ensures
            length == 0 ==> r == Ok::<DiskWindow, DiskError>(
                DiskWindow { offset: self.offset, length: self.length, write },
            ),
            length > 0 && self.offset + offset + length > self.offset + self.length ==> r == Err::<
                DiskWindow,
                DiskError,
            >(DiskError::NarrowingOutOfBounds),
            length > 0 && self.offset + offset + length <= self.offset + self.length ==> r == Ok::<
                DiskWindow,
                DiskError,
            >(DiskWindow { offset: (self.offset + offset) as u64, length, write }),
            r matches Ok(w) ==> w.wf() && self.offset <= w.offset && w.offset + w.length
                <= self.offset + self.length,
    {
        if length > 0 {
            let new_offset = self.offset + offset;
            let new_len_abs = new_offset + length;
            if new_len_abs > self.offset + self.length {
                return Err(DiskError::NarrowingOutOfBounds);
            }
            Ok(DiskWindow { offset: new_offset, length, write })
        } else {
            Ok(DiskWindow { offset: self.offset, length: self.length, write })
        }
    }
}

} // verus!
