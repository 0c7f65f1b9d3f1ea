//! The on-disk structures of the FAT file system and the arithmetic that
//! locates clusters, sectors and allocation-table entries.
use vstd::prelude::*;
use crate::bytes::{read_u16_le, read_u32_le, seq_le16, seq_le32, write_u16_le, write_u32_le};

verus! {

/// Size of the BIOS parameter block at the start of a FAT volume.
pub const BPB_SIZE: usize = 36;

/// Size of the FAT16 extended boot record.
pub const FAT16_EXT_SIZE: usize = 26;

/// Size of the FAT32 extended boot record.
pub const FAT32_EXT_SIZE: usize = 54;

/// Size of a directory entry.
pub const DIR_ENTRY_SIZE: usize = 32;

/// Size of a sector.
pub const SECTOR_SIZE: usize = 512;

/// The BIOS parameter block, as laid out at the start of the volume.
#[derive(Clone, Copy)]
pub struct BiosParameterBlock {
    pub jump: [u8; 3],
    pub software_name: [u8; 8],
    pub bytes_per_sector: u16,
    pub sectors_per_cluster: u8,
    pub reserved_sectors: u16,
    pub fat_copies: u8,
    pub root_dir_entries: u16,
    pub total_sectors: u16,
    pub media_type: u8,
    pub fat_sector_cnt: u16,
    pub sectors_per_track: u16,
    pub head_cnt: u16,
    pub hidden_sectors: u32,
    pub total_sectors_ext: u32,
}

/// The FAT16 extended boot record, right after the parameter block.
#[derive(Clone, Copy)]
pub struct FAT16Ext {
    pub drive_number: u8,
    pub flags: u8,
    pub signature: u8,
    pub volume_id: u32,
    pub volume_label: [u8; 11],
    pub fat_type_label: [u8; 8],
}

/// The FAT32 extended boot record, right after the parameter block.
#[derive(Clone, Copy)]
pub struct FAT32Ext {
    pub sectors_per_fat: u32,
    pub flags: u16,
    pub fat_version: u16,
    pub root_cluster: u32,
    pub fat_info: u16,
    pub backup_sector: u16,
    pub reserved: [u8; 12],
    pub drive_number: u8,
    pub reserved1: u8,
    pub boot_signature: u8,
    pub volume_id: u32,
    pub volume_label: [u8; 11],
    pub fat_type_label: [u8; 8],
}

/// Whether the parameter block's numeric fields are those encoded in `b`.
pub open spec fn bpb_decodes(bpb: BiosParameterBlock, b: Seq<u8>) -> bool {
    &&& bpb.jump@ == b.subrange(0, 3)
    &&& bpb.software_name@ == b.subrange(3, 11)
    &&& bpb.bytes_per_sector == seq_le16(b, 11)
    &&& bpb.sectors_per_cluster == b[13]
    &&& bpb.reserved_sectors == seq_le16(b, 14)
    &&& bpb.fat_copies == b[16]
    &&& bpb.root_dir_entries == seq_le16(b, 17)
    &&& bpb.total_sectors == seq_le16(b, 19)
    &&& bpb.media_type == b[21]
    &&& bpb.fat_sector_cnt == seq_le16(b, 22)
    &&& bpb.sectors_per_track == seq_le16(b, 24)
    &&& bpb.head_cnt == seq_le16(b, 26)
    &&& bpb.hidden_sectors == seq_le32(b, 28)
    &&& bpb.total_sectors_ext == seq_le32(b, 32)
}

/// Whether the FAT16 record is the one encoded in `b`.
pub open spec fn fat16_ext_decodes(e: FAT16Ext, b: Seq<u8>) -> bool {
    &&& e.drive_number == b[0]
    &&& e.flags == b[1]
    &&& e.signature == b[2]
    &&& e.volume_id == seq_le32(b, 3)
    &&& e.volume_label@ == b.subrange(7, 18)
    &&& e.fat_type_label@ == b.subrange(18, 26)
}

/// Whether the FAT32 record is the one encoded in `b`.
pub open spec fn fat32_ext_decodes(e: FAT32Ext, b: Seq<u8>) -> bool {
    &&& e.sectors_per_fat == seq_le32(b, 0)
    &&& e.flags == seq_le16(b, 4)
    &&& e.fat_version == seq_le16(b, 6)
    &&& e.root_cluster == seq_le32(b, 8)
    &&& e.fat_info == seq_le16(b, 12)
    &&& e.backup_sector == seq_le16(b, 14)
    &&& e.reserved@ == b.subrange(16, 28)
    &&& e.drive_number == b[28]
    &&& e.reserved1 == b[29]
    &&& e.boot_signature == b[30]
    &&& e.volume_id == seq_le32(b, 31)
    &&& e.volume_label@ == b.subrange(35, 46)
    &&& e.fat_type_label@ == b.subrange(46, 54)
}

fn copy_3(b: &[u8], off: usize) -> (a: [u8; 3])
    requires
        off + 3 <= b@.len(),
    ensures
        a@ == b@.subrange(off as int, off + 3),
{
    let a = [b[off], b[off + 1], b[off + 2]];
    assert(a@ =~= b@.subrange(off as int, off + 3));
    a
}

fn copy_8(b: &[u8], off: usize) -> (a: [u8; 8])
    requires
        off + 8 <= b@.len(),
    ensures
        a@ == b@.subrange(off as int, off + 8),
{
    let a = [
        b[off],
        b[off + 1],
        b[off + 2],
        b[off + 3],
        b[off + 4],
        b[off + 5],
        b[off + 6],
        b[off + 7],
    ];
    assert(a@ =~= b@.subrange(off as int, off + 8));
    a
}

fn copy_11(b: &[u8], off: usize) -> (a: [u8; 11])
    requires
        off + 11 <= b@.len(),
    ensures
        a@ == b@.subrange(off as int, off + 11),
{
    let a = [
        b[off],
        b[off + 1],
        b[off + 2],
        b[off + 3],
        b[off + 4],
        b[off + 5],
        b[off + 6],
        b[off + 7],
        b[off + 8],
        b[off + 9],
        b[off + 10],
    ];
    assert(a@ =~= b@.subrange(off as int, off + 11));
    a
}

fn copy_12(b: &[u8], off: usize) -> (a: [u8; 12])
    requires
        off + 12 <= b@.len(),
    ensures
        a@ == b@.subrange(off as int, off + 12),
{
    let a = [
        b[off],
        b[off + 1],
        b[off + 2],
        b[off + 3],
        b[off + 4],
        b[off + 5],
        b[off + 6],
        b[off + 7],
        b[off + 8],
        b[off + 9],
        b[off + 10],
        b[off + 11],
    ];
    assert(a@ =~= b@.subrange(off as int, off + 12));
    a
}

impl BiosParameterBlock {
    /// Decodes the parameter block at the start of a boot sector.
    pub fn from_bytes(b: &[u8]) -> (bpb: Self)
        requires
            b@.len() >= BPB_SIZE,
        ensures
            bpb_decodes(bpb, b@),
    {
        BiosParameterBlock {
            jump: copy_3(b, 0),
            software_name: copy_8(b, 3),
            bytes_per_sector: read_u16_le(b, 11),
            sectors_per_cluster: b[13],
            reserved_sectors: read_u16_le(b, 14),
            fat_copies: b[16],
            root_dir_entries: read_u16_le(b, 17),
            total_sectors: read_u16_le(b, 19),
            media_type: b[21],
            fat_sector_cnt: read_u16_le(b, 22),
            sectors_per_track: read_u16_le(b, 24),
            head_cnt: read_u16_le(b, 26),
            hidden_sectors: read_u32_le(b, 28),
            total_sectors_ext: read_u32_le(b, 32),
        }
    }
}

impl FAT16Ext {
    /// Decodes the FAT16 record from the bytes that follow the parameter block.
    pub fn from_bytes(b: &[u8]) -> (e: Self)
        requires
            b@.len() >= FAT16_EXT_SIZE,
        ensures
            fat16_ext_decodes(e, b@),
    {
        FAT16Ext {
            drive_number: b[0],
            flags: b[1],
            signature: b[2],
            volume_id: read_u32_le(b, 3),
            volume_label: copy_11(b, 7),
            fat_type_label: copy_8(b, 18),
        }
    }
}

impl FAT32Ext {
    /// Decodes the FAT32 record from the bytes that follow the parameter block.
    pub fn from_bytes(b: &[u8]) -> (e: Self)
        requires
            b@.len() >= FAT32_EXT_SIZE,
        ensures
            fat32_ext_decodes(e, b@),
    {
        FAT32Ext {
            sectors_per_fat: read_u32_le(b, 0),
            flags: read_u16_le(b, 4),
            fat_version: read_u16_le(b, 6),
            root_cluster: read_u32_le(b, 8),
            fat_info: read_u16_le(b, 12),
            backup_sector: read_u16_le(b, 14),
            reserved: copy_12(b, 16),
            drive_number: b[28],
            reserved1: b[29],
            boot_signature: b[30],
            volume_id: read_u32_le(b, 31),
            volume_label: copy_11(b, 35),
            fat_type_label: copy_8(b, 46),
        }
    }
}

/// The three FAT variants.
#[derive(Clone, Copy, Debug, PartialEq, Eq, Structural)]
pub enum FatType {
    Fat12,
    Fat16,
    Fat32,
}

/// The extended boot record of a FAT16 or a FAT32 volume.
pub enum FatExtendedBootRecord {
    FAT16(FAT16Ext),
    FAT32(FAT32Ext),
}

impl FatExtendedBootRecord {
    /// The FAT variant that this record belongs to.
    pub open spec fn spec_type(&self) -> FatType {
        match self {
            FatExtendedBootRecord::FAT16(_) => FatType::Fat16,
            FatExtendedBootRecord::FAT32(_) => FatType::Fat32,
        }
    }

    /// The FAT variant that this record belongs to.
    pub fn get_type(&self) -> (t: FatType)
        ensures
            t == self.spec_type(),
    {
        match self {
            FatExtendedBootRecord::FAT16(_) => FatType::Fat16,
            FatExtendedBootRecord::FAT32(_) => FatType::Fat32,
        }
    }
}

/// The number of sectors of the fixed root directory region, rounded up.
pub open spec fn spec_root_dir_sectors_fixed(bpb: BiosParameterBlock) -> int {
    (bpb.root_dir_entries * 32 + bpb.bytes_per_sector - 1) / (bpb.bytes_per_sector as int)
}

/// The total sector count: the 16-bit field, or the 32-bit one when it is 0.
pub open spec fn spec_total_sectors(bpb: BiosParameterBlock) -> int {
    if bpb.total_sectors != 0 {
        bpb.total_sectors as int
    } else {
        bpb.total_sectors_ext as int
    }
}

/// The FAT type of a volume and its cluster count, following the Microsoft
/// specification: a volume whose 16-bit FAT size is 0 is FAT32; otherwise the
/// type follows from the number of data clusters (below 4085 FAT12, below
/// 65525 FAT16, else FAT32).
pub open spec fn spec_fat_type(bpb: BiosParameterBlock, fat32ext: FAT32Ext) -> (FatType, int) {
    if bpb.fat_sector_cnt == 0 {
        (FatType::Fat32, (fat32ext.sectors_per_fat as int) / (bpb.sectors_per_cluster as int))
    } else {
        let data_sectors = spec_total_sectors(bpb) - (bpb.reserved_sectors + bpb.fat_copies
            * bpb.fat_sector_cnt + spec_root_dir_sectors_fixed(bpb));
        let total_clusters = data_sectors / (bpb.sectors_per_cluster as int);
        if total_clusters < 4085 {
            (FatType::Fat12, total_clusters)
        } else if total_clusters < 65525 {
            (FatType::Fat16, total_clusters)
        } else {
            (FatType::Fat32, total_clusters)
        }
    }
}

/// Whether the type computation is defined: nonzero sector and cluster sizes,
/// and (for a volume with a 16-bit FAT size) no more metadata sectors than
/// total sectors.
pub open spec fn fat_type_defined(bpb: BiosParameterBlock) -> bool {
    &&& bpb.bytes_per_sector > 0
    &&& bpb.sectors_per_cluster > 0
    &&& bpb.fat_sector_cnt != 0 ==> bpb.reserved_sectors + bpb.fat_copies * bpb.fat_sector_cnt
        + spec_root_dir_sectors_fixed(bpb) <= spec_total_sectors(bpb)
}

/// Determines the FAT type and the number of clusters. `fat32ext` is the
/// FAT32 record that follows the parameter block on disk; it is only read
/// when the 16-bit FAT size is 0.
pub fn get_fat_type(bpb: &BiosParameterBlock, fat32ext: &FAT32Ext) -> (r: (FatType, u32))
    requires
        fat_type_defined(*bpb),
    ensures
        (r.0, r.1 as int) == spec_fat_type(*bpb, *fat32ext),
{
    let root_dir_sectors = ((bpb.root_dir_entries as u32 * 32) + (bpb.bytes_per_sector as u32 - 1))
        / bpb.bytes_per_sector as u32;

    let fat_size = if bpb.fat_sector_cnt != 0 {
        bpb.fat_sector_cnt as u32
    } else {
        return (FatType::Fat32, fat32ext.sectors_per_fat / bpb.sectors_per_cluster as u32);
    };

    let total_sec_size = if bpb.total_sectors != 0 {
        bpb.total_sectors as u32
    } else {
        bpb.total_sectors_ext
    };

    assert(bpb.fat_copies * fat_size <= 255 * 65535) by (nonlinear_arith)
        requires
            bpb.fat_copies <= 255,
            fat_size <= 65535,
    ;
    let data_sectors = total_sec_size - ((bpb.reserved_sectors as u32 + (bpb.fat_copies as u32
        * fat_size)) + root_dir_sectors);

    let total_clusters = data_sectors / bpb.sectors_per_cluster as u32;

    if total_clusters < 4085 {
        (FatType::Fat12, total_clusters)
    } else if total_clusters < 65525 {
        (FatType::Fat16, total_clusters)
    } else {
        (FatType::Fat32, total_clusters)
    }
}

/// The value of a cluster entry: its low 28 bits (the upper four bits of a
/// FAT32 entry are reserved and kept as they were).
pub open spec fn entry_value(data: u32) -> u32 {
    (data % 0x1000_0000) as u32
}

/// The first value that marks the end of a chain for each FAT type.
pub open spec fn eof_marker(fat: FatType) -> u32 {
    match fat {
        FatType::Fat12 => 0x0FF8,
        FatType::Fat16 => 0xFFF8,
        FatType::Fat32 => 0x0FFF_FFF8,
    }
}

/// An entry of the file allocation table.
#[derive(Clone, Copy, Debug)]
pub struct ClusterEntry {
    pub data: u32,
    pub fat: FatType,
}

impl ClusterEntry {
    /// Whether the entry marks a free cluster.
    pub open spec fn spec_is_free(self) -> bool {
        entry_value(self.data) == 0
    }

    /// Whether the entry marks the end of a chain.
    pub open spec fn spec_is_eof(self) -> bool {
        entry_value(self.data) >= eof_marker(self.fat)
    }

    /// The next cluster of the chain, if the entry points to one.
    pub open spec fn spec_next(self) -> Option<u32> {
        if self.spec_is_free() || self.spec_is_eof() {
            None
        } else {
            Some(entry_value(self.data))
        }
    }

    /// The entry's value without the reserved upper bits.
    pub fn value(&self) -> (v: u32)
        ensures
            v == entry_value(self.data),
    {
        let d = self.data;
        let v = d & 0x0FFFFFFF;
        assert(d & 0x0FFFFFFF == d % 0x1000_0000) by (bit_vector);
        v
    }

    /// Whether the cluster is free.
    pub fn is_free(&self) -> (b: bool)
        ensures
            b == self.spec_is_free(),
    {
        self.value() == 0
    }

    /// Whether the cluster ends its chain.
    pub fn is_eof(&self) -> (b: bool)
        ensures
            b == self.spec_is_eof(),
    {
        match self.fat {
            FatType::Fat12 => self.value() >= 0x0FF8,
            FatType::Fat16 => self.value() >= 0xFFF8,
            FatType::Fat32 => self.value() >= 0x0FFFFFF8,
        }
    }

    /// The next cluster of the chain; none for a free cluster or at the end.
    pub fn get_next(&self) -> (n: Option<u32>)
        ensures
            n == self.spec_next(),
    {
        if self.is_free() || self.is_eof() {
            return None;
        }
        Some(self.value())
    }

    /// The end-of-chain entry of a FAT type.
    pub fn eof(fat: FatType) -> (e: Self)
        ensures
            e.fat == fat,
            e.data == eof_marker(fat),
            e.spec_is_eof(),
            !e.spec_is_free(),
    {
        let v = match fat {
            FatType::Fat12 => 0x0FF8,
            FatType::Fat16 => 0xFFF8,
            FatType::Fat32 => 0x0FFFFFF8,
        };
        Self { data: v, fat }
    }
}

/// A mounted FAT volume: its boot records and cluster counts. The disk and
/// its sector cache are held by the caller, which hands the sectors that the
/// methods below name.
pub struct FAT {
    pub bios_parameter_block: BiosParameterBlock,
    pub fat_ebr: FatExtendedBootRecord,
    pub root_cluster: u32,
    pub total_clusters: u32,
}

impl FAT {
    /// The number of sectors of the root directory region (FAT32 keeps its
    /// root directory in clusters, so it has none).
    pub open spec fn spec_root_dir_sectors(&self) -> int {
        match self.fat_ebr {
            FatExtendedBootRecord::FAT16(_) => spec_root_dir_sectors_fixed(self.bios_parameter_block),
            FatExtendedBootRecord::FAT32(_) => 0,
        }
    }

    /// The first sector of the data region.
    pub open spec fn spec_first_data_sector(&self) -> int {
        let bpb = self.bios_parameter_block;
        match self.fat_ebr {
            FatExtendedBootRecord::FAT16(_) => bpb.reserved_sectors + bpb.fat_sector_cnt
                * bpb.fat_copies + self.spec_root_dir_sectors(),
            FatExtendedBootRecord::FAT32(e) => bpb.reserved_sectors + e.sectors_per_fat
                * bpb.fat_copies,
        }
    }

    /// The first sector of a data cluster (clusters are numbered from 2).
    pub open spec fn spec_cluster_start(&self, cluster: int) -> int {
        (cluster - 2) * self.bios_parameter_block.sectors_per_cluster + self.spec_first_data_sector()
    }

    /// Whether the volume's layout arithmetic is defined: a nonzero sector
    /// size, a root directory whose byte size fits 16 bits, and a data region
    /// that starts within 32-bit sector numbers.
    pub open spec fn layout_defined(&self) -> bool {
        let bpb = self.bios_parameter_block;
        &&& bpb.bytes_per_sector > 0
        &&& bpb.root_dir_entries * 32 <= u16::MAX
        &&& self.spec_first_data_sector() <= u32::MAX
    }

    /// The number of sectors of the root directory region.
    pub fn root_dir_sectors(&self) -> (n: u32)
        requires
            self.layout_defined(),
        ensures
            n == self.spec_root_dir_sectors(),
    {
        let bpb = self.bios_parameter_block;
        match self.fat_ebr {
            FatExtendedBootRecord::FAT16(_) => {
                let bytes = (bpb.root_dir_entries * 32) as u32;
                let bps = bpb.bytes_per_sector as u32;
                (bytes + bps - 1) / bps
            },
            FatExtendedBootRecord::FAT32(_) => 0,
        }
    }

    /// The first sector of the data region.
    pub fn first_data_sector(&self) -> (n: u32)
        requires
            self.layout_defined(),
        ensures
            n == self.spec_first_data_sector(),
    {
        let bpb = self.bios_parameter_block;
        match self.fat_ebr {
            FatExtendedBootRecord::FAT16(_) => {
                let r = self.root_dir_sectors();
                assert(bpb.fat_sector_cnt * bpb.fat_copies <= 65535 * 255) by (nonlinear_arith)
                    requires
                        bpb.fat_sector_cnt <= 65535,
                        bpb.fat_copies <= 255,
                ;
                bpb.reserved_sectors as u32 + bpb.fat_sector_cnt as u32 * bpb.fat_copies as u32 + r
            },
            FatExtendedBootRecord::FAT32(fat32) => {
                assert(0 <= fat32.sectors_per_fat * bpb.fat_copies) by (nonlinear_arith);
                bpb.reserved_sectors as u32 + fat32.sectors_per_fat * bpb.fat_copies as u32
            },
        }
    }

    /// The first sector of the root directory: the start of the fixed root
    /// region for FAT16, the start of the root cluster for FAT32.
    pub fn get_root_directory_sector(&self) -> (n: u32)
        requires
            self.layout_defined(),
            self.fat_ebr matches FatExtendedBootRecord::FAT32(e) ==> e.root_cluster >= 2
                && self.spec_cluster_start(e.root_cluster as int) <= u32::MAX,
        ensures
            n == (match self.fat_ebr {
                FatExtendedBootRecord::FAT16(_) => self.spec_first_data_sector()
                    - self.spec_root_dir_sectors(),
                FatExtendedBootRecord::FAT32(e) => self.spec_cluster_start(e.root_cluster as int),
            }),
    {
        match self.fat_ebr {
            FatExtendedBootRecord::FAT16(_) => self.first_data_sector() - self.root_dir_sectors(),
            FatExtendedBootRecord::FAT32(fat32) => self.get_start_sector_of_cluster(
                fat32.root_cluster,
            ),
        }
    }

    /// The first sector of a data cluster.
    pub fn get_start_sector_of_cluster(&self, cluster: u32) -> (n: u32)
        requires
            self.layout_defined(),
            cluster >= 2,
            self.spec_cluster_start(cluster as int) <= u32::MAX,
        ensures
            n == self.spec_cluster_start(cluster as int),
    {
        let spc = self.bios_parameter_block.sectors_per_cluster as u32;
        let first = self.first_data_sector();
        assert(0 <= (cluster - 2) * spc) by (nonlinear_arith)
            requires
                cluster >= 2,
        ;
        (cluster - 2) * spc + first
    }

    /// The number of bytes of an allocation-table entry: 4 for FAT32, 2
    /// otherwise.
    pub open spec fn spec_entry_size(&self) -> int {
        match self.fat_ebr {
            FatExtendedBootRecord::FAT32(_) => 4,
            FatExtendedBootRecord::FAT16(_) => 2,
        }
    }

    /// The sector of the allocation table that holds a cluster's entry.
    pub open spec fn spec_entry_sector(&self, cluster: u32) -> int {
        (cluster as int) / (512int / self.spec_entry_size()) + self.bios_parameter_block.reserved_sectors
    }

    /// The index of a cluster's entry within its allocation-table sector.
    pub open spec fn spec_entry_index(&self, cluster: u32) -> int {
        (cluster as int) % (512int / self.spec_entry_size())
    }

    /// The entry of `cluster` as the bytes `s` of its allocation-table
    /// sector hold it, little-endian.
    pub open spec fn spec_read_entry(&self, cluster: u32, s: Seq<u8>) -> u32 {
        if self.spec_entry_size() == 4 {
            seq_le32(s, 4 * self.spec_entry_index(cluster))
        } else {
            seq_le16(s, 2 * self.spec_entry_index(cluster)) as u32
        }
    }

    /// What an entry keeps of the data stored in it: all of it in FAT32,
    /// the low 16 bits otherwise.
    pub open spec fn spec_stored(&self, data: u32) -> u32 {
        if self.spec_entry_size() == 4 {
            data
        } else {
            data % 65536
        }
    }

    /// Whether the sector `after` is `before` with the entry of `cluster`
    /// set to `data`: that entry reads as what it keeps of `data`, and every
    /// other byte is unchanged.
    pub open spec fn entry_written(&self, cluster: u32, data: u32, before: Seq<u8>, after: Seq<
        u8,
    >) -> bool {
        let k = self.spec_entry_size();
        let i = self.spec_entry_index(cluster);
        &&& after.len() == before.len()
        &&& self.spec_read_entry(cluster, after) == self.spec_stored(data)
        &&& forall|j: int|
            0 <= j < before.len() && !(k * i <= j < k * i + k) ==> after[j] == before[j]
    }

    /// The allocation-table sector that holds a cluster's entry.
    pub fn cluster_entry_sector(&self, cluster: u32) -> (s: u32)
        ensures
            s == self.spec_entry_sector(cluster),
    {
        let fat_size: u32 = match self.fat_ebr.get_type() {
            FatType::Fat12 | FatType::Fat16 => 2,
            FatType::Fat32 => 4,
        };
        cluster / (512 / fat_size) + self.bios_parameter_block.reserved_sectors as u32
    }

    /// The entry of `cluster`, read from `fat_sector`, which holds the
    /// contents of sector `cluster_entry_sector(cluster)`.
    pub fn get_cluster_entry(&self, cluster: u32, fat_sector: &[u8]) -> (e: ClusterEntry)
        requires
            fat_sector@.len() == SECTOR_SIZE,
        ensures
            e.fat == self.fat_ebr.spec_type(),
            e.data == self.spec_read_entry(cluster, fat_sector@),
    {
        let fat = self.fat_ebr.get_type();
        let fat_size: u32 = match fat {
            FatType::Fat12 | FatType::Fat16 => 2,
            FatType::Fat32 => 4,
        };
        let idx = cluster % (512 / fat_size);
        let data = if fat_size == 4 {
            read_u32_le(fat_sector, (idx * 4) as usize)
        } else {
            read_u16_le(fat_sector, (idx * 2) as usize) as u32
        };
        ClusterEntry { data, fat }
    }

    /// Stores the entry of `cluster` into `fat_sector`, the contents of sector
    /// `cluster_entry_sector(cluster)`; the caller writes the sector back.
    /// A FAT16 entry keeps the low 16 bits of the data.
    pub fn set_cluster_entry(&self, cluster: u32, entry: ClusterEntry, fat_sector: &mut Vec<u8>)
        requires
            old(fat_sector)@.len() == SECTOR_SIZE,
        ensures
            self.entry_written(cluster, entry.data, old(fat_sector)@, final(fat_sector)@),
    {
        let fat = self.fat_ebr.get_type();
        let fat_size: u32 = match fat {
            FatType::Fat12 | FatType::Fat16 => 2,
            FatType::Fat32 => 4,
        };
        let idx = cluster % (512 / fat_size);
        if fat_size == 4 {
            write_u32_le(fat_sector, (idx * 4) as usize, entry.data);
        } else {
            write_u16_le(fat_sector, (idx * 2) as usize, (entry.data % 65536) as u16);
        }
    }
}

/// Where a volume's regions lie: after the reserved sectors come all the
/// copies of the allocation table, each as long as the table (the 32-bit
/// size for FAT32, the 16-bit one otherwise), then on FAT16 the fixed root
/// directory (its entries of 32 bytes rounded up to whole sectors), then
/// the data region. Cluster 2 starts the data region and each further
/// cluster follows the one before it by a cluster's sectors.
pub proof fn lemma_volume_layout(fat: FAT, cluster: int)
    requires
        cluster >= 2,
    ensures
        fat.fat_ebr matches FatExtendedBootRecord::FAT32(e) ==> fat.spec_first_data_sector()
            == fat.bios_parameter_block.reserved_sectors + fat.bios_parameter_block.fat_copies
            * e.sectors_per_fat,
        fat.fat_ebr is FAT16 ==> fat.spec_first_data_sector()
            == fat.bios_parameter_block.reserved_sectors + fat.bios_parameter_block.fat_copies
            * fat.bios_parameter_block.fat_sector_cnt + (fat.bios_parameter_block.root_dir_entries
            * 32 + fat.bios_parameter_block.bytes_per_sector - 1)
            / (fat.bios_parameter_block.bytes_per_sector as int),
        fat.spec_cluster_start(2) == fat.spec_first_data_sector(),
        fat.spec_cluster_start(cluster + 1) == fat.spec_cluster_start(cluster)
            + fat.bios_parameter_block.sectors_per_cluster,
{
    let spc = fat.bios_parameter_block.sectors_per_cluster as int;
    assert((cluster + 1 - 2) * spc == (cluster - 2) * spc + spc) by (nonlinear_arith);
    match fat.fat_ebr {
        FatExtendedBootRecord::FAT32(e) => {
            assert(e.sectors_per_fat * fat.bios_parameter_block.fat_copies
                == fat.bios_parameter_block.fat_copies * e.sectors_per_fat) by (nonlinear_arith);
        },
        FatExtendedBootRecord::FAT16(_) => {
            assert(fat.bios_parameter_block.fat_sector_cnt * fat.bios_parameter_block.fat_copies
                == fat.bios_parameter_block.fat_copies * fat.bios_parameter_block.fat_sector_cnt)
                by (nonlinear_arith);
        },
    }
}

/// Storing an entry and reading it back: the entry of the cluster written
/// reads as what it keeps of the data, and the entry of any other cluster
/// of the same sector reads as before.
pub proof fn lemma_entry_write_read(
    fat: FAT,
    cluster: u32,
    other: u32,
    data: u32,
    before: Seq<u8>,
    after: Seq<u8>,
)
    requires
        before.len() == SECTOR_SIZE,
        fat.entry_written(cluster, data, before, after),
        fat.spec_entry_index(other) != fat.spec_entry_index(cluster),
    ensures
        fat.spec_read_entry(cluster, after) == fat.spec_stored(data),
        fat.spec_read_entry(other, after) == fat.spec_read_entry(other, before),
{
    let k = fat.spec_entry_size();
    let i = fat.spec_entry_index(cluster);
    let i2 = fat.spec_entry_index(other);
    assert(0 <= i < 512int / k && 0 <= i2 < 512int / k);
    let o = k * i2;
    if k == 4 {
        assert(o + 4 <= k * i || k * i + 4 <= o);
        assert(after[o] == before[o] && after[o + 1] == before[o + 1] && after[o + 2] == before[o + 2]
            && after[o + 3] == before[o + 3]);
    } else {
        assert(o + 2 <= k * i || k * i + 2 <= o);
        assert(after[o] == before[o] && after[o + 1] == before[o + 1]);
    }
}

} // verus!
