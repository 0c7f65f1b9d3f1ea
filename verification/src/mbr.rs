//! The master boot record: the partition table at the end of a disk's
//! first sector.
use vstd::prelude::*;
use crate::bytes::{read_u16_le, read_u32_le, seq_le16, seq_le32};

verus! {

/// Offset of the partition table in the first sector.
pub const PARTITION_TABLE_OFFSET: usize = 446;

/// A partition table entry.
#[derive(Clone, Copy, Debug)]
pub struct PartitionTableEntry {
    pub bootable: u8,
    pub cfs: [u8; 3],
    pub partition_id: u8,
    pub end_cfs: [u8; 3],
    pub start_lba: u32,
    pub length: u32,
}

/// The partition entry whose 16 bytes start at `p`.
pub open spec fn partition_at(b: Seq<u8>, p: int) -> PartitionTableEntry {
    PartitionTableEntry {
        bootable: b[p],
        cfs: [b[p + 1], b[p + 2], b[p + 3]],
        partition_id: b[p + 4],
        end_cfs: [b[p + 5], b[p + 6], b[p + 7]],
        start_lba: seq_le32(b, p + 8),
        length: seq_le32(b, p + 12),
    }
}

/// The master boot record, without its boot code.
#[derive(Clone, Copy, Debug)]
pub struct MasterBootRecord {
    pub signature: u32,
    pub unused: u16,
    pub partitions: [PartitionTableEntry; 4],
    pub magic_number: [u8; 2],
}

impl PartitionTableEntry {
    fn from_bytes(b: &[u8], p: usize) -> (e: Self)
        requires
            p + 16 <= b@.len(),
        ensures
            e == partition_at(b@, p as int),
    {
        let _n = b.len();
        PartitionTableEntry {
            bootable: b[p],
            cfs: [b[p + 1], b[p + 2], b[p + 3]],
            partition_id: b[p + 4],
            end_cfs: [b[p + 5], b[p + 6], b[p + 7]],
            start_lba: read_u32_le(b, p + 8),
            length: read_u32_le(b, p + 12),
        }
    }

    /// Whether the partition is in use: it starts past sector 0 or is
    /// marked bootable.
    pub open spec fn spec_in_use(&self) -> bool {
        self.start_lba > 0 || self.bootable > 0
    }

    /// Whether the partition holds a file system to mount.
    pub fn in_use(&self) -> (b: bool)
        ensures
            b == self.spec_in_use(),
    {
        self.start_lba > 0 || self.bootable > 0
    }

    /// Whether the partition is marked active.
    pub fn is_bootable(&self) -> (b: bool)
        ensures
            b == (self.bootable == 0x80),
    {
        self.bootable == 0x80
    }

    /// The partition's size in MiB as the kernel reports it (sectors divided
    /// by 1024, times 512, divided by 1024).
    pub fn size_mb(&self) -> (m: u32)
        ensures
            m == self.length / 1024 * 512 / 1024,
    {
        self.length / 1024 * 512 / 1024
    }
}

impl MasterBootRecord {
    /// Decodes the record from the disk's first sector.
    pub fn from_bytes(b: &[u8]) -> (m: Self)
        requires
            b@.len() >= 512,
        ensures
            m.signature == seq_le32(b@, 440),
            m.unused == seq_le16(b@, 444),
            forall|i: int| 0 <= i < 4 ==> m.partitions[i] == partition_at(b@, 446 + 16 * i),
            m.magic_number@ == seq![b@[510], b@[511]],
    {
        let m = MasterBootRecord {
            signature: read_u32_le(b, 440),
            unused: read_u16_le(b, 444),
            partitions: [
                PartitionTableEntry::from_bytes(b, 446),
                PartitionTableEntry::from_bytes(b, 462),
                PartitionTableEntry::from_bytes(b, 478),
                PartitionTableEntry::from_bytes(b, 494),
            ],
            magic_number: [b[510], b[511]],
        };
        assert(m.magic_number@ =~= seq![b@[510], b@[511]]);
        m
    }

    /// Whether the sector ends with the boot signature 0x55 0xAA.
    pub fn has_valid_magic(&self) -> (v: bool)
        ensures
            v == (self.magic_number@ == seq![0x55u8, 0xAAu8]),
    {
        let v = self.magic_number[0] == 0x55 && self.magic_number[1] == 0xAA;
        assert(v ==> self.magic_number@ =~= seq![0x55u8, 0xAAu8]);
        v
    }

    /// The partitions in use, in table order.
    pub fn partitions_to_load(&self) -> (v: Vec<PartitionTableEntry>)
        ensures
            v@ == self.partitions@.filter(|e: PartitionTableEntry| e.spec_in_use()),
    {
        let mut v: Vec<PartitionTableEntry> = Vec::new();
        let mut i: usize = 0;
        proof {
            reveal(Seq::filter);
        }
        while i < 4
            invariant
                0 <= i <= 4,
                v@ == self.partitions@.subrange(0, i as int).filter(
                    |e: PartitionTableEntry| e.spec_in_use(),
                ),
            decreases 4 - i,
        {
            let e = self.partitions[i];
            assert(self.partitions@.subrange(0, i + 1).drop_last() =~= self.partitions@.subrange(
                0,
                i as int,
            ));
            proof {
                reveal(Seq::filter);
            }
            if e.in_use() {
                v.push(e);
            }
            i = i + 1;
        }
        assert(self.partitions@.subrange(0, 4) =~= self.partitions@);
        v
    }
}

/// A partition seen as a disk of its own: its first sector on the backing
/// disk and its length in sectors.
#[derive(Clone, Copy, Debug, PartialEq, Eq, Structural)]
pub struct FSPartitionDisk {
    pub partition_offset: u64,
    pub partition_length: u64,
}

impl FSPartitionDisk {
    /// The disk of a partition.
    pub fn new(partition_offset: u64, partition_length: u64) -> (d: Self)
        ensures
            d.partition_offset == partition_offset,
            d.partition_length == partition_length,
    {
        FSPartitionDisk { partition_offset, partition_length }
    }

    /// The sector of the backing disk where a read of `sector_count`
    /// sectors from `sector` of the partition starts. The read must lie
    /// within the partition.
    pub fn read_start(&self, sector: u64, sector_count: u64) -> (s: u64)
        requires
            sector + sector_count <= self.partition_length,
            sector + self.partition_offset <= u64::MAX,
        ensures
            s == sector + self.partition_offset,
    {
        sector + self.partition_offset
    }
}

/// The partitions the kernel mounts: every partition that starts past
/// sector 0 is mounted, whatever its bootable byte; so is every partition
/// marked bootable; and a partition mounted starts past sector 0 or is
/// marked bootable.
pub proof fn lemma_mounted_partitions(m: MasterBootRecord)
    ensures
        ({
            let mounted = m.partitions@.filter(|e: PartitionTableEntry| e.spec_in_use());
            &&& forall|i: int|
                0 <= i < 4 && (#[trigger] m.partitions@[i]).start_lba > 0 ==> mounted.contains(
                    m.partitions@[i],
                )
            &&& forall|i: int|
                0 <= i < 4 && (#[trigger] m.partitions@[i]).bootable > 0 ==> mounted.contains(
                    m.partitions@[i],
                )
            &&& forall|j: int|
                0 <= j < mounted.len() ==> (#[trigger] mounted[j]).start_lba > 0 || mounted[j].bootable
                    > 0
        }),
{
    let pred = |e: PartitionTableEntry| e.spec_in_use();
    let mounted = m.partitions@.filter(pred);
    assert forall|i: int| 0 <= i < 4 && pred(#[trigger] m.partitions@[i]) implies mounted.contains(
        m.partitions@[i],
    ) by {
        m.partitions@.lemma_filter_contains(pred, i);
    }
    assert forall|j: int| 0 <= j < mounted.len() implies (#[trigger] mounted[j]).start_lba > 0
        || mounted[j].bootable > 0 by {
        m.partitions@.lemma_filter_pred(pred, j);
    }
}

} // verus!
