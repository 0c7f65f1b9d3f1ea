//! The kernel's own read-only FAT driver: how it tells FAT16 from FAT32,
//! where it finds a cluster's successor, what it records of a directory
//! entry, and how it walks the sectors of a file to read a range of it.
use vstd::prelude::*;
use crate::bytes::{read_u16_le, read_u32_le, seq_le16, seq_le32};
use crate::fat::FatType;

verus! {

/// What the kernel driver records of a file: where its chain starts and
/// whether it is a folder or a file of a given size.
#[derive(Clone, Copy, Debug, PartialEq, Eq, Structural)]
pub enum DirEntryType {
    Folder,
    File(u32),
}

/// A file the kernel driver knows.
#[derive(Clone, Copy, Debug, PartialEq, Eq, Structural)]
pub struct KernelFatFile {
    pub cluster: u32,
    pub entry_type: DirEntryType,
}

/// The file count of a volume tells its type: below 4085 clusters FAT12
/// (which the kernel does not support), below 65535 FAT16, else FAT32. The
/// cluster count is the 16-bit sector count, or the 32-bit one when the
/// former gives no cluster, divided by the sectors per cluster.
pub fn kernel_fat_type(total_sectors: u16, total_sectors_ext: u32, sectors_per_cluster: u8) -> (r: (
    FatType,
    usize,
))
    requires
        sectors_per_cluster > 0,
    ensures
        r.1 == (if total_sectors as int / sectors_per_cluster as int != 0 {
            total_sectors as int / sectors_per_cluster as int
        } else {
            total_sectors_ext as int / sectors_per_cluster as int
        }),
        r.0 == if r.1 < 4085 {
            FatType::Fat12
        } else if r.1 < 65535 {
            FatType::Fat16
        } else {
            FatType::Fat32
        },
{
    let mut total = total_sectors as usize / sectors_per_cluster as usize;
    if total == 0 {
        total = total_sectors_ext as usize / sectors_per_cluster as usize;
    }
    let t = if total < 4085 {
        FatType::Fat12
    } else if total < 65535 {
        FatType::Fat16
    } else {
        FatType::Fat32
    };
    (t, total)
}

/// Where a cluster's entry in the allocation table lies: the sector (after
/// the reserved ones) and the index of the entry in it, entries being two
/// bytes on FAT16 and four on FAT32.
pub fn fat_entry_location(cluster: u32, fat32: bool, reserved_sectors: u16) -> (r: (u32, u32))
    ensures
        r.0 == cluster / (if fat32 {
            128u32
        } else {
            256u32
        }) + reserved_sectors,
        r.1 == cluster % (if fat32 {
            128u32
        } else {
            256u32
        }),
{
    let per_sector: u32 = if fat32 {
        128
    } else {
        256
    };
    (cluster / per_sector + reserved_sectors as u32, cluster % per_sector)
}

/// The successor of a cluster as the kernel driver reads it: the whole
/// entry, little-endian, without masking any bits.
pub fn next_cluster_from_sector(sector: &[u8], index: u32, fat32: bool) -> (n: u32)
    requires
        sector@.len() == 512,
        index < (if fat32 {
            128u32
        } else {
            256u32
        }),
    ensures
        fat32 ==> n == seq_le32(sector@, 4 * index),
        !fat32 ==> n == seq_le16(sector@, 2 * index),
{
    if fat32 {
        read_u32_le(sector, index as usize * 4)
    } else {
        read_u16_le(sector, index as usize * 2) as u32
    }
}

/// The first cluster of a directory entry as the kernel driver computes
/// it: the high half shifted by eight bits (not sixteen) and or-ed with the
/// low half.
pub fn entry_first_cluster(first_cluster_hi: u16, first_cluster_low: u16) -> (c: u32)
    ensures
        c == ((first_cluster_hi as u32) << 8u32) | (first_cluster_low as u32),
{
    (first_cluster_hi as u32) << 8 | first_cluster_low as u32
}

/// What the kernel driver records of a directory entry.
pub fn kernel_file_of_entry(first_cluster_hi: u16, first_cluster_low: u16, attributes: u8, size: u32) -> (f:
    KernelFatFile)
    ensures
        f.cluster == ((first_cluster_hi as u32) << 8u32) | (first_cluster_low as u32),
        f.entry_type == if attributes & 0x10 == 0x10 {
            DirEntryType::Folder
        } else {
            DirEntryType::File(size)
        },
{
    let cluster = entry_first_cluster(first_cluster_hi, first_cluster_low);
    if attributes & 0x10 == 0x10 {
        KernelFatFile { cluster, entry_type: DirEntryType::Folder }
    } else {
        KernelFatFile { cluster, entry_type: DirEntryType::File(size) }
    }
}

/// The part of a file a read asks for: nothing from or past its end;
/// else up to `len` bytes, cut at the end.
pub fn kernel_read_len(file_length: u32, offset: usize, len: usize) -> (r: Option<usize>)
    ensures
        offset >= file_length ==> r is None,
        offset < file_length ==> r == Some(
            (if len < file_length - offset {
                len as int
            } else {
                file_length - offset
            }) as usize,
        ),
{
    if offset >= file_length as usize {
        return None;
    }
    let rest = file_length as usize - offset;
    Some(
        if len < rest {
            len
        } else {
            rest
        },
    )
}

/// How many bytes the kernel driver's read of a file returns: no result for
/// a file it does not know or a folder; none at all from or past the end of
/// the file; else up to `len` bytes, cut at the end.
pub fn kernel_read_request(file: Option<KernelFatFile>, offset: usize, len: usize) -> (r: Option<
    usize,
>)
    ensures
        match file {
            None => r is None,
            Some(f) => match f.entry_type {
                DirEntryType::Folder => r is None,
                DirEntryType::File(size) => r == Some(
                    (if offset >= size {
                        0
                    } else if len < size - offset {
                        len as int
                    } else {
                        size - offset
                    }) as usize,
                ),
            },
        },
{
    match file {
        None => None,
        Some(f) => match f.entry_type {
            DirEntryType::Folder => None,
            DirEntryType::File(size) => match kernel_read_len(size, offset, len) {
                None => Some(0),
                Some(n) => Some(n),
            },
        },
    }
}

/// Where a read of a file stands: the cluster and sector it is at, the
/// sectors left in that cluster, the sectors still to skip, whether the
/// partial first sector is still to be read, and the bytes still to read.
#[derive(Clone, Copy, Debug, PartialEq, Eq, Structural)]
pub struct KernelReadState {
    pub cluster: u32,
    pub sector: u32,
    pub avail: u32,
    pub skip: u32,
    pub start_bits: u32,
    pub to_read: usize,
}

/// What a read of a file asks of the caller next.
#[derive(Clone, Copy, Debug, PartialEq, Eq, Structural)]
pub enum KernelReadStep {
    /// The cluster is used up: find its successor and its first sector and
    /// hand them to `next_cluster`.
    NeedNextCluster(u32),
    /// Read `count` sectors from `sector` and keep the bytes `from..to` of
    /// what was read.
    Read { sector: u32, count: u32, from: usize, to: usize },
    /// Whole sectors were skipped; nothing to read yet.
    Skipped,
    /// The read is complete.
    Done,
    /// The partial first sector holds more bytes than were asked for; the
    /// driver's count of bytes left would go below zero.
    Underflow,
}

/// A read of a file in the kernel driver.
pub struct KernelFileRead {
    st: KernelReadState,
    spc: u32,
    waiting: bool,
    fs: Ghost<int>,
    end: Ghost<int>,
    aligned: Ghost<bool>,
}

/// Moves on by `cnt` sectors of the current cluster.
pub open spec fn consumed(s: KernelReadState, cnt: u32) -> KernelReadState {
    KernelReadState { sector: (s.sector + cnt) as u32, avail: (s.avail - cnt) as u32, ..s }
}

impl KernelFileRead {
    /// The read's state.
    pub closed spec fn state(&self) -> KernelReadState {
        self.st
    }

    /// Whether the read waits for a cluster's successor.
    pub closed spec fn waiting(&self) -> bool {
        self.waiting
    }

    /// The sectors per cluster.
    pub closed spec fn sectors_per_cluster(&self) -> u32 {
        self.spc
    }

    /// Which sector of the file (counted along its cluster chain from 0)
    /// the read stands at.
    pub closed spec fn file_sector(&self) -> int {
        self.fs@
    }

    /// The file position the read ends at: its offset plus its length.
    pub closed spec fn read_end(&self) -> int {
        self.end@
    }

    /// Whether the read started at a sector boundary.
    pub closed spec fn aligned(&self) -> bool {
        self.aligned@
    }

    /// The read's invariant: a cluster has sectors, and the current one
    /// still has some unless a successor is awaited. A read that started at
    /// a sector boundary has no partial first sector, and while bytes remain
    /// the sectors still to skip and the bytes still to read take it from
    /// where it stands exactly to its end.
    pub open spec fn wf(&self) -> bool {
        &&& self.sectors_per_cluster() > 0
        &&& self.state().avail <= self.sectors_per_cluster()
        &&& (self.state().avail == 0 <==> self.waiting())
        &&& self.state().sector + self.state().avail <= u32::MAX
        &&& self.state().start_bits < 512
        &&& self.file_sector() >= 0
        &&& self.aligned() ==> self.state().start_bits == 0 && (self.state().to_read > 0 ==> (
        self.file_sector() + self.state().skip) * 512 + self.state().to_read == self.read_end())
    }

    /// Starts a read of `len` bytes (already cut at the end of the file)
    /// from `offset`, at the file's first cluster and its first sector.
    pub fn new(cluster: u32, first_sector: u32, sectors_per_cluster: u32, offset: usize, len: usize) -> (r: Self)
        requires
            sectors_per_cluster > 0,
            first_sector + sectors_per_cluster <= u32::MAX,
            offset / 512 <= u32::MAX,
        ensures
            r.wf(),
            r.state() == (KernelReadState {
                cluster,
                sector: first_sector,
                avail: sectors_per_cluster,
                skip: (offset / 512) as u32,
                start_bits: (offset % 512) as u32,
                to_read: len,
            }),
            r.sectors_per_cluster() == sectors_per_cluster,
            !r.waiting(),
            r.file_sector() == 0,
            r.read_end() == offset + len,
            r.aligned() == (offset % 512 == 0),
    {
        KernelFileRead {
            st: KernelReadState {
                cluster,
                sector: first_sector,
                avail: sectors_per_cluster,
                skip: (offset / 512) as u32,
                start_bits: (offset % 512) as u32,
                to_read: len,
            },
            spc: sectors_per_cluster,
            waiting: false,
            fs: Ghost(0),
            end: Ghost(offset + len),
            aligned: Ghost(offset % 512 == 0),
        }
    }

    /// The next thing to do: skip whole sectors first; then read the
    /// partial first sector, keeping its last `start_bits` bytes; then read
    /// as many sectors at once as the cluster has and the rest needs.
    /// Whenever the cluster is used up, its successor is asked for.
    pub fn step(&mut self) -> (s: KernelReadStep)
        requires
            old(self).wf(),
            !old(self).waiting(),
        ensures
            final(self).wf(),
            final(self).sectors_per_cluster() == old(self).sectors_per_cluster(),
            final(self).read_end() == old(self).read_end(),
            final(self).aligned() == old(self).aligned(),
            final(self).file_sector() == old(self).file_sector() + (final(self).state().sector
                - old(self).state().sector),
            s matches KernelReadStep::Read { count, .. } ==> final(self).file_sector()
                == old(self).file_sector() + count,
            old(self).aligned() ==> (s matches KernelReadStep::Read { from, to, .. } ==> from == 0
                && old(self).file_sector() * 512 == old(self).read_end() - old(self).state().to_read
                && final(self).state().to_read == old(self).state().to_read - to),
            ({
                let o = old(self).state();
                let n = final(self).state();
                if o.skip > 0 {
                    let m = if o.skip < o.avail {
                        o.skip
                    } else {
                        o.avail
                    };
                    &&& n == KernelReadState { skip: (o.skip - m) as u32, ..consumed(o, m) }
                    &&& if n.avail == 0 {
                        s == KernelReadStep::NeedNextCluster(o.cluster)
                    } else {
                        s == KernelReadStep::Skipped
                    }
                } else if o.start_bits > 0 {
                    if o.start_bits > o.to_read {
                        s == KernelReadStep::Underflow && n == o
                    } else {
                        &&& s == KernelReadStep::Read {
                            sector: o.sector,
                            count: 1,
                            from: (512 - o.start_bits) as usize,
                            to: 512,
                        }
                        &&& n == KernelReadState {
                            start_bits: 0,
                            to_read: (o.to_read - o.start_bits) as usize,
                            ..consumed(o, 1)
                        }
                    }
                } else if o.to_read > 0 {
                    let max_sectors = (o.to_read + 511) / 512;
                    let amount = if o.avail < max_sectors {
                        o.avail as int
                    } else {
                        max_sectors
                    };
                    let bytes = if amount * 512 < o.to_read {
                        amount * 512
                    } else {
                        o.to_read as int
                    };
                    &&& s == KernelReadStep::Read {
                        sector: o.sector,
                        count: amount as u32,
                        from: 0,
                        to: bytes as usize,
                    }
                    &&& n == KernelReadState {
                        to_read: (o.to_read - bytes) as usize,
                        ..consumed(o, amount as u32)
                    }
                } else {
                    s == KernelReadStep::Done && n == o
                }
            }),
            final(self).waiting() == (final(self).state().avail == 0),
    {
        let o = self.st;
        if o.skip > 0 {
            let m = if o.skip < o.avail {
                o.skip
            } else {
                o.avail
            };
            self.st = KernelReadState { skip: o.skip - m, sector: o.sector + m, avail: o.avail - m, ..o };
            proof {
                self.fs = Ghost(self.fs@ + m);
            }
            if self.st.avail == 0 {
                self.waiting = true;
                return KernelReadStep::NeedNextCluster(o.cluster);
            }
            return KernelReadStep::Skipped;
        }
        if o.start_bits > 0 {
            if o.start_bits as usize > o.to_read {
                return KernelReadStep::Underflow;
            }
            self.st = KernelReadState {
                start_bits: 0,
                to_read: o.to_read - o.start_bits as usize,
                sector: o.sector + 1,
                avail: o.avail - 1,
                ..o
            };
            proof {
                self.fs = Ghost(self.fs@ + 1);
            }
            if self.st.avail == 0 {
                self.waiting = true;
            }
            return KernelReadStep::Read { sector: o.sector, count: 1, from: 512 - o.start_bits as usize, to: 512 };
        }
        if o.to_read > 0 {
            let max_sectors = o.to_read / 512 + if o.to_read % 512 != 0 {
                1
            } else {
                0
            };
            assert(max_sectors == (o.to_read + 511) / 512);
            let amount: u32 = if (o.avail as usize) < max_sectors {
                o.avail
            } else {
                max_sectors as u32
            };
            let bytes: usize = if (amount as u128) * 512 < o.to_read as u128 {
                (amount as u128 * 512) as usize
            } else {
                o.to_read
            };
            self.st = KernelReadState {
                to_read: o.to_read - bytes,
                sector: o.sector + amount,
                avail: o.avail - amount,
                ..o
            };
            proof {
                self.fs = Ghost(self.fs@ + amount);
            }
            if self.st.avail == 0 {
                self.waiting = true;
            }
            return KernelReadStep::Read { sector: o.sector, count: amount, from: 0, to: bytes };
        }
        KernelReadStep::Done
    }

    /// The cluster whose successor the read waits for, if it waits.
    pub fn needs_next_cluster(&self) -> (c: Option<u32>)
        ensures
            self.waiting() ==> c == Some(self.state().cluster),
            !self.waiting() ==> c is None,
    {
        if self.waiting {
            Some(self.st.cluster)
        } else {
            None
        }
    }

    /// The successor of the used-up cluster and its first sector.
    pub fn next_cluster(&mut self, cluster: u32, first_sector: u32)
        requires
            old(self).wf(),
            old(self).waiting(),
            first_sector + old(self).sectors_per_cluster() <= u32::MAX,
        ensures
            final(self).wf(),
            !final(self).waiting(),
            final(self).sectors_per_cluster() == old(self).sectors_per_cluster(),
            final(self).state() == (KernelReadState {
                cluster,
                sector: first_sector,
                avail: old(self).sectors_per_cluster(),
                ..old(self).state()
            }),
            final(self).file_sector() == old(self).file_sector(),
            final(self).read_end() == old(self).read_end(),
            final(self).aligned() == old(self).aligned(),
    {
        self.st = KernelReadState { cluster, sector: first_sector, avail: self.spc, ..self.st };
        self.waiting = false;
    }
}

} // verus!
