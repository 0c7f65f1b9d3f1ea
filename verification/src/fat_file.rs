//! Walking cluster chains and planning the sector transfers of file reads
//! and writes on a FAT volume.
use vstd::prelude::*;
use crate::fat::{ClusterEntry, FAT, FatType};

verus! {

/// Walks a cluster chain: each step hands out the current cluster and moves
/// to the one its allocation-table entry names.
pub struct ClusterIterator {
    cluster: Option<u32>,
}

impl ClusterIterator {
    /// The cluster that the next step hands out.
    pub closed spec fn current(&self) -> Option<u32> {
        self.cluster
    }

    /// A walk that starts at `cluster`.
    pub fn new(cluster: u32) -> (it: Self)
        ensures
            it.current() == Some(cluster),
    {
        Self { cluster: Some(cluster) }
    }

    /// The cluster that the next step hands out; the caller reads its entry.
    pub fn peek(&self) -> (c: Option<u32>)
        ensures
            c == self.current(),
    {
        self.cluster
    }

    /// Hands out the current cluster and moves to the next one, given the
    /// current cluster's entry; the walk ends after a free or end-of-chain
    /// entry.
    pub fn next(&mut self, entry: &ClusterEntry) -> (c: Option<u32>)
        ensures
            c == old(self).current(),
            final(self).current() == (if old(self).current() is Some {
                entry.spec_next()
            } else {
                None
            }),
    {
        match self.cluster {
            Some(cluster) => {
                self.cluster = entry.get_next();
                Some(cluster)
            },
            None => None,
        }
    }
}

/// Scans the allocation table for free clusters, from cluster 2 up to the
/// volume's last cluster.
pub struct FreeClusterIterator {
    cluster: u32,
    total_clusters: u32,
}

impl FreeClusterIterator {
    /// The next cluster to examine.
    pub closed spec fn position(&self) -> u32 {
        self.cluster
    }

    /// The last cluster of the volume.
    pub closed spec fn last(&self) -> u32 {
        self.total_clusters
    }

    /// Whether the scan is within bounds.
    pub closed spec fn wf(&self) -> bool {
        &&& self.total_clusters < u32::MAX
        &&& self.cluster <= self.total_clusters + 1
    }

    /// A scan of the whole volume.
    pub fn new(fat: &FAT) -> (it: Self)
        requires
            2 <= fat.total_clusters < u32::MAX,
        ensures
            it.wf(),
            it.position() == 2,
            it.last() == fat.total_clusters,
    {
        Self { cluster: 2, total_clusters: fat.total_clusters }
    }

    /// The next cluster to examine, if the scan has not passed the last
    /// cluster; the caller reads its entry and calls again until one is free.
    pub fn next_candidate(&mut self) -> (c: Option<u32>)
        requires
            old(self).wf(),
        ensures
            final(self).wf(),
            final(self).last() == old(self).last(),
            old(self).position() > old(self).last() ==> c is None && final(self).position()
                == old(self).position(),
            old(self).position() <= old(self).last() ==> c == Some(old(self).position())
                && final(self).position() == old(self).position() + 1,
    {
        if self.cluster > self.total_clusters {
            return None;
        }
        let cluster = self.cluster;
        self.cluster = self.cluster + 1;
        Some(cluster)
    }
}

/// The byte range of a read: from `offset` up to `offset + len`, cut at the
/// file size.
pub open spec fn spec_read_end(offset: int, len: int, size: int) -> int {
    if offset + len < size {
        offset + len
    } else {
        size
    }
}

/// The bytes of a read request that can be served: the request cut at the
/// file's end. The request must not start past the end of the file.
pub fn file_read_range(offset: usize, len: usize, size: u32) -> (r: (usize, usize))
    requires
        offset + len <= usize::MAX,
        offset <= size,
    ensures
        r.0 == offset,
        r.1 == spec_read_end(offset as int, len as int, size as int),
        r.0 <= r.1,
{
    let read_end = if offset + len < size as usize {
        offset + len
    } else {
        size as usize
    };
    (offset, read_end)
}

/// The transfer of one cluster's share of a read or write: the byte range
/// of the file, which sector of the cluster to start at, how many sectors
/// to move and where in the first sector the bytes start.
#[derive(Clone, Copy, Debug, PartialEq, Eq, Structural)]
pub struct ClusterChunk {
    pub start: usize,
    pub end: usize,
    pub sector_in_cluster: usize,
    pub sector_count: usize,
    pub offset_in_sector: usize,
}

pub open spec fn max(a: int, b: int) -> int {
    if a < b {
        b
    } else {
        a
    }
}

pub open spec fn min(a: int, b: int) -> int {
    if a < b {
        a
    } else {
        b
    }
}

/// Where a transfer stands before cluster `i`: the requested range
/// `[offset, end)` minus what lies before the cluster.
pub open spec fn cursor_before(offset: int, end: int, cluster_bytes: int, i: int) -> int {
    max(offset, min(end, i * cluster_bytes))
}

/// The share of cluster `i` in the transfer of `[cursor, end)`: the part of
/// the cluster's bytes `[i * C, (i + 1) * C)` from the cursor on, if any.
pub open spec fn chunk_range(cursor: int, end: int, cluster_bytes: int, i: int) -> Option<
    (int, int),
> {
    let s = max(cursor, i * cluster_bytes);
    let e = min(end, (i + 1) * cluster_bytes);
    if s <= e {
        Some((s, e))
    } else {
        None
    }
}

/// The share of the cluster at position `index` of a file's chain in the
/// transfer of the bytes `[cursor, end)`, with `sectors_per_cluster` sectors
/// of 512 bytes per cluster. None when the cluster holds none of them.
pub fn plan_cluster_chunk(index: usize, sectors_per_cluster: usize, cursor: usize, end: usize) -> (r:
    Option<ClusterChunk>)
    requires
        sectors_per_cluster > 0,
        sectors_per_cluster * 512 <= usize::MAX,
        (index + 1) * (sectors_per_cluster * 512) <= usize::MAX,
    ensures
        ({
            let c = sectors_per_cluster * 512;
            match chunk_range(cursor as int, end as int, c, index as int) {
                None => r is None,
                Some((s, e)) => r matches Some(k) && {
                    &&& k.start == s
                    &&& k.end == e
                    &&& k.sector_in_cluster == (s / 512) % (sectors_per_cluster as int)
                    &&& k.offset_in_sector == s % 512
                    &&& k.sector_count == (e + 511) / 512 - s / 512
                    &&& k.offset_in_sector + (e - s) <= k.sector_count * 512
                    &&& s < (index + 1) * c ==> index * c + k.sector_in_cluster * 512
                        + k.offset_in_sector == s
                },
            }
        }),
{
    let c = sectors_per_cluster * 512;
    assert(0 <= index * c && index * c + c == (index + 1) * c) by (nonlinear_arith)
        requires
            c >= 0,
            index >= 0,
    ;
    let sector_start_bytes = index * c;
    let sector_end_bytes = sector_start_bytes + c;
    let r_start = if cursor > sector_start_bytes {
        cursor
    } else {
        sector_start_bytes
    };
    let r_end = if end < sector_end_bytes {
        end
    } else {
        sector_end_bytes
    };
    if r_start <= r_end && r_start >= sector_start_bytes && r_end <= sector_end_bytes {
        let r_start_sector = r_start / 512;
        let r_end_sector = r_end / 512 + if r_end % 512 != 0 {
            1
        } else {
            0
        };
        assert(r_end_sector == (r_end + 511) / 512);
        let sector_in_cluster = r_start_sector % sectors_per_cluster;
        proof {
            let spc = sectors_per_cluster as int;
            let rs = r_start_sector as int;
            let i = index as int;
            assert(r_start == rs * 512 + r_start % 512);
            if r_start < sector_end_bytes {
                assert(i * spc <= rs < (i + 1) * spc) by (nonlinear_arith)
                    requires
                        c == spc * 512,
                        sector_start_bytes == i * c,
                        sector_end_bytes == (i + 1) * c,
                        sector_start_bytes <= r_start < sector_end_bytes,
                        r_start == rs * 512 + r_start % 512,
                        0 <= r_start % 512 < 512,
                ;
                assert(rs % spc == rs - i * spc) by (nonlinear_arith)
                    requires
                        i * spc <= rs < (i + 1) * spc,
                        spc > 0,
                ;
                assert(i * c + (rs - i * spc) * 512 + r_start % 512 == r_start) by (
                nonlinear_arith)
                    requires
                        c == spc * 512,
                        r_start == rs * 512 + r_start % 512,
                ;
            }
        }
        Some(
            ClusterChunk {
                start: r_start,
                end: r_end,
                sector_in_cluster,
                sector_count: r_end_sector - r_start_sector,
                offset_in_sector: r_start % 512,
            },
        )
    } else {
        None
    }
}

/// The transfers of a file's clusters tile the requested bytes: walking the
/// chain from cluster 0 with the cursor at the request's start, the share of
/// cluster `i` begins where the transfer stands before it and ends where it
/// stands before cluster `i + 1`; a cluster with no share leaves the cursor
/// where it was. The cursor starts at `offset` and reaches `end` once the
/// clusters cover it.
pub proof fn lemma_chunks_tile_request(offset: int, end: int, cluster_bytes: int, i: int)
    requires
        0 <= offset <= end,
        cluster_bytes > 0,
        i >= 0,
    ensures
        cursor_before(offset, end, cluster_bytes, 0) == offset,
        i * cluster_bytes >= end ==> cursor_before(offset, end, cluster_bytes, i) == end,
        match chunk_range(cursor_before(offset, end, cluster_bytes, i), end, cluster_bytes, i) {
            Some((s, e)) => s == cursor_before(offset, end, cluster_bytes, i) && e
                == cursor_before(offset, end, cluster_bytes, i + 1),
            None => cursor_before(offset, end, cluster_bytes, i) == cursor_before(
                offset,
                end,
                cluster_bytes,
                i + 1,
            ),
        },
{
    assert(i * cluster_bytes <= (i + 1) * cluster_bytes) by (nonlinear_arith)
        requires
            cluster_bytes > 0,
    ;
    assert(0 * cluster_bytes == 0);
}

/// Whether writing the share of a cluster must first read sectors back: when
/// it starts or ends inside a sector. For at most two sectors the whole span
/// is read; otherwise only the first sector (when the start is unaligned)
/// and the last (when the end is unaligned).
#[derive(Clone, Copy, Debug, PartialEq, Eq, Structural)]
pub enum WritePrefill {
    Aligned,
    Whole,
    Ends { first: bool, last: bool },
}

/// How a write of the share `k` fills the sectors it touches before the
/// new bytes go in.
pub fn plan_write_prefill(k: &ClusterChunk) -> (p: WritePrefill)
    ensures
        ({
            let off_start = k.start % 512;
            let off_end = k.end % 512;
            if off_start == 0 && off_end == 0 {
                p == WritePrefill::Aligned
            } else if k.sector_count <= 2 {
                p == WritePrefill::Whole
            } else {
                p == WritePrefill::Ends { first: off_start > 0, last: off_end > 0 }
            }
        }),
{
    let off_start = k.start & 511;
    let off_end = k.end & 511;
    let s = k.start;
    let e = k.end;
    assert(s & 511 == s % 512) by (bit_vector);
    assert(e & 511 == e % 512) by (bit_vector);
    if off_start > 0 || off_end > 0 {
        if k.sector_count <= 2 {
            WritePrefill::Whole
        } else {
            WritePrefill::Ends { first: off_start > 0, last: off_end > 0 }
        }
    } else {
        WritePrefill::Aligned
    }
}

/// The number of clusters a file of `write_end` bytes needs.
pub fn clusters_needed(write_end: usize, sectors_per_cluster: usize) -> (n: usize)
    requires
        sectors_per_cluster > 0,
        sectors_per_cluster * 512 <= usize::MAX,
    ensures
        n == (write_end + sectors_per_cluster * 512 - 1) / (sectors_per_cluster * 512),
{
    let c = sectors_per_cluster * 512;
    assert(write_end / c + (if write_end % c != 0 { 1int } else { 0int }) == (write_end + c - 1) / (c as int))
        by (nonlinear_arith)
        requires
            c > 0,
    ;
    assert(write_end / c < usize::MAX) by (nonlinear_arith)
        requires
            c >= 512,
    ;
    write_end / c + if write_end % c != 0 {
        1
    } else {
        0
    }
}


/// What a write of `len` bytes at `offset` does to a file's directory entry
/// before any data moves: whether the file grows (its size is below the
/// write's end, taken as a 32-bit size), its size afterwards, whether it
/// first needs a cluster of its own, and how many clusters its chain must
/// then reach (the count taken as 32 bits, as the entry stores it).
#[derive(Clone, Copy, Debug, PartialEq, Eq, Structural)]
pub struct WritePlan {
    pub grow: bool,
    pub new_size: u32,
    pub alloc_first: bool,
    pub max_cluster: u32,
}

/// The end of a write as the 32-bit size of a directory entry keeps it.
pub open spec fn size_field(end: int) -> u32 {
    (end % 0x1_0000_0000) as u32
}

/// Plans a write of `len` bytes at `offset` to a file of `size` bytes whose
/// chain starts at `start_cluster` (0 for none): the file grows exactly when
/// its size is below the write's end, and then its size becomes that end;
/// a file without a cluster gets its first one; the chain must reach as many
/// clusters as the new end needs.
pub fn plan_file_write(
    size: u32,
    start_cluster: u32,
    offset: usize,
    len: usize,
    sectors_per_cluster: usize,
) -> (p: WritePlan)
    requires
        offset + len <= usize::MAX,
        sectors_per_cluster > 0,
        sectors_per_cluster * 512 <= usize::MAX,
    ensures
        p.grow == (size < size_field(offset + len)),
        p.new_size == if p.grow {
            size_field(offset + len)
        } else {
            size
        },
        p.alloc_first == (p.grow && start_cluster == 0),
        p.grow ==> p.max_cluster == size_field(
            (offset + len + sectors_per_cluster * 512 - 1) / (sectors_per_cluster * 512),
        ),
        !p.grow ==> p.max_cluster == 0,
{
    let write_end = offset + len;
    let end32 = write_end as u32;
    assert(end32 == size_field(write_end as int)) by (bit_vector)
        requires
            end32 == write_end as u32,
    ;
    if size < end32 {
        let n = clusters_needed(write_end, sectors_per_cluster);
        let n32 = n as u32;
        assert(n32 == size_field(n as int)) by (bit_vector)
            requires
                n32 == n as u32,
        ;
        WritePlan { grow: true, new_size: end32, alloc_first: start_cluster == 0, max_cluster: n32 }
    } else {
        WritePlan { grow: false, new_size: size, alloc_first: false, max_cluster: 0 }
    }
}

/// The file's bytes padded or cut to `len` bytes; bytes past its end are
/// zero until written.
pub open spec fn padded(file: Seq<u8>, len: int) -> Seq<u8> {
    Seq::new(len as nat, |j: int| if j < file.len() { file[j] } else { 0u8 })
}

/// The file's bytes after `data` is written at `offset`: the data in
/// `[offset, offset + data.len())`, the old bytes elsewhere, the file
/// extended to the write's end when that lies past it.
pub open spec fn written(file: Seq<u8>, offset: int, data: Seq<u8>) -> Seq<u8> {
    let end = offset + data.len();
    Seq::new(
        max(file.len() as int, end) as nat,
        |j: int| if offset <= j < end { data[j - offset] } else { file[j] },
    )
}

/// The bytes `[s, e)` of `file` replaced by the data bytes that belong
/// there, the data starting at file position `offset`.
pub open spec fn put_range(file: Seq<u8>, s: int, e: int, offset: int, data: Seq<u8>) -> Seq<u8> {
    Seq::new(file.len(), |j: int| if s <= j < e { data[j - offset] } else { file[j] })
}

/// The file's bytes after the shares of clusters `0..i` of the chain are
/// written, each cluster's share as `plan_cluster_chunk` gives it for the
/// cursor where the write stands before that cluster.
pub open spec fn chunks_applied(file: Seq<u8>, offset: int, data: Seq<u8>, cluster_bytes: int, i: int) -> Seq<u8>
    decreases i,
{
    let end = offset + data.len();
    if i <= 0 {
        padded(file, max(file.len() as int, end))
    } else {
        let prev = chunks_applied(file, offset, data, cluster_bytes, i - 1);
        match chunk_range(cursor_before(offset, end, cluster_bytes, i - 1), end, cluster_bytes, i - 1) {
            Some((s, e)) => put_range(prev, s, e, offset, data),
            None => prev,
        }
    }
}

/// Where the write stands after the first `i` clusters: data up to the
/// cursor, the padded old bytes elsewhere.
proof fn lemma_chunks_applied_prefix(file: Seq<u8>, offset: int, data: Seq<u8>, cluster_bytes: int, i: int)
    requires
        0 <= offset <= file.len(),
        cluster_bytes > 0,
        i >= 0,
    ensures
        chunks_applied(file, offset, data, cluster_bytes, i) == Seq::new(
            max(file.len() as int, offset + data.len()) as nat,
            |j: int|
                if offset <= j < cursor_before(offset, offset + data.len(), cluster_bytes, i) {
                    data[j - offset]
                } else {
                    padded(file, max(file.len() as int, offset + data.len()))[j]
                },
        ),
    decreases i,
{
    let end = offset + data.len();
    let l = max(file.len() as int, end);
    if i == 0 {
        lemma_chunks_tile_request(offset, end, cluster_bytes, 0);
        assert(chunks_applied(file, offset, data, cluster_bytes, 0) =~= Seq::new(
            l as nat,
            |j: int|
                if offset <= j < cursor_before(offset, end, cluster_bytes, 0) {
                    data[j - offset]
                } else {
                    padded(file, l)[j]
                },
        ));
    } else {
        lemma_chunks_applied_prefix(file, offset, data, cluster_bytes, i - 1);
        lemma_chunks_tile_request(offset, end, cluster_bytes, i - 1);
        let c0 = cursor_before(offset, end, cluster_bytes, i - 1);
        let c1 = cursor_before(offset, end, cluster_bytes, i);
        assert(offset <= c0 <= c1 <= end) by {
            assert((i - 1) * cluster_bytes <= i * cluster_bytes) by (nonlinear_arith)
                requires
                    cluster_bytes > 0,
            ;
        }
        assert(chunks_applied(file, offset, data, cluster_bytes, i) =~= Seq::new(
            l as nat,
            |j: int|
                if offset <= j < c1 {
                    data[j - offset]
                } else {
                    padded(file, l)[j]
                },
        ));
    }
}

/// Writing the shares of the chain's clusters, one cluster after another,
/// puts the data at its place and leaves every other byte of the file as it
/// was, once the clusters cover the write's end: the file then holds
/// `written(file, offset, data)`. The write starts within the file.
pub proof fn lemma_write_chunks_bytes(file: Seq<u8>, offset: int, data: Seq<u8>, cluster_bytes: int, n: int)
    requires
        0 <= offset <= file.len(),
        cluster_bytes > 0,
        n >= 0,
        n * cluster_bytes >= offset + data.len(),
    ensures
        chunks_applied(file, offset, data, cluster_bytes, n) == written(file, offset, data),
{
    let end = offset + data.len();
    lemma_chunks_applied_prefix(file, offset, data, cluster_bytes, n);
    lemma_chunks_tile_request(offset, end, cluster_bytes, n);
    assert(chunks_applied(file, offset, data, cluster_bytes, n) =~= written(file, offset, data));
}

/// What growing a file's cluster chain asks of the caller next.
#[derive(Clone, Copy, Debug)]
pub enum GrowStep {
    /// Read the entry of this cluster and hand it to `entry_read`.
    Read(u32),
    /// Find a free cluster and hand it to `allocated`.
    Allocate,
    /// Write this entry for this cluster; the growth is over.
    WriteEof { cluster: u32, entry: ClusterEntry },
    /// The growth is over.
    Done,
}

/// Where the growth stands.
#[derive(Clone, Copy, Debug, PartialEq, Eq, Structural)]
pub enum GrowPhase {
    Stepping,
    AwaitRead,
    AwaitFree,
    Finished,
}

/// Grows a file's cluster chain to a number of clusters: the chain is
/// followed from its first cluster; where it ends early, free clusters are
/// linked on; the last cluster is marked as the end when its entry is free.
pub struct ChainGrowth {
    remaining: u32,
    last: u32,
    entry: ClusterEntry,
    phase: GrowPhase,
}

impl ChainGrowth {
    /// Steps still to take.
    pub closed spec fn spec_remaining(&self) -> u32 {
        self.remaining
    }

    /// The last cluster reached.
    pub closed spec fn spec_last(&self) -> u32 {
        self.last
    }

    /// The entry of the last cluster, as far as known.
    pub closed spec fn spec_entry(&self) -> ClusterEntry {
        self.entry
    }

    /// Where the growth stands.
    pub closed spec fn spec_phase(&self) -> GrowPhase {
        self.phase
    }

    /// Starts at the first cluster and its entry, to reach `max_cluster`
    /// clusters.
    pub fn new(start_cluster: u32, entry: ClusterEntry, max_cluster: u32) -> (g: Self)
        ensures
            g.spec_remaining() == if max_cluster > 0 {
                max_cluster - 1
            } else {
                0
            },
            g.spec_last() == start_cluster,
            g.spec_entry() == entry,
            g.spec_phase() == GrowPhase::Stepping,
    {
        ChainGrowth {
            remaining: if max_cluster > 0 {
                max_cluster - 1
            } else {
                0
            },
            last: start_cluster,
            entry,
            phase: GrowPhase::Stepping,
        }
    }

    /// The next thing to do: with steps left, follow the chain to the next
    /// cluster when the entry names one, else ask for a free cluster; with
    /// none left, mark the last cluster as the end when its entry is free.
    pub fn step(&mut self) -> (s: GrowStep)
        requires
            old(self).spec_phase() == GrowPhase::Stepping,
        ensures
            old(self).spec_remaining() == 0 ==> final(self).spec_phase() == GrowPhase::Finished
                && final(self).spec_last() == old(self).spec_last() && if old(
                self,
            ).spec_entry().spec_is_free() {
                s matches GrowStep::WriteEof { cluster, entry } && cluster == old(self).spec_last()
                    && entry.fat == old(self).spec_entry().fat && entry.spec_is_eof()
            } else {
                s is Done
            },
            old(self).spec_remaining() > 0 ==> final(self).spec_remaining() == old(
                self,
            ).spec_remaining() - 1 && match old(self).spec_entry().spec_next() {
                Some(n) => s matches GrowStep::Read(c) && c == n && final(self).spec_last() == n
                    && final(self).spec_phase() == GrowPhase::AwaitRead,
                None => s is Allocate && final(self).spec_last() == old(self).spec_last()
                    && final(self).spec_phase() == GrowPhase::AwaitFree,
            },
    {
        if self.remaining == 0 {
            self.phase = GrowPhase::Finished;
            if self.entry.is_free() {
                return GrowStep::WriteEof { cluster: self.last, entry: ClusterEntry::eof(self.entry.fat) };
            }
            return GrowStep::Done;
        }
        self.remaining = self.remaining - 1;
        match self.entry.get_next() {
            Some(n) => {
                self.last = n;
                self.phase = GrowPhase::AwaitRead;
                GrowStep::Read(n)
            },
            None => {
                self.phase = GrowPhase::AwaitFree;
                GrowStep::Allocate
            },
        }
    }

    /// The entry of the cluster that `step` asked to read.
    pub fn entry_read(&mut self, entry: ClusterEntry)
        requires
            old(self).spec_phase() == GrowPhase::AwaitRead,
        ensures
            final(self).spec_entry() == entry,
            final(self).spec_last() == old(self).spec_last(),
            final(self).spec_remaining() == old(self).spec_remaining(),
            final(self).spec_phase() == GrowPhase::Stepping,
    {
        self.entry = entry;
        self.phase = GrowPhase::Stepping;
    }

    /// The free cluster found: the last cluster's entry now names it and
    /// must be written; the free cluster becomes the last, with a free entry.
    pub fn allocated(&mut self, next: u32) -> (w: (u32, ClusterEntry))
        requires
            old(self).spec_phase() == GrowPhase::AwaitFree,
        ensures
            w.0 == old(self).spec_last(),
            w.1.data == next,
            w.1.fat == old(self).spec_entry().fat,
            final(self).spec_last() == next,
            final(self).spec_entry().data == 0,
            final(self).spec_entry().fat == old(self).spec_entry().fat,
            final(self).spec_entry().spec_is_free(),
            final(self).spec_remaining() == old(self).spec_remaining(),
            final(self).spec_phase() == GrowPhase::Stepping,
    {
        let link = ClusterEntry { data: next, fat: self.entry.fat };
        let w = (self.last, link);
        self.last = next;
        self.entry = ClusterEntry { data: 0, fat: self.entry.fat };
        self.phase = GrowPhase::Stepping;
        w
    }
}

/// The entry a file's first cluster starts from when the file has none
/// yet: a free entry of the volume's type.
pub fn first_cluster_entry(fat: FatType) -> (e: ClusterEntry)
    ensures
        e.data == 0,
        e.fat == fat,
        e.spec_is_free(),
{
    ClusterEntry { data: 0, fat }
}

} // verus!
