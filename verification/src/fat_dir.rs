//! Directory entries of a FAT volume and the parsing of directory sectors
//! into named files, long file names included.
use vstd::prelude::*;
use hashbrown::HashMap;
use crate::bytes::{read_u16_le, read_u32_le, seq_le16, seq_le32};
use crate::fat::DIR_ENTRY_SIZE;
use crate::text::{
    decode_utf16_lossy, str_trim, string_push_str, trim, utf16_lossy, utf8_lossy,
    utf8_lossy_text,
};

verus! {

/// Attribute value that marks a long-file-name entry.
pub const ATTR_LONG_NAME: u8 = 0x0F;

/// Attribute bit of a directory.
pub const ATTR_DIRECTORY: u8 = 0x10;

/// A 32-byte directory entry.
pub struct DirectoryEntry {
    pub name: [u8; 8],
    pub ext: [u8; 3],
    pub attributes: u8,
    pub reserved: u8,
    pub c_time_tenth: u8,
    pub c_time: u16,
    pub c_date: u16,
    pub a_time: u16,
    pub first_cluster_hi: u16,
    pub w_time: u16,
    pub w_date: u16,
    pub first_cluster_low: u16,
    pub size: u32,
}

/// Whether the directory entry is the one encoded in the 32 bytes `b`.
pub open spec fn dir_entry_decodes(e: DirectoryEntry, b: Seq<u8>) -> bool {
    &&& e.name@ == b.subrange(0, 8)
    &&& e.ext@ == b.subrange(8, 11)
    &&& e.attributes == b[11]
    &&& e.reserved == b[12]
    &&& e.c_time_tenth == b[13]
    &&& e.c_time == seq_le16(b, 14)
    &&& e.c_date == seq_le16(b, 16)
    &&& e.a_time == seq_le16(b, 18)
    &&& e.first_cluster_hi == seq_le16(b, 20)
    &&& e.w_time == seq_le16(b, 22)
    &&& e.w_date == seq_le16(b, 24)
    &&& e.first_cluster_low == seq_le16(b, 26)
    &&& e.size == seq_le32(b, 28)
}

fn copy_name(b: &[u8], off: usize) -> (a: [u8; 8])
    requires
        off + 8 <= b@.len(),
    ensures
        a@ == b@.subrange(off as int, off + 8),
{
    let a = [
        b[off],
        b[off + 1],
        b[off + 2],
        b[off + 3],
        b[off + 4],
        b[off + 5],
        b[off + 6],
        b[off + 7],
    ];
    assert(a@ =~= b@.subrange(off as int, off + 8));
    a
}

fn copy_ext(b: &[u8], off: usize) -> (a: [u8; 3])
    requires
        off + 3 <= b@.len(),
    ensures
        a@ == b@.subrange(off as int, off + 3),
{
    let a = [b[off], b[off + 1], b[off + 2]];
    assert(a@ =~= b@.subrange(off as int, off + 3));
    a
}

impl DirectoryEntry {
    /// The first cluster, from its high and low halves.
    pub open spec fn spec_cluster(&self) -> u32 {
        (self.first_cluster_hi * 65536 + self.first_cluster_low) as u32
    }

    /// Decodes the entry at byte `off` of a directory sector.
    pub fn from_bytes(b: &[u8], off: usize) -> (e: Self)
        requires
            off + DIR_ENTRY_SIZE <= b@.len(),
        ensures
            dir_entry_decodes(e, b@.subrange(off as int, off + 32)),
    {
        let _n = b.len();
        let e = DirectoryEntry {
            name: copy_name(b, off),
            ext: copy_ext(b, off + 8),
            attributes: b[off + 11],
            reserved: b[off + 12],
            c_time_tenth: b[off + 13],
            c_time: read_u16_le(b, off + 14),
            c_date: read_u16_le(b, off + 16),
            a_time: read_u16_le(b, off + 18),
            first_cluster_hi: read_u16_le(b, off + 20),
            w_time: read_u16_le(b, off + 22),
            w_date: read_u16_le(b, off + 24),
            first_cluster_low: read_u16_le(b, off + 26),
            size: read_u32_le(b, off + 28),
        };
        let ghost s = b@.subrange(off as int, off + 32);
        assert(e.name@ =~= s.subrange(0, 8));
        assert(e.ext@ =~= s.subrange(8, 11));
        e
    }

    /// The first cluster of the file.
    pub fn cluster(&self) -> (c: u32)
        ensures
            c == self.spec_cluster(),
    {
        let hi = self.first_cluster_hi as u32;
        let lo = self.first_cluster_low as u32;
        assert((hi << 16) | lo == hi * 65536 + lo) by (bit_vector)
            requires
                hi < 65536,
                lo < 65536,
        ;
        (hi << 16) | lo
    }

    /// Points the entry at another first cluster.
    pub fn set_cluster(&mut self, val: u32)
        ensures
            final(self).first_cluster_hi == val / 65536,
            final(self).first_cluster_low == val % 65536,
            final(self).spec_cluster() == val,
            final(self).name == old(self).name,
            final(self).ext == old(self).ext,
            final(self).attributes == old(self).attributes,
            final(self).size == old(self).size,
            final(self).reserved == old(self).reserved,
            final(self).c_time_tenth == old(self).c_time_tenth,
            final(self).c_time == old(self).c_time,
            final(self).c_date == old(self).c_date,
            final(self).a_time == old(self).a_time,
            final(self).w_time == old(self).w_time,
            final(self).w_date == old(self).w_date,
    {
        assert((val >> 16) as u16 == val / 65536) by (bit_vector);
        assert(val as u16 == val % 65536) by (bit_vector);
        self.first_cluster_hi = (val >> 16) as u16;
        self.first_cluster_low = val as u16;
    }
}

/// A long-file-name entry, which lays over a directory entry.
pub struct LongFileName {
    pub order: u8,
    pub chars_1: [u16; 5],
    pub attribute: u8,
    pub entry_type: u8,
    pub checksum: u8,
    pub chars_2: [u16; 6],
    pub zero: u16,
    pub chars_3: [u16; 2],
}

/// The thirteen UTF-16 units of a long-file-name entry, in order.
pub open spec fn lfn_units(b: Seq<u8>) -> Seq<u16> {
    Seq::new(
        13,
        |i: int|
            if i < 5 {
                seq_le16(b, 1 + 2 * i)
            } else if i < 11 {
                seq_le16(b, 14 + 2 * (i - 5))
            } else {
                seq_le16(b, 28 + 2 * (i - 11))
            },
    )
}

/// The units before the first NUL.
pub open spec fn take_until_nul(u: Seq<u16>) -> Seq<u16>
    decreases u.len(),
{
    if u.len() == 0 || u[0] == 0 {
        Seq::empty()
    } else {
        seq![u[0]] + take_until_nul(u.drop_first())
    }
}

impl LongFileName {
    /// All thirteen name units of the entry.
    pub open spec fn spec_units(&self) -> Seq<u16> {
        self.chars_1@ + self.chars_2@ + self.chars_3@
    }

    /// Decodes the long-file-name entry at byte `off` of a directory sector.
    pub fn from_bytes(b: &[u8], off: usize) -> (l: Self)
        requires
            off + DIR_ENTRY_SIZE <= b@.len(),
        ensures
            l.spec_units() == lfn_units(b@.subrange(off as int, off + 32)),
            l.order == b@[off as int],
            l.attribute == b@[off + 11],
    {
        let _n = b.len();
        let l = LongFileName {
            order: b[off],
            chars_1: [
                read_u16_le(b, off + 1),
                read_u16_le(b, off + 3),
                read_u16_le(b, off + 5),
                read_u16_le(b, off + 7),
                read_u16_le(b, off + 9),
            ],
            attribute: b[off + 11],
            entry_type: b[off + 12],
            checksum: b[off + 13],
            chars_2: [
                read_u16_le(b, off + 14),
                read_u16_le(b, off + 16),
                read_u16_le(b, off + 18),
                read_u16_le(b, off + 20),
                read_u16_le(b, off + 22),
                read_u16_le(b, off + 24),
            ],
            zero: read_u16_le(b, off + 26),
            chars_3: [read_u16_le(b, off + 28), read_u16_le(b, off + 30)],
        };
        assert(l.spec_units() =~= lfn_units(b@.subrange(off as int, off + 32)));
        l
    }

    /// The characters of the name part held by this entry: its units up to
    /// the first NUL, decoded from UTF-16.
    pub fn name_part(&self) -> (s: String)
        ensures
            s@ == utf16_lossy(take_until_nul(self.spec_units())),
    {
        let mut units: Vec<u16> = Vec::new();
        let mut i: usize = 0;
        let mut stop = false;
        let ghost all = self.spec_units();
        assert(all.subrange(0, 13) =~= all);
        assert(Seq::<u16>::empty() + take_until_nul(all) =~= take_until_nul(all));
        while i < 13 && !stop
            invariant
                0 <= i <= 13,
                all == self.spec_units(),
                all.len() == 13,
                take_until_nul(all) == units@ + take_until_nul(all.subrange(i as int, 13)),
                stop ==> take_until_nul(all.subrange(i as int, 13)) == Seq::<u16>::empty(),
            decreases 13 - i + (if stop { 0int } else { 1int }),
        {
            let u = if i < 5 {
                self.chars_1[i]
            } else if i < 11 {
                self.chars_2[i - 5]
            } else {
                self.chars_3[i - 11]
            };
            assert(u == all[i as int]);
            if u == 0 {
                assert(take_until_nul(all.subrange(i as int, 13)) =~= Seq::empty());
                stop = true;
            } else {
                assert(all.subrange(i as int, 13).drop_first() =~= all.subrange(i + 1, 13));
                assert(units@ + take_until_nul(all.subrange(i as int, 13)) =~= units@.push(u)
                    + take_until_nul(all.subrange(i + 1, 13)));
                units.push(u);
                i = i + 1;
            }
        }
        proof {
            if i == 13 {
                assert(all.subrange(13, 13) =~= Seq::<u16>::empty());
            }
            assert(units@ + Seq::<u16>::empty() =~= units@);
        }
        decode_utf16_lossy(units.as_slice())
    }
}

/// Whether a directory entry describes a folder or a file.
#[derive(Clone, Copy, Debug, PartialEq, Eq, Structural)]
pub enum FATFileType {
    Folder,
    File,
}

/// Where a file's directory entry is: the sector and the index within it
/// (none for the root folder), and whether it is a folder.
#[derive(Clone, Copy, Debug, PartialEq, Eq, Structural)]
pub struct FATFile {
    pub dir_entry_sector: Option<u32>,
    pub dir_entry_index: u8,
    pub entry_type: FATFileType,
}

/// The short name of an entry: its trimmed 8-byte name, then, for a file
/// with a nonblank extension, a period and the trimmed extension.
pub open spec fn short_name(b: Seq<u8>) -> Seq<char> {
    let n = trim(utf8_lossy_text(b.subrange(0, 8)));
    let x = trim(utf8_lossy_text(b.subrange(8, 11)));
    if b[11] & ATTR_DIRECTORY == 0 && x.len() > 0 {
        n + seq!['.'] + x
    } else {
        n
    }
}

/// Whether a name is one of the two navigation entries "." and "..".
pub open spec fn is_dot_name(n: Seq<char>) -> bool {
    n == seq!['.'] || n == seq!['.', '.']
}

/// The state of a directory scan: the long name gathered so far, the named
/// files found, and whether the end-of-directory entry was reached.
pub type ScanState = (Seq<char>, Seq<(Seq<char>, FATFile)>, bool);

/// One directory entry (the 32 bytes `b`, at `index` in `sector`) applied
/// to the scan. An entry starting with 0 ends the directory; one starting
/// with 0xE5 is unused. A long-name entry puts its part in front of the
/// gathered name (parts are stored last part first). Any other entry is
/// named by the gathered long name, or by its short name when there is none;
/// the gathered name is then dropped, and "." and ".." are skipped.
pub open spec fn scan_entry(s: ScanState, sector: u32, index: int, b: Seq<u8>) -> ScanState {
    let (lfn, out, done) = s;
    if done {
        s
    } else if b[0] == 0 {
        (lfn, out, true)
    } else if b[0] == 0xE5 {
        s
    } else if b[11] == ATTR_LONG_NAME {
        (utf16_lossy(take_until_nul(lfn_units(b))) + lfn, out, false)
    } else {
        let name = if lfn.len() == 0 {
            short_name(b)
        } else {
            lfn
        };
        if is_dot_name(name) {
            (Seq::empty(), out, false)
        } else {
            let file = FATFile {
                dir_entry_sector: Some(sector),
                dir_entry_index: index as u8,
                entry_type: if b[11] & ATTR_DIRECTORY == ATTR_DIRECTORY {
                    FATFileType::Folder
                } else {
                    FATFileType::File
                },
            };
            (Seq::empty(), out.push((name, file)), false)
        }
    }
}

/// The scan after the first `n` entries of a sector.
pub open spec fn scan_sector(s: ScanState, sector: u32, data: Seq<u8>, n: nat) -> ScanState
    decreases n,
{
    if n == 0 {
        s
    } else {
        scan_entry(
            scan_sector(s, sector, data, (n - 1) as nat),
            sector,
            n - 1,
            data.subrange(32 * (n - 1), 32 * (n as int)),
        )
    }
}

/// The names of a directory as a map: a later entry replaces an earlier one
/// of the same name.
pub open spec fn name_map(entries: Seq<(Seq<char>, FATFile)>) -> Map<Seq<char>, FATFile>
    decreases entries.len(),
{
    if entries.len() == 0 {
        Map::empty()
    } else {
        name_map(entries.drop_last()).insert(entries.last().0, entries.last().1)
    }
}

/// Reads the entries of a directory, one sector at a time.
pub struct DirectoryReader {
    lfn_buf: String,
    entries: Vec<(String, FATFile)>,
    done: bool,
}

/// The named entries as character sequences.
pub open spec fn entries_view(v: Seq<(String, FATFile)>) -> Seq<(Seq<char>, FATFile)> {
    Seq::new(v.len(), |i: int| (v[i].0@, v[i].1))
}

/// Whether `s` is "." or "..".
fn is_dot_str(s: &String) -> (b: bool)
    ensures
        b == is_dot_name(s@),
{
    let t = s.as_str();
    let n = t.unicode_len();
    if n == 1 {
        let b = t.get_char(0) == '.';
        assert(b ==> t@ =~= seq!['.']);
        assert(t@ != seq!['.', '.']);
        b
    } else if n == 2 {
        let b = t.get_char(0) == '.' && t.get_char(1) == '.';
        assert(b ==> t@ =~= seq!['.', '.']);
        assert(t@ != seq!['.']);
        b
    } else {
        assert(t@ != seq!['.']);
        assert(t@ != seq!['.', '.']);
        false
    }
}

impl DirectoryReader {
    /// The scan so far.
    pub closed spec fn state(&self) -> ScanState {
        (self.lfn_buf@, entries_view(self.entries@), self.done)
    }

    /// A scan that has seen no entry.
    pub fn new() -> (r: Self)
        ensures
            r.state() == (Seq::<char>::empty(), Seq::<(Seq<char>, FATFile)>::empty(), false),
    {
        let r = DirectoryReader { lfn_buf: String::new(), entries: Vec::new(), done: false };
        assert(entries_view(r.entries@) =~= Seq::<(Seq<char>, FATFile)>::empty());
        assert(r.lfn_buf@ =~= Seq::<char>::empty());
        r
    }

    /// Whether the end-of-directory entry has been reached.
    pub fn is_done(&self) -> (b: bool)
        ensures
            b == self.state().2,
    {
        self.done
    }

    /// The short name of the entry at `off`.
    fn entry_short_name(data: &[u8], off: usize) -> (n: String)
        requires
            off + 32 <= data@.len(),
        ensures
            n@ == short_name(data@.subrange(off as int, off + 32)),
    {
        let e = DirectoryEntry::from_bytes(data, off);
        let ghost b = data@.subrange(off as int, off + 32);
        let raw = utf8_lossy(e.name.as_slice());
        let mut name: String = str_trim(raw.as_str()).to_owned();
        if e.attributes & ATTR_DIRECTORY == 0 {
            let raw_ext = utf8_lossy(e.ext.as_slice());
            let ext = str_trim(raw_ext.as_str());
            if !ext.is_empty() {
                string_push_str(&mut name, ".");
                proof {
                    reveal_strlit(".");
                }
                string_push_str(&mut name, ext);
            }
        }
        assert(e.name@ == b.subrange(0, 8));
        assert(e.ext@ == b.subrange(8, 11));
        assert(name@ =~= short_name(b));
        name
    }

    /// Applies one sector of a directory (16 entries) to the scan; returns
    /// whether the end of the directory has been reached.
    pub fn read_sector(&mut self, sector: u32, data: &[u8]) -> (done: bool)
        requires
            data@.len() == 512,
        ensures
            final(self).state() == scan_sector(old(self).state(), sector, data@, 16),
            done == final(self).state().2,
    {
        let mut i: usize = 0;
        while i < 16
            invariant
                0 <= i <= 16,
                data@.len() == 512,
                self.state() == scan_sector(old(self).state(), sector, data@, i as nat),
            decreases 16 - i,
        {
            let off = i * 32;
            let ghost before = self.state();
            let ghost b = data@.subrange(off as int, off + 32);
            assert(b[0] == data@[off as int]);
            assert(b[11] == data@[off + 11]);
            if self.done {
            } else if data[off] == 0 {
                self.done = true;
            } else if data[off] == 0xE5 {
            } else if data[off + 11] == ATTR_LONG_NAME {
                let l = LongFileName::from_bytes(data, off);
                let mut part = l.name_part();
                string_push_str(&mut part, self.lfn_buf.as_str());
                self.lfn_buf = part;
            } else {
                let name = if self.lfn_buf.as_str().is_empty() {
                    Self::entry_short_name(data, off)
                } else {
                    self.lfn_buf.clone()
                };
                self.lfn_buf = String::new();
                if !is_dot_str(&name) {
                    let entry_type = if data[off + 11] & ATTR_DIRECTORY == ATTR_DIRECTORY {
                        FATFileType::Folder
                    } else {
                        FATFileType::File
                    };
                    let file = FATFile {
                        dir_entry_sector: Some(sector),
                        dir_entry_index: i as u8,
                        entry_type,
                    };
                    let ghost old_entries = self.entries@;
                    self.entries.push((name, file));
                    assert(entries_view(self.entries@) =~= entries_view(old_entries).push(
                        (name@, file),
                    ));
                }
            }
            assert(self.state() == scan_entry(before, sector, i as int, b));
            i = i + 1;
        }
        self.done
    }

    /// The named files found, in directory order; a later entry replaces an
    /// earlier one of the same name when they are gathered into a map.
    pub fn into_entries(self) -> (v: Vec<(String, FATFile)>)
        ensures
            entries_view(v@) == self.state().1,
    {
        self.entries
    }

    /// The named files as a map: a later entry replaces an earlier one of
    /// the same name.
    pub fn into_table(self) -> (t: NameTable)
        ensures
            name_table(t) == name_map(self.state().1),
    {
        let ghost es = self.state().1;
        let entries = self.entries;
        let mut t = NameTable::new();
        let mut i: usize = 0;
        while i < entries.len()
            invariant
                i <= entries@.len(),
                es == entries_view(entries@),
                name_table(t) == name_map(es.take(i as int)),
            decreases entries.len() - i,
        {
            let (name, file) = &entries[i];
            assert(es.take(i + 1).drop_last() =~= es.take(i as int));
            t.insert(name.clone(), *file);
            i += 1;
        }
        assert(es.take(es.len() as int) =~= es);
        t
    }
}

/// The files of a folder by name, in a `hashbrown` map.
#[verifier::external_body]
pub struct NameTable {
    map: HashMap<String, FATFile>,
}

/// A table without names.
pub open spec fn no_names() -> Map<Seq<char>, FATFile> {
    Map::empty()
}

/// What a name table holds, by the names' characters.
pub uninterp spec fn name_table(t: NameTable) -> Map<Seq<char>, FATFile>;

impl NameTable {
    /// `hashbrown::HashMap::new`: an empty map.
    #[verifier::external_body]
    fn new() -> (table: NameTable)
        ensures
            name_table(table) == no_names(),
    {
        NameTable { map: HashMap::new() }
    }

    /// `hashbrown::HashMap::insert`: the name now maps to the file. Strings
    /// are equal exactly when their characters are.
    #[verifier::external_body]
    fn insert(&mut self, name: String, file: FATFile)
        ensures
            name_table(*final(self)) == name_table(*old(self)).insert(name@, file),
    {
        self.map.insert(name, file);
    }

    /// `hashbrown::HashMap::get`, copied out.
    #[verifier::external_body]
    fn get(&self, name: &str) -> (r: Option<FATFile>)
        ensures
            r == (if name_table(*self).dom().contains(name@) {
                Some(name_table(*self)[name@])
            } else {
                None
            }),
    {
        self.map.get(name).copied()
    }

    /// `hashbrown::HashMap::iter`, copied out: each name once, with its
    /// file, in an order the map chooses.
    #[verifier::external_body]
    fn entries(&self) -> (v: Vec<(String, FATFile)>)
        ensures
            forall|i: int|
                0 <= i < v@.len() ==> name_table(*self).dom().contains(#[trigger] v@[i].0@)
                    && name_table(*self)[v@[i].0@] == v@[i].1,
            forall|k: Seq<char>|
                name_table(*self).dom().contains(k) ==> exists|i: int|
                    0 <= i < v@.len() && #[trigger] v@[i].0@ == k,
            forall|i: int, j: int| 0 <= i < j < v@.len() ==> v@[i].0@ != v@[j].0@,
    {
        self.map.iter().map(|(k, f)| (k.clone(), *f)).collect()
    }

    /// The file of a folder's child with the given name, if there is one.
    pub fn open_child(&self, name: &str) -> (r: Option<FATFile>)
        ensures
            r == (if name_table(*self).dom().contains(name@) {
                Some(name_table(*self)[name@])
            } else {
                None
            }),
    {
        self.get(name)
    }

    /// The children of a folder with whether each is a folder, each once,
    /// as a folder listing gives them.
    pub fn child_listing(&self) -> (v: Vec<(String, FATFileType)>)
        ensures
            forall|i: int|
                0 <= i < v@.len() ==> name_table(*self).dom().contains(#[trigger] v@[i].0@)
                    && name_table(*self)[v@[i].0@].entry_type == v@[i].1,
            forall|k: Seq<char>|
                name_table(*self).dom().contains(k) ==> exists|i: int|
                    0 <= i < v@.len() && #[trigger] v@[i].0@ == k,
            forall|i: int, j: int| 0 <= i < j < v@.len() ==> v@[i].0@ != v@[j].0@,
    {
        let all = self.entries();
        let mut v: Vec<(String, FATFileType)> = Vec::new();
        let mut i: usize = 0;
        while i < all.len()
            invariant
                i <= all@.len(),
                v@.len() == i,
                forall|j: int| 0 <= j < i ==> (#[trigger] v@[j]).0@ == all@[j].0@ && v@[j].1 == all@[j].1.entry_type,
            decreases all.len() - i,
        {
            let (name, file) = &all[i];
            v.push((name.clone(), file.entry_type));
            i += 1;
        }
        proof {
            assert forall|k: Seq<char>| name_table(*self).dom().contains(k) implies exists|i: int|
                0 <= i < v@.len() && #[trigger] v@[i].0@ == k by {
                let i = choose|i: int| 0 <= i < all@.len() && #[trigger] all@[i].0@ == k;
                assert(v@[i].0@ == k);
            }
            assert forall|i: int| 0 <= i < v@.len() implies name_table(*self).dom().contains(#[trigger] v@[i].0@)
                && name_table(*self)[v@[i].0@].entry_type == v@[i].1 by {
                assert(all@[i].0@ == v@[i].0@);
            }
            assert forall|i: int, j: int| 0 <= i < j < v@.len() implies v@[i].0@ != v@[j].0@ by {
                assert(all@[i].0@ != all@[j].0@);
            }
        }
        v
    }
}

} // verus!
