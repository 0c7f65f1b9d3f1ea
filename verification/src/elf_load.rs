//! Loading ELF images: which segments are loaded, at which pages, from
//! which bytes of the file and with which rights, for the bootloader that
//! loads the kernel and for the kernel that loads processes.
use vstd::prelude::*;
use elf::endian::NativeEndian;
use elf::ElfBytes;

verus! {

/// A loadable segment.
pub const PT_LOAD: u32 = 1;

/// An executable file.
pub const ET_EXEC: u16 = 2;

/// The x86-64 machine.
pub const EM_X86_64: u16 = 62;

/// Segment flag: executable.
pub const PF_X: u32 = 1;

/// Segment flag: writable.
pub const PF_W: u32 = 2;

/// Segment flag: readable.
pub const PF_R: u32 = 4;

/// A program header of an ELF file.
#[derive(Clone, Copy, Debug, PartialEq, Eq, Structural)]
pub struct ProgramHeader {
    pub p_type: u32,
    pub p_flags: u32,
    pub p_offset: u64,
    pub p_vaddr: u64,
    pub p_paddr: u64,
    pub p_filesz: u64,
    pub p_memsz: u64,
    pub p_align: u64,
}

/// A program header's fields in the order type, flags, offset, virtual
/// address, physical address, file size, memory size, alignment.
pub type RawProgramHeader = (u32, u32, u64, u64, u64, u64, u64, u64);

/// What the `elf` crate reads from a file: the file type, the machine, the
/// entry point, and the program headers when the file has a table of them.
/// `None` when `ElfBytes::minimal_parse` refuses the file.
pub uninterp spec fn elf_headers(data: Seq<u8>) -> Option<(u16, u16, u64, Option<Seq<RawProgramHeader>>)>;

/// `ElfBytes::<NativeEndian>::minimal_parse`, then the header's type,
/// machine and entry point and the program headers that its segment table
/// yields. Claimed: the outcome is a function of the bytes alone.
#[verifier::external_body]
fn parse_elf(data: &[u8]) -> (r: Option<(u16, u16, u64, Option<Vec<RawProgramHeader>>)>)
    ensures
        match elf_headers(data@) {
            None => r is None,
            Some((t, m, e, s)) => r matches Some((t2, m2, e2, s2)) && t2 == t && m2 == m && e2 == e
                && match s {
                None => s2 is None,
                Some(v) => s2 matches Some(w) && w@ == v,
            },
        },
{
    let elf = match ElfBytes::<NativeEndian>::minimal_parse(data) {
        Ok(elf) => elf,
        Err(_) => return None,
    };
    let segments = elf.segments().map(|t| t.iter().map(|p| (p.p_type, p.p_flags, p.p_offset, p.p_vaddr, p.p_paddr, p.p_filesz, p.p_memsz, p.p_align)).collect());
    Some((elf.ehdr.e_type, elf.ehdr.e_machine, elf.ehdr.e_entry, segments))
}

/// A program header from its fields.
pub open spec fn header_of(r: RawProgramHeader) -> ProgramHeader {
    ProgramHeader {
        p_type: r.0,
        p_flags: r.1,
        p_offset: r.2,
        p_vaddr: r.3,
        p_paddr: r.4,
        p_filesz: r.5,
        p_memsz: r.6,
        p_align: r.7,
    }
}

/// The headers of an ELF file as the loaders see them.
pub struct ElfHeaders {
    pub e_type: u16,
    pub e_machine: u16,
    pub e_entry: u64,
    pub segments: Option<Vec<ProgramHeader>>,
}

/// Whether `h` holds what the `elf` crate reads from the file.
pub open spec fn headers_match(h: ElfHeaders, data: Seq<u8>) -> bool {
    match elf_headers(data) {
        None => false,
        Some((t, m, e, s)) => h.e_type == t && h.e_machine == m && h.e_entry == e && match s {
            None => h.segments is None,
            Some(v) => h.segments matches Some(w) && w@.len() == v.len() && forall|i: int|
                0 <= i < v.len() ==> w@[i] == header_of(#[trigger] v[i]),
        },
    }
}

/// Reads the headers of an ELF file, or `None` where the `elf` crate
/// refuses it.
pub fn read_elf(data: &[u8]) -> (r: Option<ElfHeaders>)
    ensures
        r is None <==> elf_headers(data@) is None,
        r matches Some(h) ==> headers_match(h, data@),
{
    match parse_elf(data) {
        None => None,
        Some((t, m, e, s)) => {
            let segments = match s {
                None => None,
                Some(raw) => {
                    let mut v: Vec<ProgramHeader> = Vec::new();
                    let mut i: usize = 0;
                    while i < raw.len()
                        invariant
                            i <= raw@.len(),
                            v@.len() == i,
                            forall|j: int| 0 <= j < i ==> v@[j] == header_of(#[trigger] raw@[j]),
                        decreases raw.len() - i,
                    {
                        let p = raw[i];
                        v.push(
                            ProgramHeader {
                                p_type: p.0,
                                p_flags: p.1,
                                p_offset: p.2,
                                p_vaddr: p.3,
                                p_paddr: p.4,
                                p_filesz: p.5,
                                p_memsz: p.6,
                                p_align: p.7,
                            },
                        );
                        i += 1;
                    }
                    Some(v)
                },
            };
            Some(ElfHeaders { e_type: t, e_machine: m, e_entry: e, segments })
        },
    }
}

/// Where a segment's bytes lie in the file, as `ElfBytes::segment_data`
/// takes them: from the offset, as many as the file size says, if that
/// range neither overflows nor runs past the file.
pub open spec fn segment_range(p: ProgramHeader, len: int) -> Option<(int, int)> {
    if p.p_offset + p.p_filesz <= u64::MAX && p.p_offset + p.p_filesz <= len {
        Some((p.p_offset as int, p.p_offset + p.p_filesz))
    } else {
        None
    }
}

/// The bytes of a segment in the file.
pub fn segment_data<'a>(data: &'a [u8], p: &ProgramHeader) -> (r: Option<&'a [u8]>)
    ensures
        match segment_range(*p, data@.len() as int) {
            Some((s, e)) => r matches Some(d) && d@ == data@.subrange(s, e),
            None => r is None,
        },
{
    match p.p_offset.checked_add(p.p_filesz) {
        None => None,
        Some(end) => {
            if end as u128 <= data.len() as u128 {
                Some(vstd::slice::slice_subrange(data, p.p_offset as usize, end as usize))
            } else {
                None
            }
        },
    }
}

/// Whether a value is a power of two.
pub open spec fn is_power_of_two(x: u64) -> bool {
    x > 0 && x & ((x - 1) as u64) == 0
}

/// `x86_64::align_down`: the greatest multiple of `align`, a power of two,
/// that is not above `addr`. Claimed: `addr` less its remainder by `align`.
#[verifier::external_body]
fn align_down(addr: u64, align: u64) -> (r: u64)
    requires
        is_power_of_two(align),
    ensures
        r == addr - addr % align,
{
    x86_64::align_down(addr, align)
}

/// `x86_64::align_up`: the least multiple of `align`, a power of two, that
/// is not below `addr`; it panics when that overflows, which `requires`
/// rules out. Claimed: `addr` itself when aligned, else the next multiple.
#[verifier::external_body]
fn align_up(addr: u64, align: u64) -> (r: u64)
    requires
        is_power_of_two(align),
        addr % align == 0 || addr - addr % align + align <= u64::MAX,
    ensures
        r == if addr % align == 0 {
            addr as int
        } else {
            addr - addr % align + align
        },
{
    x86_64::align_up(addr, align)
}

/// The rights of a segment, keeping only the bits that name one.
#[derive(Clone, Copy, Debug, PartialEq, Eq, Structural)]
pub struct ElfSegmentFlags {
    pub bits: u32,
}

/// How a segment is mapped into a process.
#[derive(Clone, Copy, Debug, PartialEq, Eq, Structural)]
pub struct MappingFlags {
    pub userspace: bool,
    pub writeable: bool,
}

impl ElfSegmentFlags {
    /// The flags of `p_flags`, unknown bits dropped.
    pub fn from_bits_truncate(bits: u32) -> (f: Self)
        ensures
            f.bits == bits & (PF_X | PF_W | PF_R),
    {
        ElfSegmentFlags { bits: bits & (PF_X | PF_W | PF_R) }
    }

    /// Whether the segment is writable.
    pub fn writeable(&self) -> (b: bool)
        ensures
            b == (self.bits & PF_W != 0),
    {
        self.bits & PF_W != 0
    }

    /// A user mapping, writable when the segment is.
    pub fn to_mapping_flags(&self) -> (m: MappingFlags)
        ensures
            m.userspace,
            m.writeable == (self.bits & PF_W != 0),
    {
        MappingFlags { userspace: true, writeable: self.writeable() }
    }
}

/// How the bootloader loads one segment of the kernel: the pages from
/// `base` on, how many, where the segment's bytes lie in the file, the
/// address they go to, and whether the pages stay writable.
#[derive(Clone, Copy, Debug, PartialEq, Eq, Structural)]
pub struct BootSegment {
    pub base: u64,
    pub page_count: u64,
    pub vaddr: u64,
    pub data_start: u64,
    pub data_end: u64,
    pub writeable: bool,
}

/// The pages of a segment for the bootloader: from the page of the virtual
/// address up to the page boundary at or after its end.
pub open spec fn boot_pages(p: ProgramHeader) -> Option<(u64, u64)> {
    if p.p_vaddr + p.p_memsz + 0xFFF <= u64::MAX {
        let base = p.p_vaddr - p.p_vaddr % 4096;
        let t = p.p_vaddr + p.p_memsz + 0xFFF;
        let top = t - t % 4096;
        Some((base as u64, ((top - base) / 4096) as u64))
    } else {
        None
    }
}

/// How the bootloader loads a segment, if its pages and bytes can be had.
pub open spec fn boot_segment_spec(p: ProgramHeader, len: int) -> Option<BootSegment> {
    match (boot_pages(p), segment_range(p, len)) {
        (Some((base, count)), Some((s, e))) => Some(
            BootSegment {
                base,
                page_count: count,
                vaddr: p.p_vaddr,
                data_start: s as u64,
                data_end: e as u64,
                writeable: p.p_flags & PF_W != 0,
            },
        ),
        _ => None,
    }
}

/// How the bootloader loads one segment.
pub fn boot_segment(p: &ProgramHeader, len: usize) -> (r: Option<BootSegment>)
    ensures
        r == boot_segment_spec(*p, len as int),
{
    let end = match p.p_vaddr.checked_add(p.p_memsz) {
        None => return None,
        Some(e) => e,
    };
    if end > u64::MAX - 0xFFF {
        return None;
    }
    let vaddr = p.p_vaddr;
    let t = end + 0xFFF;
    let base = vaddr & !0xFFFu64;
    let top = t & !0xFFFu64;
    assert(vaddr & !0xFFFu64 == vaddr - vaddr % 4096) by (bit_vector);
    assert(t & !0xFFFu64 == t - t % 4096) by (bit_vector);
    let count = (top - base) / 0x1000;
    let data_end = match p.p_offset.checked_add(p.p_filesz) {
        None => return None,
        Some(e) => e,
    };
    if data_end as u128 > len as u128 {
        return None;
    }
    Some(
        BootSegment {
            base,
            page_count: count,
            vaddr,
            data_start: p.p_offset,
            data_end,
            writeable: p.p_flags & PF_W != 0,
        },
    )
}

/// What the bootloader does with a kernel image: its entry point and the
/// segments to load, in the order of the program headers. `None` where the
/// bootloader stops: the file is refused, has no program headers, or a
/// loadable segment's pages or bytes cannot be had.
pub fn plan_boot_kernel(data: &[u8]) -> (r: Option<(u64, Vec<BootSegment>)>)
    ensures
        match elf_headers(data@) {
            Some((_, _, entry, Some(hs))) => {
                let loads = hs.map_values(|h: RawProgramHeader| header_of(h)).filter(
                    |p: ProgramHeader| p.p_type == PT_LOAD,
                );
                if forall|i: int|
                    0 <= i < loads.len() ==> #[trigger] boot_segment_spec(
                        loads[i],
                        data@.len() as int,
                    ) is Some {
                    r matches Some((e, segs)) && e == entry && segs@.len() == loads.len() && (
                    forall|i: int|
                        0 <= i < loads.len() ==> Some(#[trigger] segs@[i]) == boot_segment_spec(
                            loads[i],
                            data@.len() as int,
                        ))
                } else {
                    r is None
                }
            },
            _ => r is None,
        },
{
    let h = match read_elf(data) {
        None => return None,
        Some(h) => h,
    };
    let hs = match h.segments {
        None => return None,
        Some(hs) => hs,
    };
    let ghost raw = match elf_headers(data@) {
        Some((_, _, _, Some(v))) => v,
        _ => Seq::empty(),
    };
    let ghost all = raw.map_values(|x: RawProgramHeader| header_of(x));
    assert(all =~= hs@);
    let mut segs: Vec<BootSegment> = Vec::new();
    let mut i: usize = 0;
    while i < hs.len()
        invariant
            i <= hs@.len(),
            all == hs@,
            all == raw.map_values(|x: RawProgramHeader| header_of(x)),
            elf_headers(data@) matches Some((_, _, e, Some(v))) && v == raw && e == h.e_entry,
            segs@.len() == all.take(i as int).filter(|p: ProgramHeader| p.p_type == PT_LOAD).len(),
            forall|k: int|
                0 <= k < segs@.len() ==> Some(#[trigger] segs@[k]) == boot_segment_spec(
                    all.take(i as int).filter(|p: ProgramHeader| p.p_type == PT_LOAD)[k],
                    data@.len() as int,
                ),
        decreases hs.len() - i,
    {
        let p = hs[i];
        reveal(Seq::filter);
        assert(all.take(i + 1).drop_last() =~= all.take(i as int));
        if p.p_type == PT_LOAD {
            match boot_segment(&p, data.len()) {
                None => {
                    proof {
                        lemma_filter_take_in(all, i as int);
                        let f = all.filter(|p: ProgramHeader| p.p_type == PT_LOAD);
                        let g = all.take(i as int).filter(|p: ProgramHeader| p.p_type == PT_LOAD);
                        assert(boot_segment_spec(f[g.len() as int], data@.len() as int) is None);
                    }
                    return None;
                },
                Some(s) => {
                    segs.push(s);
                },
            }
        }
        i += 1;
    }
    assert(all.take(hs@.len() as int) =~= all);
    let ghost loads = all.filter(|p: ProgramHeader| p.p_type == PT_LOAD);
    assert forall|k: int| 0 <= k < loads.len() implies #[trigger] boot_segment_spec(
        loads[k],
        data@.len() as int,
    ) is Some by {
        assert(Some(segs@[k]) == boot_segment_spec(loads[k], data@.len() as int));
    }
    Some((h.e_entry, segs))
}

/// A loadable header that fails sits among the loadable headers of the
/// whole table.
proof fn lemma_filter_take_in(all: Seq<ProgramHeader>, i: int)
    requires
        0 <= i < all.len(),
        all[i].p_type == PT_LOAD,
    ensures
        ({
            let f = all.filter(|p: ProgramHeader| p.p_type == PT_LOAD);
            let g = all.take(i).filter(|p: ProgramHeader| p.p_type == PT_LOAD);
            g.len() < f.len() && f[g.len() as int] == all[i]
        }),
{
    reveal(Seq::filter);
    let pred = |p: ProgramHeader| p.p_type == PT_LOAD;
    assert(all =~= all.take(i + 1) + all.skip(i + 1));
    Seq::filter_distributes_over_add(all.take(i + 1), all.skip(i + 1), pred);
    assert(all.take(i + 1).drop_last() =~= all.take(i));
}

/// Why the kernel could not load a program. `AddressOverflow` is a segment
/// whose end, or whose end rounded up to a page, passes the address space.
#[derive(Clone, Copy, Debug, PartialEq, Eq, Structural)]
pub enum LoadElfError {
    InternalError,
    AddressOverflow,
}

/// How the kernel loads one segment into a new process: the pages from
/// `vstart` on, `size` bytes of them, the offset in the first page where
/// the segment's bytes go, where those bytes lie in the file, and how the
/// pages are mapped.
#[derive(Clone, Copy, Debug, PartialEq, Eq, Structural)]
pub struct UserSegment {
    pub vstart: u64,
    pub size: u64,
    pub page_offset: u64,
    pub data_start: u64,
    pub data_end: u64,
    pub flags: MappingFlags,
}

/// What one loadable segment makes the kernel do.
pub enum SegmentStep {
    /// The segment is meant for kernel memory: the file is started as a
    /// new kernel in place of this one.
    Kexec,
    Fail(LoadElfError),
    Load(UserSegment),
}

/// What one loadable segment makes the kernel do: a segment whose physical
/// address is at or past the end of user memory starts a new kernel; one
/// whose bytes lie outside the file fails; else its pages run from the page
/// of its address to the page boundary at or after its end.
pub open spec fn user_step(p: ProgramHeader, len: int, end_user_mem: u64) -> SegmentStep {
    if p.p_paddr >= end_user_mem {
        SegmentStep::Kexec
    } else {
        match segment_range(p, len) {
            None => SegmentStep::Fail(LoadElfError::InternalError),
            Some((s, e)) => {
                let end = p.p_vaddr + p.p_memsz;
                if end > u64::MAX || (end % 4096 != 0 && end - end % 4096 + 4096 > u64::MAX) {
                    SegmentStep::Fail(LoadElfError::AddressOverflow)
                } else {
                    let vstart = p.p_vaddr - p.p_vaddr % 4096;
                    let vend = if end % 4096 == 0 {
                        end
                    } else {
                        end - end % 4096 + 4096
                    };
                    SegmentStep::Load(
                        UserSegment {
                            vstart: vstart as u64,
                            size: (vend - vstart) as u64,
                            page_offset: (p.p_vaddr % 4096) as u64,
                            data_start: s as u64,
                            data_end: e as u64,
                            flags: MappingFlags {
                                userspace: true,
                                writeable: p.p_flags & PF_W != 0,
                            },
                        },
                    )
                }
            },
        }
    }
}

/// The loadable segments of a table taken in order: the segments to load,
/// or `Ok(None)` when a segment starts a new kernel first, or the first
/// failure.
pub open spec fn plan_loads(loads: Seq<ProgramHeader>, len: int, end_user_mem: u64) -> Result<
    Option<Seq<UserSegment>>,
    LoadElfError,
>
    decreases loads.len(),
{
    if loads.len() == 0 {
        Ok(Some(Seq::empty()))
    } else {
        match plan_loads(loads.drop_last(), len, end_user_mem) {
            Ok(Some(v)) => match user_step(loads.last(), len, end_user_mem) {
                SegmentStep::Kexec => Ok(None),
                SegmentStep::Fail(e) => Err(e),
                SegmentStep::Load(u) => Ok(Some(v.push(u))),
            },
            other => other,
        }
    }
}

/// The loadable headers of a table.
pub open spec fn loads_of(hs: Seq<RawProgramHeader>) -> Seq<ProgramHeader> {
    hs.map_values(|h: RawProgramHeader| header_of(h)).filter(|p: ProgramHeader| p.p_type == PT_LOAD)
}

/// What the kernel makes of a program file.
pub enum ElfPlan {
    /// The file is a kernel: it is started in place of this one.
    Kexec,
    /// A new process with this entry point and these segments.
    Process { entry: u64, segments: Vec<UserSegment> },
}

/// Once a prefix of the loadable segments ends the plan, the whole plan
/// ends the same way.
proof fn lemma_plan_sticks(s: Seq<ProgramHeader>, k: int, len: int, end_user_mem: u64)
    requires
        0 <= k <= s.len(),
        !(plan_loads(s.take(k), len, end_user_mem) is Ok && plan_loads(
            s.take(k),
            len,
            end_user_mem,
        )->Ok_0 is Some),
    ensures
        plan_loads(s, len, end_user_mem) == plan_loads(s.take(k), len, end_user_mem),
    decreases s.len() - k,
{
    if k < s.len() {
        assert(s.take(k + 1).drop_last() =~= s.take(k));
        lemma_plan_sticks(s, k + 1, len, end_user_mem);
    } else {
        assert(s.take(k) =~= s);
    }
}

/// The loadable headers of a prefix of the table are a prefix of the
/// loadable headers of the table.
proof fn lemma_filter_prefix(all: Seq<ProgramHeader>, i: int)
    requires
        0 <= i <= all.len(),
    ensures
        ({
            let f = all.filter(|p: ProgramHeader| p.p_type == PT_LOAD);
            let g = all.take(i).filter(|p: ProgramHeader| p.p_type == PT_LOAD);
            g.len() <= f.len() && f.take(g.len() as int) =~= g
        }),
{
    let pred = |p: ProgramHeader| p.p_type == PT_LOAD;
    assert(all =~= all.take(i) + all.skip(i));
    Seq::filter_distributes_over_add(all.take(i), all.skip(i), pred);
}

/// Decides how the kernel loads a program file: the file must be an x86-64
/// executable with program headers (else `InternalError`); its loadable
/// segments are then taken in order as `plan_loads` says, with the file's
/// entry point.
pub fn plan_load_elf(data: &[u8], end_user_mem: u64) -> (r: Result<ElfPlan, LoadElfError>)
    ensures
        match elf_headers(data@) {
            None => r == Err::<ElfPlan, LoadElfError>(LoadElfError::InternalError),
            Some((t, m, entry, s)) => if t != ET_EXEC || m != EM_X86_64 || s is None {
                r == Err::<ElfPlan, LoadElfError>(LoadElfError::InternalError)
            } else {
                match plan_loads(loads_of(s->0), data@.len() as int, end_user_mem) {
                    Ok(None) => r matches Ok(ElfPlan::Kexec),
                    Ok(Some(v)) => r matches Ok(ElfPlan::Process { entry: e, segments })
                        && e == entry && segments@ == v,
                    Err(x) => r == Err::<ElfPlan, LoadElfError>(x),
                }
            },
        },
{
    let h = match read_elf(data) {
        None => return Err(LoadElfError::InternalError),
        Some(h) => h,
    };
    if h.e_type != ET_EXEC || h.e_machine != EM_X86_64 {
        return Err(LoadElfError::InternalError);
    }
    let hs = match h.segments {
        None => return Err(LoadElfError::InternalError),
        Some(hs) => hs,
    };
    let ghost raw = match elf_headers(data@) {
        Some((_, _, _, Some(v))) => v,
        _ => Seq::empty(),
    };
    let ghost all = raw.map_values(|x: RawProgramHeader| header_of(x));
    let ghost len = data@.len() as int;
    assert(all =~= hs@);
    let mut segs: Vec<UserSegment> = Vec::new();
    let mut i: usize = 0;
    while i < hs.len()
        invariant
            i <= hs@.len(),
            all == hs@,
            all == raw.map_values(|x: RawProgramHeader| header_of(x)),
            len == data@.len(),
            elf_headers(data@) matches Some((t, m, e, Some(v))) && v == raw && e == h.e_entry
                && t == ET_EXEC && m == EM_X86_64,
            plan_loads(
                all.take(i as int).filter(|p: ProgramHeader| p.p_type == PT_LOAD),
                len,
                end_user_mem,
            ) == Ok::<Option<Seq<UserSegment>>, LoadElfError>(Some(segs@)),
        decreases hs.len() - i,
    {
        let p = hs[i];
        reveal(Seq::filter);
        assert(all.take(i + 1).drop_last() =~= all.take(i as int));
        let ghost g = all.take(i as int).filter(|p: ProgramHeader| p.p_type == PT_LOAD);
        let ghost g2 = all.take(i + 1).filter(|p: ProgramHeader| p.p_type == PT_LOAD);
        if p.p_type == PT_LOAD {
            assert(g2 == g.push(p));
            assert(g2.drop_last() =~= g);
            proof {
                lemma_filter_prefix(all, i + 1);
            }
            if p.p_paddr >= end_user_mem {
                proof {
                    lemma_plan_sticks(all.filter(|p: ProgramHeader| p.p_type == PT_LOAD), g2.len() as int, len, end_user_mem);
                }
                return Ok(ElfPlan::Kexec);
            }
            let (ds, de) = match segment_data(data, &p) {
                None => {
                    proof {
                        lemma_plan_sticks(all.filter(|p: ProgramHeader| p.p_type == PT_LOAD), g2.len() as int, len, end_user_mem);
                    }
                    return Err(LoadElfError::InternalError);
                },
                Some(_) => (p.p_offset, p.p_offset + p.p_filesz),
            };
            let end = match p.p_vaddr.checked_add(p.p_memsz) {
                None => {
                    proof {
                        lemma_plan_sticks(all.filter(|p: ProgramHeader| p.p_type == PT_LOAD), g2.len() as int, len, end_user_mem);
                    }
                    return Err(LoadElfError::AddressOverflow);
                },
                Some(e) => e,
            };
            if end % 4096 != 0 && end - end % 4096 > u64::MAX - 4096 {
                proof {
                    lemma_plan_sticks(all.filter(|p: ProgramHeader| p.p_type == PT_LOAD), g2.len() as int, len, end_user_mem);
                }
                return Err(LoadElfError::AddressOverflow);
            }
            assert(4096u64 & ((4096u64 - 1) as u64) == 0) by (bit_vector);
            assert(is_power_of_two(4096));
            let vstart = align_down(p.p_vaddr, 4096);
            let vend = align_up(end, 4096);
            let flags = ElfSegmentFlags::from_bits_truncate(p.p_flags).to_mapping_flags();
            let pf = p.p_flags;
            assert(pf & (1u32 | 2u32 | 4u32) & 2u32 != 0 <==> pf & 2u32 != 0) by (bit_vector);
            let va = p.p_vaddr;
            assert(va % 4096 == va & 0xFFF) by (bit_vector);
            segs.push(
                UserSegment {
                    vstart,
                    size: vend - vstart,
                    page_offset: p.p_vaddr & 0xFFF,
                    data_start: ds,
                    data_end: de,
                    flags,
                },
            );
        } else {
            assert(g2 == g);
        }
        i += 1;
    }
    assert(all.take(hs@.len() as int) =~= all);
    Ok(ElfPlan::Process { entry: h.e_entry, segments: segs })
}

} // verus!
