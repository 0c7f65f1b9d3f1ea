//! What the bootloader decides and hands to the kernel: the graphics mode,
//! the frame buffer's description, the boot information, reading files, and
//! the kernel's built-in boot file system.
use vstd::prelude::*;
use crate::text::chars_of;

verus! {

/// The widest mode the bootloader picks.
pub const MAX_X: usize = 1920;

/// The tallest mode the bootloader picks.
pub const MAX_Y: usize = 1080;

/// Whether a mode fits the largest resolution the bootloader picks.
pub open spec fn mode_fits(r: (usize, usize)) -> bool {
    r.0 <= MAX_X && r.1 <= MAX_Y
}

/// Picks the graphics mode: of the modes the firmware lists (by their
/// resolutions), the last one that fits 1920 by 1080; none if none fits.
pub fn initialize_gop(resolutions: &[(usize, usize)]) -> (best: Option<usize>)
    ensures
        match best {
            Some(i) => i < resolutions@.len() && mode_fits(resolutions@[i as int]) && forall|j: int|
                i < j < resolutions@.len() ==> !mode_fits(resolutions@[j]),
            None => forall|j: int| 0 <= j < resolutions@.len() ==> !mode_fits(resolutions@[j]),
        },
{
    let mut best: Option<usize> = None;
    let mut i: usize = 0;
    while i < resolutions.len()
        invariant
            i <= resolutions@.len(),
            match best {
                Some(k) => k < i && mode_fits(resolutions@[k as int]) && forall|j: int|
                    k < j < i ==> !mode_fits(resolutions@[j]),
                None => forall|j: int| 0 <= j < i ==> !mode_fits(resolutions@[j]),
            },
        decreases resolutions.len() - i,
    {
        let (x, y) = resolutions[i];
        if x <= MAX_X && y <= MAX_Y {
            best = Some(i);
        }
        i += 1;
    }
    best
}

/// How the frame buffer's pixels are laid out.
#[derive(Clone, Copy, Debug, PartialEq, Eq, Structural)]
pub enum PixelFormat {
    Rgb,
    Bgr,
    Bitmask,
    BltOnly,
}

/// The frame buffer the kernel draws to.
#[derive(Clone, Copy, Debug, PartialEq, Eq, Structural)]
pub struct GopInfo {
    pub buffer: u64,
    pub buffer_size: usize,
    pub horizontal: usize,
    pub vertical: usize,
    pub stride: usize,
    pub pixel_format: PixelFormat,
}

/// Describes the frame buffer of the current mode.
pub fn get_gop_info(
    buffer: u64,
    buffer_size: usize,
    resolution: (usize, usize),
    stride: usize,
    pixel_format: PixelFormat,
) -> (g: GopInfo)
    ensures
        g == (GopInfo {
            buffer,
            buffer_size,
            horizontal: resolution.0,
            vertical: resolution.1,
            stride,
            pixel_format,
        }),
{
    GopInfo {
        buffer,
        buffer_size,
        horizontal: resolution.0,
        vertical: resolution.1,
        stride,
        pixel_format,
    }
}

/// What the bootloader hands to the kernel.
#[derive(Clone, Copy, Debug, PartialEq, Eq, Structural)]
pub struct BootInfo {
    pub uefi_runtime_table: u64,
    pub gop: GopInfo,
    pub mmap_buf: u64,
    pub mmap_entry_size: usize,
    pub mmap_len: usize,
    pub kernel_start: u64,
    pub kernel_pages: u64,
}

/// A file the bootloader tried to open: not there, a folder, or a regular
/// file with its buffer (as large as the file), how many bytes were read
/// into it, and the size the firmware gave.
pub enum OpenedFile {
    Missing,
    Dir,
    Regular { data: Vec<u8>, bytes_read: usize, file_size: u64 },
}

/// The bytes of a file read by the bootloader, and whether all of them
/// were read.
pub struct ReadFile {
    pub data: Vec<u8>,
    pub complete: bool,
}

/// What reading a file comes to: "File error..." when it could not be
/// opened, "The file appears to be a dir" for a folder; else the bytes, and
/// whether as many were read as the file has (the bootloader warns if not).
pub fn read_file(opened: OpenedFile) -> (r: Result<ReadFile, &'static str>)
    ensures
        match opened {
            OpenedFile::Missing => r matches Err(m) && m@ == "File error..."@,
            OpenedFile::Dir => r matches Err(m) && m@ == "The file appears to be a dir"@,
            OpenedFile::Regular { data, bytes_read, file_size } => r matches Ok(f) && f.data@
                == data@ && f.complete == (bytes_read == file_size),
        },
{
    match opened {
        OpenedFile::Missing => Err("File error..."),
        OpenedFile::Dir => Err("The file appears to be a dir"),
        OpenedFile::Regular { data, bytes_read, file_size } => {
            let complete = bytes_read as u128 == file_size as u128;
            Ok(ReadFile { data, complete })
        },
    }
}

/// Whether two texts are equal.
fn same_text(a: &str, b: &str) -> (r: bool)
    ensures
        r == (a@ == b@),
{
    let x = chars_of(a);
    let y = chars_of(b);
    if x.len() != y.len() {
        return false;
    }
    let mut i: usize = 0;
    while i < x.len()
        invariant
            x@ == a@,
            y@ == b@,
            x@.len() == y@.len(),
            i <= x@.len(),
            forall|j: int| 0 <= j < i ==> x@[j] == y@[j],
        decreases x.len() - i,
    {
        if x[i] != y[i] {
            return false;
        }
        i += 1;
    }
    assert(x@ =~= y@);
    true
}

/// The file of the boot file system with the given name: the first entry
/// of the table with that name.
pub fn early_bootfs_get<'a>(table: &[(&str, &'a [u8])], file: &str) -> (r: Option<&'a [u8]>)
    ensures
        match r {
            Some(d) => exists|i: int|
                0 <= i < table@.len() && table@[i].0@ == file@ && table@[i].1@ == d@ && forall|
                    j: int,
                | 0 <= j < i ==> table@[j].0@ != file@,
            None => forall|j: int| 0 <= j < table@.len() ==> table@[j].0@ != file@,
        },
{
    let mut i: usize = 0;
    while i < table.len()
        invariant
            i <= table@.len(),
            forall|j: int| 0 <= j < i ==> table@[j].0@ != file@,
        decreases table.len() - i,
    {
        let (name, entry) = table[i];
        if same_text(file, name) {
            return Some(entry);
        }
        i += 1;
    }
    None
}

/// The part of a boot file a read returns: nothing past the end; else from
/// the offset up to `len` bytes, cut at the end of the file.
pub fn bootfs_read_range(file_len: usize, offset: u64, len: u32) -> (r: Option<(usize, usize)>)
    ensures
        offset > file_len ==> r is None,
        offset <= file_len ==> r == Some(
            (
                offset as usize,
                (if offset + len < file_len {
                    offset + len
                } else {
                    file_len as int
                }) as usize,
            ),
        ),
{
    if offset as u128 > file_len as u128 {
        return None;
    }
    let start = offset as usize;
    let end = if (offset as u128) + (len as u128) < file_len as u128 {
        start + len as usize
    } else {
        file_len
    };
    Some((start, end))
}

} // verus!
