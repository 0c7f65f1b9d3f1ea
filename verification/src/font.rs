//! PC Screen Font version 1, the bitmap font the bootloader hands to the
//! kernel: a four-byte header, the glyphs, then the Unicode table.
use vstd::prelude::*;

verus! {

/// The two bytes a PSF1 file starts with.
pub const PSF1_MAGIC: [u8; 2] = [0x36, 0x04];

/// The header of a PSF1 font.
#[derive(Clone, Copy, Debug)]
pub struct PSF1FontHeader {
    pub magic: [u8; 2],
    pub mode_512: u8,
    pub charsize: u8,
}

/// A font: its header, the bitmaps of its glyphs, and its Unicode table.
pub struct PSF1Font {
    pub psf1_header: PSF1FontHeader,
    pub glyph_buffer: Vec<u8>,
    pub unicode_buffer: Vec<u8>,
}

/// Why a font file was refused.
#[derive(Clone, Copy, Debug, PartialEq, Eq, Structural)]
pub enum FontError {
    /// The file does not start with the PSF1 magic.
    BadMagic,
}

/// The bytes of the glyph bitmaps: `charsize` bytes for each of 256
/// glyphs, or of 512 when the mode byte is exactly 1.
pub open spec fn glyph_bytes(mode_512: u8, charsize: u8) -> int {
    if mode_512 == 1 {
        charsize * 512
    } else {
        charsize * 256
    }
}

/// Whether a file starts with the PSF1 magic.
pub open spec fn has_psf1_magic(b: Seq<u8>) -> bool {
    b[0] == 0x36 && b[1] == 0x04
}

/// Reads a PSF1 font from the whole file: the header from its first four
/// bytes, the glyphs that the header announces, and the rest as the
/// Unicode table. A file without the magic is refused.
pub fn parse_psf1(bytes: &[u8]) -> (r: Result<PSF1Font, FontError>)
    requires
        bytes@.len() >= 4,
        has_psf1_magic(bytes@) ==> bytes@.len() >= 4 + glyph_bytes(bytes@[2], bytes@[3]),
    ensures
        !has_psf1_magic(bytes@) ==> r == Err::<PSF1Font, FontError>(FontError::BadMagic),
        has_psf1_magic(bytes@) ==> (r matches Ok(f) && f.psf1_header == (PSF1FontHeader {
            magic: [0x36, 0x04],
            mode_512: bytes@[2],
            charsize: bytes@[3],
        }) && f.glyph_buffer@ == bytes@.subrange(4, 4 + glyph_bytes(bytes@[2], bytes@[3]))
            && f.unicode_buffer@ == bytes@.subrange(
            4 + glyph_bytes(bytes@[2], bytes@[3]),
            bytes@.len() as int,
        )),
{
    let header = PSF1FontHeader { magic: [bytes[0], bytes[1]], mode_512: bytes[2], charsize: bytes[3] };
    if header.magic[0] != PSF1_MAGIC[0] || header.magic[1] != PSF1_MAGIC[1] {
        return Err(FontError::BadMagic);
    }
    let mut glyph_size: usize = header.charsize as usize * 256;
    if header.mode_512 == 1 {
        glyph_size = glyph_size * 2;
    }
    let glyph_end = 4 + glyph_size;
    let glyphs = vstd::slice::slice_to_vec(vstd::slice::slice_subrange(bytes, 4, glyph_end));
    let unicode = vstd::slice::slice_to_vec(
        vstd::slice::slice_subrange(bytes, glyph_end, bytes.len()),
    );
    assert(header.magic =~= [0x36u8, 0x04u8]);
    Ok(PSF1Font { psf1_header: header, glyph_buffer: glyphs, unicode_buffer: unicode })
}

} // verus!
