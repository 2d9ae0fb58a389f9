//! PSF version 1 bitmap-font headers.

use vstd::prelude::*;

verus! {

/// First magic byte of a PSF1 font file.
pub const PSF1_MAGIC0: u8 = 0x36;

/// Second magic byte of a PSF1 font file.
pub const PSF1_MAGIC1: u8 = 0x04;

/// The four-byte header of a PSF version 1 font.
#[derive(Clone, Copy, Debug)]
pub struct PsfHeader {
    pub magic: [u8; 2],
    pub mode: u8,
    pub charsize: u8,
}

impl PsfHeader {
    /// Reads a header from the first four bytes of `bytes`, without checking it.
    pub fn from_bytes(bytes: &[u8]) -> (h: PsfHeader)
        requires
            bytes@.len() >= 4,
        ensures
            h.magic@ == seq![bytes@[0], bytes@[1]],
            h.mode == bytes@[2],
            h.charsize == bytes@[3],
    {
        PsfHeader { magic: [bytes[0], bytes[1]], mode: bytes[2], charsize: bytes[3] }
    }

    /// Reads the header at the start of a PSF1 font file, refusing a file whose
    /// first two bytes are not the PSF1 magic number.
    pub fn parse_psf1(bytes: &[u8]) -> (r: Option<PsfHeader>)
        requires
            bytes@.len() >= 4,
        ensures
            r is Some <==> (bytes@[0] == PSF1_MAGIC0 && bytes@[1] == PSF1_MAGIC1),
            r matches Some(h) ==> {
                &&& h.magic@ == seq![bytes@[0], bytes@[1]]
                &&& h.mode == bytes@[2]
                &&& h.charsize == bytes@[3]
            },
    {
        if bytes[0] != PSF1_MAGIC0 || bytes[1] != PSF1_MAGIC1 {
            return None;
        }
        Some(PsfHeader::from_bytes(bytes))
    }

    /// Number of glyphs in the font: 512 in mode 1, 256 otherwise.
    pub open spec fn glyph_count(self) -> nat {
        if self.mode == 1 { 512 } else { 256 }
    }

    /// Size in bytes of the glyph table that follows the header: one
    /// `charsize`-byte bitmap per glyph, 512 glyphs in mode 1 and 256 otherwise.
    pub fn glyph_buffer_size(&self) -> (n: usize)
        ensures
            n == self.charsize * self.glyph_count(),
            n == self.charsize * (if self.mode == 1 { 512int } else { 256int }),
    {
        if self.mode == 1 {
            self.charsize as usize * 512
        } else {
            self.charsize as usize * 256
        }
    }

    /// Size of the glyph table the boot loader reads for the kernel's font:
    /// 256 glyphs of `charsize` bytes, whatever the mode.
    pub fn boot_glyph_table_size(&self) -> (n: usize)
        ensures
            n == self.charsize * 256,
    {
        self.charsize as usize * 256
    }
}

/// A PSF1 font: its header and its glyph table, one `charsize`-byte bitmap
/// per glyph, each bitmap row one byte with the leftmost pixel in the top bit.
#[derive(Clone, Debug)]
pub struct PsfFont {
    pub header: PsfHeader,
    pub buffer: Vec<u8>,
}

/// A PSF1 font holds 512 glyphs exactly when its mode byte is 1; any other
/// mode byte, whatever its other bits, means 256 glyphs.
pub proof fn lemma_glyph_count_by_mode(h: PsfHeader)
    ensures
        h.mode == 1 ==> h.glyph_count() == 512,
        h.mode != 1 ==> h.glyph_count() == 256,
        h.glyph_count() == 512 <==> h.mode == 1,
{
}

} // verus!
