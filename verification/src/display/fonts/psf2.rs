//! Version 2 of the PC Screen Font format.
//!
//! A PSF2 file starts with a header of eight little-endian 32-bit words:
//! magic, version, header size, flags, number of glyphs, bytes per glyph,
//! glyph height and glyph width. The glyph table follows the header.
use vstd::prelude::*;
use crate::display::fonts::psf1::{glyph_bytes, glyph_index, glyph_slice, select_glyph};

verus! {

/// Size of the PSF2 header in bytes.
pub const HEADER_SIZE: usize = 32;

/// Magic number at the start of a PSF2 file, read little-endian.
pub const MAGIC: u32 = 0x864ab572;

/// The little-endian 32-bit word at byte offset `off`.
pub open spec fn le_u32_at(bytes: Seq<u8>, off: int) -> int {
    bytes[off] + 256 * bytes[off + 1] + 65536 * bytes[off + 2] + 16777216 * bytes[off + 3]
}

/// Header word number `i` (0 to 7).
pub open spec fn header_word(bytes: Seq<u8>, i: int) -> int {
    le_u32_at(bytes, 4 * i)
}

/// The file starts with the PSF2 magic number.
pub open spec fn psf2_magic_matches(bytes: Seq<u8>) -> bool {
    bytes.len() >= HEADER_SIZE && header_word(bytes, 0) == MAGIC
}

/// The inputs on which `PSF2::parse` does not panic: it reads a whole
/// header, and a file with the right magic must state the header size 32.
pub open spec fn psf2_parse_defined(bytes: Seq<u8>) -> bool {
    &&& bytes.len() >= HEADER_SIZE
    &&& psf2_magic_matches(bytes) ==> header_word(bytes, 2) == HEADER_SIZE
}

/// Reads the little-endian word at `off`.
pub(crate) fn read_le_u32(bytes: &[u8], off: usize) -> (w: u32)
    requires
        off + 4 <= bytes@.len(),
    ensures
        w == le_u32_at(bytes@, off as int),
{
    (bytes[off] as u32) + (bytes[off + 1] as u32) * 256 + (bytes[off + 2] as u32) * 65536
        + (bytes[off + 3] as u32) * 16777216
}

/// A parsed PSF2 font that borrows its glyph table from the file bytes.
pub struct PSF2<'font> {
    num_glyphs: usize,
    bytes_per_glyph: usize,
    height: usize,
    width: usize,
    glyphs: &'font [u8],
}

impl<'font> PSF2<'font> {
    /// Number of glyphs that the header announces.
    pub closed spec fn spec_num_glyphs(&self) -> nat {
        self.num_glyphs as nat
    }

    /// Size of one glyph in bytes.
    pub closed spec fn spec_bytes_per_glyph(&self) -> nat {
        self.bytes_per_glyph as nat
    }

    /// Glyph height in pixels.
    pub closed spec fn spec_height(&self) -> nat {
        self.height as nat
    }

    /// Glyph width in pixels.
    pub closed spec fn spec_width(&self) -> nat {
        self.width as nat
    }

    /// The glyph table: every byte after the header.
    pub closed spec fn spec_glyphs(&self) -> Seq<u8> {
        self.glyphs@
    }

    /// The font is the one that the header of `bytes` describes.
    pub open spec fn read_from(&self, bytes: Seq<u8>) -> bool {
        &&& self.spec_num_glyphs() == header_word(bytes, 4)
        &&& self.spec_bytes_per_glyph() == header_word(bytes, 5)
        &&& self.spec_height() == header_word(bytes, 6)
        &&& self.spec_width() == header_word(bytes, 7)
        &&& self.spec_glyphs() == bytes.subrange(HEADER_SIZE as int, bytes.len() as int)
    }

    /// `ch` selects a glyph that lies wholly inside the glyph table.
    pub open spec fn bitmap_in_table(&self, ch: char) -> bool {
        (glyph_index(ch, self.spec_num_glyphs()) + 1) * self.spec_bytes_per_glyph()
            <= self.spec_glyphs().len()
    }

    /// The bytes of the glyph that `ch` selects.
    pub open spec fn spec_bitmap(&self, ch: char) -> Seq<u8> {
        glyph_bytes(self.spec_glyphs(), glyph_index(ch, self.spec_num_glyphs()), self.spec_bytes_per_glyph())
    }

    /// Parses a PSF2 file. Returns `None` when the magic number does not match.
    pub fn parse(bytes: &'font [u8]) -> (res: Option<Self>)
        requires
            psf2_parse_defined(bytes@),
        ensures
            res is Some <==> psf2_magic_matches(bytes@),
            res matches Some(font) ==> font.read_from(bytes@),
    {
        if read_le_u32(bytes, 0) != MAGIC {
            return None;
        }
        let num_glyphs = read_le_u32(bytes, 16) as usize;
        let bytes_per_glyph = read_le_u32(bytes, 20) as usize;
        let height = read_le_u32(bytes, 24) as usize;
        let width = read_le_u32(bytes, 28) as usize;
        Some(PSF2 {
            num_glyphs,
            bytes_per_glyph,
            height,
            width,
            glyphs: &bytes[HEADER_SIZE..bytes.len()],
        })
    }

    /// The size of one glyph in bytes.
    pub fn glyph_size(&self) -> (n: usize)
        ensures
            n == self.spec_bytes_per_glyph(),
    {
        self.bytes_per_glyph
    }

    /// Whether the glyph that `ch` selects lies wholly inside the glyph table.
    pub fn has_glyph(&self, ch: char) -> (b: bool)
        ensures
            b == self.bitmap_in_table(ch),
    {
        let g = select_glyph(ch, self.num_glyphs);
        let len = self.glyphs.len();
        match g.checked_add(1) {
            Some(g1) => match g1.checked_mul(self.bytes_per_glyph) {
                Some(end) => end <= len,
                None => false,
            },
            None => false,
        }
    }

    /// The bitmap of `ch`; characters outside the font get glyph 0, the
    /// glyph for invalid characters.
    pub fn bitmap(&self, ch: char) -> (out: &'font [u8])
        requires
            self.bitmap_in_table(ch),
        ensures
            out@ == self.spec_bitmap(ch),
    {
        let g = select_glyph(ch, self.num_glyphs);
        glyph_slice(self.glyphs, g, self.bytes_per_glyph)
    }

    /// Glyph width in pixels.
    pub fn width(&self) -> (w: usize)
        ensures
            w == self.spec_width(),
    {
        self.width
    }

    /// Glyph height in pixels.
    pub fn height(&self) -> (h: usize)
        ensures
            h == self.spec_height(),
    {
        self.height
    }
}

/// Law: in a font read from `bytes`, the bitmap of a character is the
/// glyph's bytes in the file, right after the 32 header bytes. The glyph
/// count and the glyph size are the little-endian words at bytes 16 and 20;
/// the glyph is the character's code point when that is below the count,
/// glyph 0 otherwise.
pub proof fn lemma_bitmap_in_file(font: PSF2, bytes: Seq<u8>, ch: char)
    requires
        bytes.len() >= HEADER_SIZE,
        font.read_from(bytes),
        font.bitmap_in_table(ch),
    ensures
        ({
            let n: int = bytes[16] + 256 * bytes[17] + 65536 * bytes[18] + 16777216 * bytes[19];
            let size: int = bytes[20] + 256 * bytes[21] + 65536 * bytes[22] + 16777216 * bytes[23];
            let g: int = if (ch as int) < n { ch as int } else { 0 };
            &&& 32 + (g + 1) * size <= bytes.len()
            &&& font.spec_bitmap(ch) == bytes.subrange(32 + g * size, 32 + (g + 1) * size)
        }),
{
    let g = glyph_index(ch, font.spec_num_glyphs());
    let size = font.spec_bytes_per_glyph();
    assert((g + 1) * size == g * size + size) by (nonlinear_arith);
    assert(0 <= g * size) by (nonlinear_arith);
    assert(glyph_bytes(font.spec_glyphs(), g, size)
        =~= bytes.subrange(HEADER_SIZE + g * size, HEADER_SIZE + (g + 1) * size));
}

} // verus!
