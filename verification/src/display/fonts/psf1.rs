//! Version 1 of the PC Screen Font format.
//!
//! A PSF1 file is a four byte header (a little-endian magic number, a mode
//! byte and the size of one glyph in bytes) followed by the glyph table.
//! Every glyph is eight pixels wide and one byte per pixel row.
use vstd::prelude::*;

verus! {

/// Magic number at the start of a PSF1 file, read little-endian.
pub const MAGIC: u16 = 0x0436;

/// Mode flag: the font holds 512 glyphs instead of 256.
pub const MODE_512: u8 = 0x01;

/// Width in pixels of every PSF1 glyph.
pub const WIDTH: usize = 8;

/// Size of the PSF1 header in bytes.
pub const HEADER_SIZE: usize = 4;

/// The little-endian value of two bytes.
pub open spec fn le_u16(b0: u8, b1: u8) -> int {
    b0 + 256 * b1
}

/// The file starts with the PSF1 magic number (needs at least two bytes).
pub open spec fn psf1_magic_matches(bytes: Seq<u8>) -> bool {
    bytes.len() >= 2 && le_u16(bytes[0], bytes[1]) == MAGIC
}

/// The inputs on which `PSF1::parse` does not panic: it reads the magic
/// number first and the rest of the header only when the magic matches.
pub open spec fn psf1_parse_defined(bytes: Seq<u8>) -> bool {
    &&& bytes.len() >= 2
    &&& psf1_magic_matches(bytes) ==> bytes.len() >= HEADER_SIZE
}

/// Number of glyphs that a mode byte announces.
pub open spec fn psf1_glyph_count(mode: u8) -> nat {
    if mode % 2 == 1 { 512 } else { 256 }
}

/// The glyph that a character selects in a table of `num_glyphs` glyphs:
/// the character's own code point when it is in the table, glyph 0 otherwise.
pub open spec fn glyph_index(ch: char, num_glyphs: nat) -> nat {
    if (ch as nat) < num_glyphs { ch as nat } else { 0 }
}

/// The bytes of glyph `g` in a table of glyphs of `size` bytes each.
pub open spec fn glyph_bytes(table: Seq<u8>, g: nat, size: nat) -> Seq<u8> {
    table.subrange((g * size) as int, ((g + 1) * size) as int)
}

/// The index of the glyph for `ch`, computed as the fonts do.
pub fn select_glyph(ch: char, num_glyphs: usize) -> (g: usize)
    ensures
        g == glyph_index(ch, num_glyphs as nat),
{
    let code = ch as u32;
    if (code as usize) < num_glyphs {
        code as usize
    } else {
        0
    }
}

/// The bytes `[g * size, (g + 1) * size)` of `table`.
pub fn glyph_slice<'a>(table: &'a [u8], g: usize, size: usize) -> (out: &'a [u8])
    requires
        (g + 1) * size <= table@.len(),
    ensures
        out@ == glyph_bytes(table@, g as nat, size as nat),
{
    // The table's length fits in `usize`, and so does every offset below it.
    let _table_len = table.len();
    proof {
        assert((g + 1) * size == g * size + size) by (nonlinear_arith);
        assert(0 <= g * size) by (nonlinear_arith);
    }
    let start = g * size;
    let end = start + size;
    &table[start..end]
}

/// A parsed PSF1 font that borrows its glyph table from the file bytes.
pub struct PSF1<'font> {
    charsize: usize,
    num_glyphs: usize,
    glyphs: &'font [u8],
}

impl<'font> PSF1<'font> {
    /// Size of one glyph in bytes (one byte per pixel row).
    pub closed spec fn spec_charsize(&self) -> nat {
        self.charsize as nat
    }

    /// Number of glyphs that the header announces.
    pub closed spec fn spec_num_glyphs(&self) -> nat {
        self.num_glyphs as nat
    }

    /// The glyph table: every byte after the header.
    pub closed spec fn spec_glyphs(&self) -> Seq<u8> {
        self.glyphs@
    }

    /// The font is the one that the header of `bytes` describes.
    pub open spec fn read_from(&self, bytes: Seq<u8>) -> bool {
        &&& self.spec_charsize() == bytes[3]
        &&& self.spec_num_glyphs() == psf1_glyph_count(bytes[2])
        &&& self.spec_glyphs() == bytes.subrange(HEADER_SIZE as int, bytes.len() as int)
    }

    /// `ch` selects a glyph that lies wholly inside the glyph table.
    pub open spec fn bitmap_in_table(&self, ch: char) -> bool {
        (glyph_index(ch, self.spec_num_glyphs()) + 1) * self.spec_charsize()
            <= self.spec_glyphs().len()
    }

    /// The bytes of the glyph that `ch` selects.
    pub open spec fn spec_bitmap(&self, ch: char) -> Seq<u8> {
        glyph_bytes(self.spec_glyphs(), glyph_index(ch, self.spec_num_glyphs()), self.spec_charsize())
    }

    /// Parses a PSF1 file. Returns `None` when the magic number does not match.
    pub fn parse(bytes: &'font [u8]) -> (res: Option<Self>)
        requires
            psf1_parse_defined(bytes@),
        ensures
            res is Some <==> psf1_magic_matches(bytes@),
            res matches Some(font) ==> font.read_from(bytes@),
            res matches Some(font) ==> font.spec_num_glyphs() == (if bytes@[2] & 1u8 != 0 {
                512nat
            } else {
                256nat
            }),
            res matches Some(font) ==> font.spec_charsize() == bytes@[3],
    {
        let magic = (bytes[0] as u16) + (bytes[1] as u16) * 256;
        if magic != MAGIC {
            return None;
        }
        let mode = bytes[2];
        let charsize = bytes[3];
        let num_glyphs: usize = if mode & MODE_512 != 0 { 512 } else { 256 };
        proof {
            assert((mode & MODE_512 != 0) == (mode % 2 == 1)) by (bit_vector);
        }
        Some(PSF1 {
            charsize: charsize as usize,
            num_glyphs,
            glyphs: &bytes[HEADER_SIZE..bytes.len()],
        })
    }

    /// The size of one glyph in bytes.
    pub fn glyph_size(&self) -> (n: usize)
        ensures
            n == self.spec_charsize(),
    {
        self.charsize
    }

    /// Whether the glyph that `ch` selects lies wholly inside the glyph table.
    pub fn has_glyph(&self, ch: char) -> (b: bool)
        ensures
            b == self.bitmap_in_table(ch),
    {
        let g = select_glyph(ch, self.num_glyphs);
        let len = self.glyphs.len();
        match g.checked_add(1) {
            Some(g1) => match g1.checked_mul(self.charsize) {
                Some(end) => end <= len,
                None => false,
            },
            None => false,
        }
    }

    /// The bitmap of `ch`; characters outside the font get glyph 0, the
    /// glyph for invalid characters.
    pub fn bitmap(&self, ch: char) -> (out: &'font [u8])
        requires
            self.bitmap_in_table(ch),
        ensures
            out@ == self.spec_bitmap(ch),
    {
        let g = select_glyph(ch, self.num_glyphs);
        glyph_slice(self.glyphs, g, self.charsize)
    }

    /// Glyph width in pixels: always 8.
    pub fn width(&self) -> (w: usize)
        ensures
            w == WIDTH,
    {
        WIDTH
    }

    /// Glyph height in pixels: one row per byte of a glyph.
    pub fn height(&self) -> (h: usize)
        ensures
            h == self.spec_charsize(),
    {
        self.charsize
    }
}

/// Law: the 512-glyph flag is bit 0 of the mode byte, whatever the other
/// mode bits hold. A font read from `bytes` has 512 glyphs when that bit is
/// set and 256 when it is clear, and each glyph is `bytes[3]` bytes long.
pub proof fn lemma_glyph_count_flag(font: PSF1, bytes: Seq<u8>)
    requires
        bytes.len() >= HEADER_SIZE,
        font.read_from(bytes),
    ensures
        bytes[2] & 1u8 != 0 ==> font.spec_num_glyphs() == 512,
        bytes[2] & 1u8 == 0 ==> font.spec_num_glyphs() == 256,
        font.spec_charsize() == bytes[3],
{
    let mode = bytes[2];
    assert((mode & 1u8 != 0) == (mode % 2 == 1)) by (bit_vector);
}

/// Law: in a font read from `bytes`, the bitmap of a character is the
/// glyph's bytes in the file, right after the four header bytes. The glyph
/// is the character's code point when that is below the glyph count (512
/// when bit 0 of the mode byte is set, 256 otherwise) and glyph 0 else, and
/// it is `bytes[3]` bytes long.
pub proof fn lemma_bitmap_in_file(font: PSF1, bytes: Seq<u8>, ch: char)
    requires
        bytes.len() >= HEADER_SIZE,
        font.read_from(bytes),
        font.bitmap_in_table(ch),
    ensures
        ({
            let n: nat = if bytes[2] & 1u8 != 0 { 512 } else { 256 };
            let g: nat = if (ch as nat) < n { ch as nat } else { 0 };
            let size: nat = bytes[3] as nat;
            &&& 4 + (g + 1) * size <= bytes.len()
            &&& font.spec_bitmap(ch) == bytes.subrange((4 + g * size) as int, (4 + (g + 1) * size) as int)
        }),
{
    lemma_glyph_count_flag(font, bytes);
    let g = glyph_index(ch, font.spec_num_glyphs());
    let size = font.spec_charsize();
    assert((g + 1) * size == g * size + size) by (nonlinear_arith);
    assert(0 <= g * size) by (nonlinear_arith);
    assert(glyph_bytes(font.spec_glyphs(), g, size)
        =~= bytes.subrange(HEADER_SIZE + g * size, HEADER_SIZE + (g + 1) * size));
}

} // verus!
