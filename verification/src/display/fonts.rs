//! PC Screen Fonts: a font is a PSF1 or a PSF2 file, told apart by its magic number.
pub mod psf1;
pub mod psf2;

use vstd::prelude::*;
use crate::display::fonts::psf1::{PSF1, psf1_magic_matches, psf1_parse_defined, glyph_bytes, glyph_index};
use crate::display::fonts::psf2::{PSF2, psf2_magic_matches, psf2_parse_defined, read_le_u32};

verus! {

/// The inputs on which `PSF::parse` does not panic: the PSF1 reader runs
/// first, and the PSF2 reader runs only when the PSF1 magic does not match.
pub open spec fn psf_parse_defined(bytes: Seq<u8>) -> bool {
    &&& psf1_parse_defined(bytes)
    &&& !psf1_magic_matches(bytes) ==> psf2_parse_defined(bytes)
}

/// Whether `PSF::parse` is defined on `bytes`.
pub fn parse_defined(bytes: &[u8]) -> (b: bool)
    ensures
        b == psf_parse_defined(bytes@),
{
    let len = bytes.len();
    if len < 2 {
        return false;
    }
    let psf1 = (bytes[0] as u16) + (bytes[1] as u16) * 256 == psf1::MAGIC;
    if psf1 {
        return len >= psf1::HEADER_SIZE;
    }
    if len < psf2::HEADER_SIZE {
        return false;
    }
    read_le_u32(bytes, 0) != psf2::MAGIC || read_le_u32(bytes, 8) as usize == psf2::HEADER_SIZE
}

/// A parsed font together with the glyph size in pixels.
pub struct PSF<'font> {
    pub width: usize,
    pub height: usize,
    pub psf_type: PSFType<'font>,
}

impl<'font> PSF<'font> {
    /// `ch` selects a glyph that lies wholly inside the glyph table.
    pub open spec fn bitmap_in_table(&self, ch: char) -> bool {
        self.psf_type.bitmap_in_table(ch)
    }

    /// The bytes of the glyph that `ch` selects.
    pub open spec fn spec_bitmap(&self, ch: char) -> Seq<u8> {
        self.psf_type.spec_bitmap(ch)
    }

    /// The bitmap of a character inside the table has the glyph size.
    pub proof fn lemma_bitmap_len(&self, ch: char)
        requires
            self.bitmap_in_table(ch),
        ensures
            self.spec_bitmap(ch).len() == self.psf_type.spec_glyph_size(),
    {
        let g = glyph_index(ch, self.psf_type.spec_num_glyphs());
        let size = self.psf_type.spec_glyph_size();
        assert((g + 1) * size == g * size + size) by (nonlinear_arith);
        assert(0 <= g * size) by (nonlinear_arith);
    }

    /// Parses a PSF1 or PSF2 file; `None` when neither magic number matches.
    pub fn parse(bytes: &'font [u8]) -> (res: Option<Self>)
        requires
            psf_parse_defined(bytes@),
        ensures
            res is Some <==> (psf1_magic_matches(bytes@) || psf2_magic_matches(bytes@)),
            res matches Some(font) ==> {
                &&& font.psf_type.read_from(bytes@)
                &&& (font.psf_type is PSF1 <==> psf1_magic_matches(bytes@))
                &&& font.width == font.psf_type.spec_width()
                &&& font.height == font.psf_type.spec_height()
            },
    {
        match PSFType::parse(bytes) {
            Some(psf_type) => {
                let width = psf_type.width();
                let height = psf_type.height();
                Some(PSF { width, height, psf_type })
            },
            None => None,
        }
    }

    /// Whether the glyph that `ch` selects lies wholly inside the glyph table.
    pub fn has_glyph(&self, ch: char) -> (b: bool)
        ensures
            b == self.bitmap_in_table(ch),
            b == self.psf_type.bitmap_in_table(ch),
    {
        self.psf_type.has_glyph(ch)
    }

    /// The size of one glyph in bytes.
    pub fn glyph_size(&self) -> (n: usize)
        ensures
            n == self.psf_type.spec_glyph_size(),
    {
        self.psf_type.glyph_size()
    }

    /// The bitmap of `ch`.
    pub fn bitmap(&self, ch: char) -> (out: &'font [u8])
        requires
            self.bitmap_in_table(ch),
        ensures
            out@ == self.spec_bitmap(ch),
            out@ == self.psf_type.spec_bitmap(ch),
    {
        self.psf_type.bitmap(ch)
    }
}

/// A font in either version of the format.
pub enum PSFType<'font> {
    PSF1(PSF1<'font>),
    PSF2(PSF2<'font>),
}

impl<'font> PSFType<'font> {
    /// Number of glyphs in the font.
    pub open spec fn spec_num_glyphs(&self) -> nat {
        match self {
            PSFType::PSF1(f) => f.spec_num_glyphs(),
            PSFType::PSF2(f) => f.spec_num_glyphs(),
        }
    }

    /// Size of one glyph in bytes.
    pub open spec fn spec_glyph_size(&self) -> nat {
        match self {
            PSFType::PSF1(f) => f.spec_charsize(),
            PSFType::PSF2(f) => f.spec_bytes_per_glyph(),
        }
    }

    /// The glyph table.
    pub open spec fn spec_glyphs(&self) -> Seq<u8> {
        match self {
            PSFType::PSF1(f) => f.spec_glyphs(),
            PSFType::PSF2(f) => f.spec_glyphs(),
        }
    }

    /// Glyph width in pixels.
    pub open spec fn spec_width(&self) -> nat {
        match self {
            PSFType::PSF1(f) => psf1::WIDTH as nat,
            PSFType::PSF2(f) => f.spec_width(),
        }
    }

    /// Glyph height in pixels.
    pub open spec fn spec_height(&self) -> nat {
        match self {
            PSFType::PSF1(f) => f.spec_charsize(),
            PSFType::PSF2(f) => f.spec_height(),
        }
    }

    /// `ch` selects a glyph that lies wholly inside the glyph table.
    pub open spec fn bitmap_in_table(&self, ch: char) -> bool {
        (glyph_index(ch, self.spec_num_glyphs()) + 1) * self.spec_glyph_size()
            <= self.spec_glyphs().len()
    }

    /// The bytes of the glyph that `ch` selects.
    pub open spec fn spec_bitmap(&self, ch: char) -> Seq<u8> {
        glyph_bytes(self.spec_glyphs(), glyph_index(ch, self.spec_num_glyphs()), self.spec_glyph_size())
    }

    /// The font is the one that `bytes` describes, in its own version.
    pub open spec fn read_from(&self, bytes: Seq<u8>) -> bool {
        match self {
            PSFType::PSF1(f) => f.read_from(bytes),
            PSFType::PSF2(f) => f.read_from(bytes),
        }
    }

    /// Tries PSF1, then PSF2.
    pub fn parse(bytes: &'font [u8]) -> (res: Option<Self>)
        requires
            psf_parse_defined(bytes@),
        ensures
            res is Some <==> (psf1_magic_matches(bytes@) || psf2_magic_matches(bytes@)),
            res matches Some(t) ==> (t is PSF1 <==> psf1_magic_matches(bytes@)),
            res matches Some(t) ==> t.read_from(bytes@),
    {
        if let Some(psf1) = PSF1::parse(bytes) {
            Some(PSFType::PSF1(psf1))
        } else if let Some(psf2) = PSF2::parse(bytes) {
            Some(PSFType::PSF2(psf2))
        } else {
            None
        }
    }

    /// Whether the glyph that `ch` selects lies wholly inside the glyph table.
    pub fn has_glyph(&self, ch: char) -> (b: bool)
        ensures
            b == self.bitmap_in_table(ch),
    {
        match self {
            PSFType::PSF1(font) => font.has_glyph(ch),
            PSFType::PSF2(font) => font.has_glyph(ch),
        }
    }

    /// The bitmap of `ch`.
    pub fn bitmap(&self, ch: char) -> (out: &'font [u8])
        requires
            self.bitmap_in_table(ch),
        ensures
            out@ == self.spec_bitmap(ch),
    {
        match self {
            PSFType::PSF1(font) => font.bitmap(ch),
            PSFType::PSF2(font) => font.bitmap(ch),
        }
    }

    /// The size of one glyph in bytes.
    pub fn glyph_size(&self) -> (n: usize)
        ensures
            n == self.spec_glyph_size(),
    {
        match self {
            PSFType::PSF1(font) => font.glyph_size(),
            PSFType::PSF2(font) => font.glyph_size(),
        }
    }

    /// Glyph width in pixels.
    pub fn width(&self) -> (w: usize)
        ensures
            w == self.spec_width(),
    {
        match self {
            PSFType::PSF1(font) => font.width(),
            PSFType::PSF2(font) => font.width(),
        }
    }

    /// Glyph height in pixels.
    pub fn height(&self) -> (h: usize)
        ensures
            h == self.spec_height(),
    {
        match self {
            PSFType::PSF1(font) => font.height(),
            PSFType::PSF2(font) => font.height(),
        }
    }
}

/// Law: the bitmap that a font parsed from `bytes` gives for `ch` is the
/// glyph's bytes in the file. A PSF1 file (magic 0x0436, little-endian)
/// has a 4-byte header, 512 glyphs when bit 0 of its mode byte `bytes[2]`
/// is set and 256 otherwise, and glyphs of `bytes[3]` bytes; a PSF2 file
/// has a 32-byte header, and its glyph count and glyph size are the
/// little-endian words at bytes 16 and 20. The glyph is the character's
/// code point when that is below the count, glyph 0 otherwise; the
/// character has a bitmap exactly when that glyph ends inside the file.
pub proof fn lemma_font_bitmap_in_file(font: PSF, bytes: Seq<u8>, ch: char)
    requires
        psf_parse_defined(bytes),
        psf1_magic_matches(bytes) || psf2_magic_matches(bytes),
        font.psf_type.read_from(bytes),
        font.psf_type is PSF1 <==> psf1_magic_matches(bytes),
    ensures
        ({
            let v1: bool = bytes[0] + 256 * bytes[1] == 0x0436;
            let header: int = if v1 { 4 } else { 32 };
            let n: int = if v1 {
                if bytes[2] & 1u8 != 0 { 512 } else { 256 }
            } else {
                bytes[16] + 256 * bytes[17] + 65536 * bytes[18] + 16777216 * bytes[19]
            };
            let size: int = if v1 {
                bytes[3] as int
            } else {
                bytes[20] + 256 * bytes[21] + 65536 * bytes[22] + 16777216 * bytes[23]
            };
            let g: int = if (ch as int) < n { ch as int } else { 0 };
            &&& font.bitmap_in_table(ch) <==> header + (g + 1) * size <= bytes.len()
            &&& font.bitmap_in_table(ch) ==> font.spec_bitmap(ch) == bytes.subrange(
                header + g * size,
                header + (g + 1) * size,
            )
        }),
{
    match font.psf_type {
        PSFType::PSF1(f) => {
            psf1::lemma_glyph_count_flag(f, bytes);
            if f.bitmap_in_table(ch) {
                psf1::lemma_bitmap_in_file(f, bytes, ch);
            }
        },
        PSFType::PSF2(f) => {
            if f.bitmap_in_table(ch) {
                psf2::lemma_bitmap_in_file(f, bytes, ch);
            }
        },
    }
}

} // verus!
