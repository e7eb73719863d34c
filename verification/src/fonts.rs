//! The font table of the first display driver: PSF1 fonts only.
use vstd::prelude::*;
use crate::display::fonts::psf1::{PSF1, psf1_magic_matches, psf1_parse_defined, lemma_bitmap_in_file, lemma_glyph_count_flag};

verus! {

/// A parsed font.
pub enum PSF<'font> {
    PSF1(PSF1<'font>),
}

impl<'font> PSF<'font> {
    /// `ch` selects a glyph that lies wholly inside the glyph table.
    pub open spec fn bitmap_in_table(&self, ch: char) -> bool {
        match self {
            PSF::PSF1(f) => f.bitmap_in_table(ch),
        }
    }

    /// The bytes of the glyph that `ch` selects.
    pub open spec fn spec_bitmap(&self, ch: char) -> Seq<u8> {
        match self {
            PSF::PSF1(f) => f.spec_bitmap(ch),
        }
    }

    /// Parses a PSF1 file; `None` when the magic number does not match.
    pub fn parse(bytes: &'font [u8]) -> (res: Option<Self>)
        requires
            psf1_parse_defined(bytes@),
        ensures
            res is Some <==> psf1_magic_matches(bytes@),
            res matches Some(PSF::PSF1(f)) ==> f.read_from(bytes@),
    {
        if let Some(psf1) = PSF1::parse(bytes) {
            Some(PSF::PSF1(psf1))
        } else {
            None
        }
    }

    /// The bitmap of `ch`.
    pub fn get_bitmap(&self, ch: char) -> (out: &'font [u8])
        requires
            self.bitmap_in_table(ch),
        ensures
            out@ == self.spec_bitmap(ch),
            self matches PSF::PSF1(f) && out@ == f.spec_bitmap(ch),
    {
        match self {
            PSF::PSF1(psf) => psf.bitmap(ch),
        }
    }
}

/// Law: for a font parsed from `bytes`, `get_bitmap(ch)` gives the bytes of
/// glyph `g` of the file, `bytes[4 + g * bytes[3] .. 4 + (g + 1) * bytes[3]]`,
/// where `g` is the character's code point when that is below the glyph
/// count (512 when bit 0 of the mode byte `bytes[2]` is set, 256 otherwise)
/// and 0 else; the character has a bitmap exactly when that glyph ends
/// inside the file.
pub proof fn lemma_get_bitmap_in_file(font: PSF, bytes: Seq<u8>, ch: char)
    requires
        psf1_parse_defined(bytes),
        psf1_magic_matches(bytes),
        font matches PSF::PSF1(f) && f.read_from(bytes),
    ensures
        ({
            let n: int = if bytes[2] & 1u8 != 0 { 512 } else { 256 };
            let size: int = bytes[3] as int;
            let g: int = if (ch as int) < n { ch as int } else { 0 };
            &&& font.bitmap_in_table(ch) <==> 4 + (g + 1) * size <= bytes.len()
            &&& font.bitmap_in_table(ch) ==> font.spec_bitmap(ch) == bytes.subrange(
                4 + g * size,
                4 + (g + 1) * size,
            )
        }),
{
    match font {
        PSF::PSF1(f) => {
            lemma_glyph_count_flag(f, bytes);
            if f.bitmap_in_table(ch) {
                lemma_bitmap_in_file(f, bytes, ch);
            }
        },
    }
}

} // verus!
