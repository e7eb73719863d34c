use renim::display::fonts::parse_defined;
use renim::display::fonts::psf1::PSF1;
use renim::display::fonts::psf2::PSF2;
use renim::display::fonts::{PSFType, PSF};

/// A PSF1 file with `n` glyphs of `charsize` bytes; byte `r` of glyph `g` is `g + r`.
fn psf1_bytes(mode: u8, charsize: u8, n: usize) -> Vec<u8> {
    let mut v = vec![0x36, 0x04, mode, charsize];
    for g in 0..n {
        for r in 0..charsize as usize {
            v.push((g + r) as u8);
        }
    }
    v
}

fn le32(v: &mut Vec<u8>, x: u32) {
    v.extend_from_slice(&x.to_le_bytes());
}

/// A PSF2 file with `n` glyphs of the given size; byte `r` of glyph `g` is `g * 3 + r`.
fn psf2_bytes(n: u32, width: u32, height: u32) -> Vec<u8> {
    let bpg = height * ((width + 7) / 8);
    let mut v = Vec::new();
    le32(&mut v, 0x864ab572);
    le32(&mut v, 0);
    le32(&mut v, 32);
    le32(&mut v, 0);
    le32(&mut v, n);
    le32(&mut v, bpg);
    le32(&mut v, height);
    le32(&mut v, width);
    for g in 0..n {
        for r in 0..bpg {
            v.push((g * 3 + r) as u8);
        }
    }
    v
}

#[test]
fn psf1_parse_reads_header() {
    let bytes = psf1_bytes(0, 16, 256);
    let font = PSF1::parse(&bytes).unwrap();
    assert_eq!(font.width(), 8);
    assert_eq!(font.height(), 16);
    // glyph 'A' starts at 4 + 65 * 16
    assert_eq!(font.bitmap('A'), &bytes[4 + 65 * 16..4 + 66 * 16]);
}

#[test]
fn psf1_parse_rejects_wrong_magic() {
    let mut bytes = psf1_bytes(0, 16, 256);
    bytes[0] = 0x37;
    assert!(PSF1::parse(&bytes).is_none());
    // Two bytes suffice to reject.
    assert!(PSF1::parse(&[0u8, 0u8]).is_none());
}

#[test]
fn psf1_mode_512_has_512_glyphs() {
    let bytes = psf1_bytes(0x01, 8, 512);
    let font = PSF1::parse(&bytes).unwrap();
    // U+0100 lies in a 512 glyph font.
    assert_eq!(font.bitmap('\u{100}'), &bytes[4 + 256 * 8..4 + 257 * 8]);
    // A mode with only other bits set keeps 256 glyphs.
    let bytes = psf1_bytes(0x06, 8, 512);
    let font = PSF1::parse(&bytes).unwrap();
    assert_eq!(font.bitmap('\u{100}'), &bytes[4..4 + 8]);
}

#[test]
fn psf1_unknown_character_gets_glyph_zero() {
    let bytes = psf1_bytes(0, 16, 256);
    let font = PSF1::parse(&bytes).unwrap();
    assert_eq!(font.bitmap('\u{263A}'), &bytes[4..20]);
    assert_eq!(font.bitmap('\u{263A}'), font.bitmap('\0'));
}

#[test]
fn psf2_parse_reads_header() {
    let bytes = psf2_bytes(128, 12, 20);
    let font = PSF2::parse(&bytes).unwrap();
    assert_eq!(font.width(), 12);
    assert_eq!(font.height(), 20);
    // 40 bytes per glyph
    assert_eq!(font.bitmap('a'), &bytes[32 + 97 * 40..32 + 98 * 40]);
    // out of the table: glyph 0
    assert_eq!(font.bitmap('\u{80}'), &bytes[32..72]);
}

#[test]
fn psf2_parse_rejects_wrong_magic() {
    let mut bytes = psf2_bytes(4, 8, 8);
    bytes[3] = 0;
    assert!(PSF2::parse(&bytes).is_none());
}

#[test]
fn psf_parse_tells_versions_apart() {
    let b1 = psf1_bytes(0, 14, 256);
    let f1 = PSF::parse(&b1).unwrap();
    assert!(matches!(f1.psf_type, PSFType::PSF1(_)));
    assert_eq!((f1.width, f1.height), (8, 14));
    assert_eq!(f1.bitmap('x'), &b1[4 + 120 * 14..4 + 121 * 14]);

    let b2 = psf2_bytes(256, 16, 32);
    let f2 = PSF::parse(&b2).unwrap();
    assert!(matches!(f2.psf_type, PSFType::PSF2(_)));
    assert_eq!((f2.width, f2.height), (16, 32));
    assert_eq!(f2.bitmap('x'), &b2[32 + 120 * 64..32 + 121 * 64]);

    let neither = vec![0u8; 64];
    assert!(PSF::parse(&neither).is_none());
}

#[test]
fn psf_type_parse_and_dimensions() {
    let b2 = psf2_bytes(2, 9, 3);
    let t = PSFType::parse(&b2).unwrap();
    assert_eq!(t.width(), 9);
    assert_eq!(t.height(), 3);
    assert_eq!(t.bitmap('\u{1}'), &b2[32 + 6..32 + 12]);
}

#[test]
fn first_driver_font_table() {
    let bytes = psf1_bytes(0, 16, 256);
    let font = renim::fonts::PSF::parse(&bytes).unwrap();
    assert_eq!(font.get_bitmap('B'), &bytes[4 + 66 * 16..4 + 67 * 16]);
    let mut bad = bytes.clone();
    bad[1] = 0;
    assert!(renim::fonts::PSF::parse(&bad).is_none());
}

#[test]
fn parse_defined_follows_header_reads() {
    assert!(!parse_defined(&[0x36]));
    assert!(!parse_defined(&[0x36, 0x04, 0]));
    assert!(parse_defined(&[0x36, 0x04, 0, 8]));
    assert!(!parse_defined(&[0u8; 31]));
    assert!(parse_defined(&[0u8; 32]));
    let mut bad_header = psf2_bytes(1, 8, 8);
    bad_header[8] = 16;
    assert!(!parse_defined(&bad_header));
    assert!(parse_defined(&psf2_bytes(1, 8, 8)));
}
