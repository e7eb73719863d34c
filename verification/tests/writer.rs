use renim::display::colour::Colour;
use renim::display::fonts::PSF;
use renim::display::writer::{FrameBufferInfo, PixelFormat, Writer};
use renim::display::{_kprint, _kprint_with_colour};

const WIDTH: usize = 64;
const HEIGHT: usize = 32;
const BPP: usize = 4;

/// A PSF1 font of 256 glyphs of 16 rows; row `r` of glyph `g` is `g * 7 + r * 13`.
fn font_bytes() -> Vec<u8> {
    let mut v = vec![0x36, 0x04, 0x00, 16];
    for g in 0..256usize {
        for r in 0..16usize {
            v.push((g * 7 + r * 13) as u8);
        }
    }
    v
}

fn info(format: PixelFormat) -> FrameBufferInfo {
    FrameBufferInfo {
        byte_len: WIDTH * HEIGHT * BPP,
        horizontal_resolution: WIDTH,
        vertical_resolution: HEIGHT,
        pixel_format: format,
        bytes_per_pixel: BPP,
        stride: WIDTH,
    }
}

fn writer(font: &[u8], format: PixelFormat) -> Writer<'_> {
    let psf = PSF::parse(font).unwrap();
    Writer::new(vec![0xAA; WIDTH * HEIGHT * BPP], info(format), psf)
}

fn pixel(c: Colour) -> [u8; 4] {
    [c.r, c.g, c.b, 0]
}

/// Checks that the glyphs of `s` stand on the text line whose top is `row`.
fn check_line(buf: &[u8], font: &PSF, s: &str, row: usize, fg: [u8; 4], bg: [u8; 4]) {
    let mut col = 0;
    for ch in s.chars() {
        let bitmap = font.bitmap(ch);
        for (r, byte) in bitmap.iter().enumerate() {
            for c in 0..8 {
                let offset = ((row + r) * WIDTH + col + c) * BPP;
                let expected = if (0b1000_0000u8 >> c) & byte != 0 { fg } else { bg };
                assert_eq!(&buf[offset..offset + 4], &expected[..]);
            }
        }
        col += font.width;
    }
}

#[test]
fn new_writer_keeps_framebuffer() {
    let bytes = font_bytes();
    let w = writer(&bytes, PixelFormat::RGB);
    assert!(w.framebuffer().iter().all(|&b| b == 0xAA));
    assert!(w.back_buffer().iter().all(|&b| b == 0));
    assert_eq!(w.colour_fg(), Colour::new(0xd4, 0xd4, 0xd4));
    assert_eq!(w.colour_bg(), Colour::new(0x1e, 0x1e, 0x1e));
}

#[test]
fn clear_screen() {
    let bytes = font_bytes();
    let mut w = writer(&bytes, PixelFormat::RGB);
    w.clear_screen();
    let bg = pixel(w.colour_bg());
    for chunk in w.back_buffer().chunks(4) {
        assert_eq!(chunk, &bg[..]);
    }
    // The framebuffer is only updated by the next flush.
    assert!(w.framebuffer().iter().all(|&b| b == 0xAA));
}

#[test]
fn clear_screen_function_uses_background() {
    let bytes = font_bytes();
    let mut w = writer(&bytes, PixelFormat::BGR);
    w.set_colour_bg(Colour::new(1, 2, 3));
    renim::display::clear_screen(&mut w);
    for chunk in w.back_buffer().chunks(4) {
        assert_eq!(chunk, &[3, 2, 1, 0][..]);
    }
}

#[test]
fn kprintln_output() {
    let bytes = font_bytes();
    let font = PSF::parse(&bytes).unwrap();
    let mut w = writer(&bytes, PixelFormat::RGB);
    let s = "Some";
    _kprint(&mut w, "\n");
    _kprint(&mut w, s);
    _kprint(&mut w, "\n");
    let fg = pixel(w.colour_fg());
    let bg = pixel(w.colour_bg());
    // After the trailing new line the text sits one line above the bottom.
    check_line(w.back_buffer(), &font, s, HEIGHT - 2 * font.height, fg, bg);
    // The new line shows the whole back buffer.
    assert_eq!(w.framebuffer(), w.back_buffer());
}

#[test]
fn glyph_is_flushed_to_framebuffer() {
    let bytes = font_bytes();
    let font = PSF::parse(&bytes).unwrap();
    let mut w = writer(&bytes, PixelFormat::RGB);
    w.write_char('Q');
    let fg = pixel(w.colour_fg());
    let bg = pixel(w.colour_bg());
    check_line(w.back_buffer(), &font, "Q", HEIGHT - font.height, fg, bg);
    check_line(w.framebuffer(), &font, "Q", HEIGHT - font.height, fg, bg);
    // Outside the glyph's rectangle the framebuffer is untouched.
    let right_of_glyph = ((HEIGHT - 1) * WIDTH + 8) * BPP;
    assert_eq!(w.framebuffer()[right_of_glyph], 0xAA);
    assert_eq!(w.framebuffer()[0], 0xAA);
}

#[test]
fn newline_scrolls_up_one_text_line() {
    let bytes = font_bytes();
    let mut w = writer(&bytes, PixelFormat::RGB);
    w.write_char('a');
    let before = w.back_buffer().to_vec();
    w.write_char('\n');
    let line = 16 * WIDTH * BPP;
    let after = w.back_buffer();
    assert_eq!(&after[..before.len() - line], &before[line..]);
    let bg = pixel(w.colour_bg());
    for chunk in after[before.len() - line..].chunks(4) {
        assert_eq!(chunk, &bg[..]);
    }
    assert_eq!(w.framebuffer(), after);
}

#[test]
fn line_wraps_before_right_edge() {
    let bytes = font_bytes();
    let font = PSF::parse(&bytes).unwrap();
    let mut w = writer(&bytes, PixelFormat::RGB);
    // Seven glyphs fit on a 64 pixel line; the eighth starts a new line.
    w.write_str("abcdefgh");
    let fg = pixel(w.colour_fg());
    let bg = pixel(w.colour_bg());
    check_line(w.back_buffer(), &font, "abcdefg", HEIGHT - 2 * font.height, fg, bg);
    check_line(w.back_buffer(), &font, "h", HEIGHT - font.height, fg, bg);
}

#[test]
fn kprint_with_colour_restores_foreground() {
    let bytes = font_bytes();
    let font = PSF::parse(&bytes).unwrap();
    let mut w = writer(&bytes, PixelFormat::BGR);
    let red = Colour::new(0xFF, 0, 0);
    _kprint_with_colour(&mut w, red, "ok");
    assert_eq!(w.colour_fg(), Colour::new(0xd4, 0xd4, 0xd4));
    let bg = w.colour_bg();
    check_line(w.back_buffer(), &font, "ok", HEIGHT - font.height, [0, 0, 0xFF, 0], [bg.b, bg.g, bg.r, 0]);
}

#[test]
fn colour_setters() {
    let bytes = font_bytes();
    let mut w = writer(&bytes, PixelFormat::RGB);
    w.set_colour_fg(Colour::new(9, 8, 7));
    w.set_colour_bg(Colour::new(1, 1, 1));
    assert_eq!(w.colour_fg(), Colour::new(9, 8, 7));
    assert_eq!(w.colour_bg(), Colour::new(1, 1, 1));
}

#[test]
fn writing_in_pieces_equals_writing_at_once() {
    let bytes = font_bytes();
    let mut a = writer(&bytes, PixelFormat::RGB);
    let mut b = writer(&bytes, PixelFormat::RGB);
    a.write_str("abc\nde");
    a.write_str("fghij\n");
    b.write_str("abc\ndefghij\n");
    assert_eq!(a.back_buffer(), b.back_buffer());
    assert_eq!(a.framebuffer(), b.framebuffer());
}

#[test]
fn geometry_check_matches_layout() {
    let bytes = font_bytes();
    let font = PSF::parse(&bytes).unwrap();
    let len = WIDTH * HEIGHT * BPP;
    assert!(renim::display::writer::geometry_fits(&info(PixelFormat::RGB), len, font.width, font.height, font.glyph_size()));
    // unsupported pixel format
    assert!(!renim::display::writer::geometry_fits(&info(PixelFormat::U8), len, font.width, font.height, font.glyph_size()));
    // a buffer one text line too short for the bottom line
    assert!(!renim::display::writer::geometry_fits(&info(PixelFormat::RGB), len - 16 * WIDTH * BPP, font.width, font.height, font.glyph_size()));
    // a font taller than the screen
    assert!(!renim::display::writer::geometry_fits(&info(PixelFormat::RGB), len, 8, HEIGHT + 1, HEIGHT + 1));
}

#[test]
fn can_print_checks_glyph_table() {
    let mut bytes = font_bytes();
    bytes.truncate(4 + 100 * 16);
    let font = PSF::parse(&bytes).unwrap();
    assert!(!font.has_glyph('e'));
    assert!(font.has_glyph('a'));
    assert!(font.has_glyph('A'));
    let w = Writer::new(vec![0; WIDTH * HEIGHT * BPP], info(PixelFormat::RGB), font);
    assert!(w.can_print('\n'));
    assert!(w.can_print('A'));
    assert!(!w.can_print('z'));
}
