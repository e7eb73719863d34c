# renim

The verified parts of a small x86-64 kernel, written in Verus.

* `src/display/fonts` — PC Screen Font files (PSF1 and PSF2): header parsing
  and glyph lookup, with contracts that tie every field and every bitmap to
  the bytes of the file.
* `src/display/writer.rs` — a text console on a linear framebuffer: drawing
  glyphs into a back buffer, scrolling, clearing and copying to the
  framebuffer. Its contracts describe the buffers byte by byte; the laws show
  that a drawn glyph reads back pixel by pixel and that text may be written in
  pieces.
* `src/fonts.rs` — the font table of the first display driver.
* `src/arch/pic.rs` — interrupt vectors of the chained interrupt controllers.
* `src/test_framework.rs` — unit test descriptors and the name handling of the
  unit test attribute.
* `app/` — the host preview program and the hardware glue: serial port, spin
  lock, interrupt flag, descriptor tables, interrupt controllers, the global
  console and the test runner.
