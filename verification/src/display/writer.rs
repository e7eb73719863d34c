//! A text console on a linear framebuffer.
//!
//! Characters are drawn at the bottom line of the screen into a back buffer;
//! the part of the back buffer that changed is then copied to the
//! framebuffer. A new line scrolls the whole back buffer up by one text line
//! and copies all of it to the framebuffer.
use vstd::prelude::*;
use crate::display::colour::Colour;
use crate::display::fonts::PSF;

verus! {

//================================================
//  FRAMEBUFFER DESCRIPTION
//================================================

/// How the bytes of one pixel hold its colour.
#[derive(Clone, Copy, Debug, PartialEq, Eq, Structural)]
pub enum PixelFormat {
    /// Red, green, blue, then a padding byte.
    RGB,
    /// Blue, green, red, then a padding byte.
    BGR,
    /// One grey-scale byte.
    U8,
    /// Any other layout.
    Unknown,
}

/// The layout of a linear framebuffer.
#[derive(Clone, Copy, Debug, PartialEq, Eq, Structural)]
pub struct FrameBufferInfo {
    /// Length of the framebuffer in bytes.
    pub byte_len: usize,
    /// Visible pixels per line.
    pub horizontal_resolution: usize,
    /// Visible lines.
    pub vertical_resolution: usize,
    /// Layout of one pixel.
    pub pixel_format: PixelFormat,
    /// Bytes per pixel.
    pub bytes_per_pixel: usize,
    /// Pixels from the start of one line to the start of the next.
    pub stride: usize,
}

/// The pixel formats that the console can draw in.
pub open spec fn supported_format(format: PixelFormat) -> bool {
    format == PixelFormat::RGB || format == PixelFormat::BGR
}

/// The four bytes that the console writes for a pixel of colour `c`.
pub open spec fn pixel_bytes(format: PixelFormat, c: Colour) -> Seq<u8> {
    if format == PixelFormat::BGR {
        seq![c.b, c.g, c.r, 0u8]
    } else {
        seq![c.r, c.g, c.b, 0u8]
    }
}

/// Byte offset of the pixel at `row` and `column`.
pub open spec fn pixel_offset(info: FrameBufferInfo, row: int, column: int) -> int {
    (row * info.stride + column) * info.bytes_per_pixel
}

/// `buf` with the bytes of `px` written from offset `off` on.
pub open spec fn put_pixel(buf: Seq<u8>, off: int, px: Seq<u8>) -> Seq<u8> {
    Seq::new(buf.len(), |k: int| if off <= k < off + px.len() { px[k - off] } else { buf[k] })
}

/// `dst` with the bytes in `[from, to)` taken from `src`.
pub open spec fn copy_range(dst: Seq<u8>, src: Seq<u8>, from: int, to: int) -> Seq<u8> {
    Seq::new(dst.len(), |k: int| if from <= k < to { src[k] } else { dst[k] })
}

/// A buffer of `len` bytes filled with copies of the pixel `px`.
pub open spec fn fill_pixels(len: nat, px: Seq<u8>) -> Seq<u8> {
    Seq::new(len, |k: int| px[k % 4])
}

/// `back` scrolled up by `start` bytes, the freed bytes at the end
/// filled with copies of the pixel `px`.
pub open spec fn scroll_up(back: Seq<u8>, start: int, px: Seq<u8>) -> Seq<u8> {
    let keep = back.len() - start;
    Seq::new(back.len(), |k: int| if k < keep { back[k + start] } else { px[(k - keep) % 4] })
}

/// The framebuffer `front` after copying the first `k` lines of a rectangle of
/// `width` pixels at `row`, `column` from the back buffer `back`.
pub open spec fn flush_rows(
    front: Seq<u8>,
    back: Seq<u8>,
    info: FrameBufferInfo,
    row: nat,
    column: nat,
    width: nat,
    k: nat,
) -> Seq<u8>
    decreases k,
{
    if k == 0 {
        front
    } else {
        let prev = flush_rows(front, back, info, row, column, width, (k - 1) as nat);
        let begin = pixel_offset(info, (row + k - 1) as int, column as int);
        copy_range(prev, back, begin, begin + width * info.bytes_per_pixel)
    }
}

//================================================
//  GLYPH DRAWING
//================================================

/// Bytes of a glyph bitmap per pixel row.
pub open spec fn bytes_per_row(width: nat) -> nat {
    (width + 7) / 8
}

/// Number of pixel rows of a glyph bitmap of `len` bytes: one per started
/// row of bytes.
pub open spec fn glyph_rows(len: nat, width: nat) -> nat {
    let bpr = bytes_per_row(width);
    ((len + bpr - 1) / (bpr as int)) as nat
}

/// Whether bit `k` (counted from the most significant) of `byte` is set.
pub open spec fn bit_set(byte: u8, k: nat) -> bool {
    (0x80u8 >> (k as u8)) & byte != 0
}

/// A glyph placed on the screen: the bitmap, its width, the pixel position of
/// its top left corner, the layout of the framebuffer, and the two pixels
/// for set and clear bits.
pub struct GlyphCell {
    pub glyph: Seq<u8>,
    pub width: nat,
    pub row: nat,
    pub column: nat,
    pub info: FrameBufferInfo,
    pub fg: Seq<u8>,
    pub bg: Seq<u8>,
}

impl GlyphCell {
    /// Number of pixel rows drawn.
    pub open spec fn rows(self) -> nat {
        glyph_rows(self.glyph.len(), self.width)
    }

    /// Number of pixels drawn in row `r`: the glyph width, or eight per byte
    /// of a last, shorter row when the width is a multiple of eight.
    pub open spec fn columns(self, r: nat) -> nat {
        let bpr = bytes_per_row(self.width);
        if self.width % 8 == 0 {
            let avail = self.glyph.len() - r * bpr;
            if avail < bpr { 8 * (avail as nat) } else { 8 * bpr }
        } else {
            self.width
        }
    }

    /// Whether the glyph pixel at row `r`, column `c` is set.
    pub open spec fn pixel_set(self, r: nat, c: nat) -> bool {
        bit_set(self.glyph[(r * bytes_per_row(self.width) + c / 8) as int], c % 8)
    }

    /// The pixel drawn at row `r`, column `c` of the glyph.
    pub open spec fn pixel(self, r: nat, c: nat) -> Seq<u8> {
        if self.pixel_set(r, c) { self.fg } else { self.bg }
    }

    /// Byte offset of row `r`, column `c` of the glyph in the buffer.
    pub open spec fn offset(self, r: nat, c: nat) -> int {
        pixel_offset(self.info, (self.row + r) as int, (self.column + c) as int)
    }

    /// `buf` after drawing the first `n` pixels of row `r`, left to right.
    pub open spec fn paint_row(self, buf: Seq<u8>, r: nat, n: nat) -> Seq<u8>
        decreases n,
    {
        if n == 0 {
            buf
        } else {
            let prev = self.paint_row(buf, r, (n - 1) as nat);
            put_pixel(prev, self.offset(r, (n - 1) as nat), self.pixel(r, (n - 1) as nat))
        }
    }

    /// `buf` after drawing the first `m` rows, top to bottom.
    pub open spec fn paint(self, buf: Seq<u8>, m: nat) -> Seq<u8>
        decreases m,
    {
        if m == 0 {
            buf
        } else {
            let prev = self.paint(buf, (m - 1) as nat);
            self.paint_row(prev, (m - 1) as nat, self.columns((m - 1) as nat))
        }
    }

    /// `buf` with the whole glyph drawn.
    pub open spec fn draw(self, buf: Seq<u8>) -> Seq<u8> {
        self.paint(buf, self.rows())
    }
}

//================================================
//  LEMMAS
//================================================

/// Pixel offsets grow with the row and the column.
pub proof fn lemma_offset_monotonic(info: FrameBufferInfo, r1: int, c1: int, r2: int, c2: int)
    requires
        0 <= r1 <= r2,
        0 <= c1 <= c2,
    ensures
        pixel_offset(info, r1, c1) <= pixel_offset(info, r2, c2),
{
    let s = info.stride as int;
    let b = info.bytes_per_pixel as int;
    assert(r1 * s <= r2 * s) by (nonlinear_arith)
        requires
            0 <= r1 <= r2,
            0 <= s,
    ;
    assert((r1 * s + c1) * b <= (r2 * s + c2) * b) by (nonlinear_arith)
        requires
            0 <= r1 * s + c1 <= r2 * s + c2,
            0 <= b,
    ;
}

/// The pixel offset of a row and column, plus `w` pixels.
pub proof fn lemma_offset_add(info: FrameBufferInfo, r: int, c: int, w: int)
    ensures
        pixel_offset(info, r, c) + w * info.bytes_per_pixel == pixel_offset(info, r, c + w),
{
    let s = info.stride as int;
    let b = info.bytes_per_pixel as int;
    assert((r * s + c) * b + w * b == (r * s + c + w) * b) by (nonlinear_arith);
}

/// With at least one byte per pixel, the pixel index is no larger than the
/// byte offset.
pub proof fn lemma_index_below_offset(info: FrameBufferInfo, r: int, c: int)
    requires
        0 <= r,
        0 <= c,
        info.bytes_per_pixel >= 1,
    ensures
        0 <= r * info.stride,
        r * info.stride + c <= pixel_offset(info, r, c),
{
    let s = info.stride as int;
    let b = info.bytes_per_pixel as int;
    assert(0 <= r * s) by (nonlinear_arith)
        requires
            0 <= r,
            0 <= s,
    ;
    assert(r * s + c <= (r * s + c) * b) by (nonlinear_arith)
        requires
            0 <= r * s + c,
            1 <= b,
    ;
}


/// A row index is below the number of glyph rows exactly when the row
/// starts inside the bitmap.
pub proof fn lemma_glyph_rows(len: nat, width: nat, r: nat)
    requires
        width >= 1,
    ensures
        bytes_per_row(width) >= 1,
        r < glyph_rows(len, width) <==> r * bytes_per_row(width) < len,
{
    let b = bytes_per_row(width) as int;
    let q = glyph_rows(len, width) as int;
    let a = len as int;
    assert(b >= 1);
    vstd::arithmetic::div_mod::lemma_fundamental_div_mod(a + b - 1, b);
    let rem = (a + b - 1) % b;
    assert(0 <= rem < b);
    assert(a + b - 1 == b * q + rem);
    if r < q {
        assert((r + 1) * b <= q * b) by (nonlinear_arith)
            requires r + 1 <= q, b >= 1;
        assert(r * b + b == (r + 1) * b) by (nonlinear_arith);
        assert(q * b == b * q) by (nonlinear_arith);
    }
    if r * b < a {
        assert(r * b + b == (r + 1) * b) by (nonlinear_arith);
        assert(q * b == b * q) by (nonlinear_arith);
        assert((r + 1) * b <= q * b + b - 1);
        assert(r + 1 <= q) by (nonlinear_arith)
            requires (r + 1) * b <= q * b + b - 1, b >= 1;
    }
}

/// When the bitmap holds whole rows of bytes, a row that starts inside it
/// also ends inside it.
pub proof fn lemma_whole_rows(len: nat, bpr: nat, r: nat)
    requires
        bpr >= 1,
        len % bpr == 0,
        r * bpr < len,
    ensures
        r * bpr + bpr <= len,
{
    let q = len / bpr;
    vstd::arithmetic::div_mod::lemma_fundamental_div_mod(len as int, bpr as int);
    assert(len == bpr * q);
    assert(r * bpr + bpr <= len) by (nonlinear_arith)
        requires len == bpr * q, r * bpr < len, bpr >= 1;
}

/// The byte and bit arithmetic that the glyph drawing uses.
pub proof fn lemma_row_bytes(width: usize)
    requires
        width + 7 <= usize::MAX,
    ensures
        ((width + 7) as usize) >> 3usize == bytes_per_row(width as nat),
        width & 7 == width % 8,
        width % 8 != 0 ==> width == 8 * (bytes_per_row(width as nat) - 1) + width % 8,
        width % 8 == 0 ==> width == 8 * bytes_per_row(width as nat),
{
    let w7 = (width + 7) as usize;
    assert(w7 >> 3usize == w7 / 8) by (bit_vector);
    assert(width & 7 == width % 8) by (bit_vector);
}


//================================================
//  READING BACK WHAT WAS DRAWN
//================================================

impl GlyphCell {
    /// Pixels are at least four bytes apart and a line holds the glyph, so
    /// no two pixels of the glyph share a byte.
    pub open spec fn separated(self) -> bool {
        &&& self.info.bytes_per_pixel >= 4
        &&& self.info.stride >= self.width
        &&& self.fg.len() == 4
        &&& self.bg.len() == 4
    }
}

/// Drawing pixels keeps the buffer length.
proof fn lemma_paint_row_len(cell: GlyphCell, buf: Seq<u8>, r: nat, n: nat)
    ensures
        cell.paint_row(buf, r, n).len() == buf.len(),
    decreases n,
{
    if n > 0 {
        lemma_paint_row_len(cell, buf, r, (n - 1) as nat);
    }
}

/// Drawing the first `n` pixels of row `r` touches no byte before the row's
/// first pixel and none from the offset of pixel `n` on.
proof fn lemma_paint_row_frame(cell: GlyphCell, buf: Seq<u8>, r: nat, n: nat, k: int)
    requires
        cell.separated(),
        k < cell.offset(r, 0) || k >= cell.offset(r, n),
        0 <= k < buf.len(),
    ensures
        cell.paint_row(buf, r, n)[k] == buf[k],
    decreases n,
{
    if n > 0 {
        let m = (n - 1) as nat;
        lemma_offset_add(cell.info, (cell.row + r) as int, (cell.column + m) as int, 1);
        lemma_offset_monotonic(cell.info, (cell.row + r) as int, cell.column as int, (cell.row + r) as int, (cell.column + m) as int);
        lemma_offset_monotonic(cell.info, (cell.row + r) as int, (cell.column + m) as int, (cell.row + r) as int, (cell.column + n) as int);
        lemma_paint_row_frame(cell, buf, r, m, k);
        lemma_paint_row_len(cell, buf, r, m);
    }
}

/// After drawing the first `n` pixels of row `r`, pixel `c < n` holds its
/// colour.
proof fn lemma_paint_row_readback(cell: GlyphCell, buf: Seq<u8>, r: nat, n: nat, c: nat)
    requires
        cell.separated(),
        c < n,
        0 <= cell.offset(r, c),
        cell.offset(r, c) + 4 <= buf.len(),
    ensures
        cell.paint_row(buf, r, n).subrange(cell.offset(r, c), cell.offset(r, c) + 4) == cell.pixel(r, c),
    decreases n,
{
    let m = (n - 1) as nat;
    lemma_paint_row_len(cell, buf, r, m);
    if c < m {
        lemma_paint_row_readback(cell, buf, r, m, c);
        lemma_offset_add(cell.info, (cell.row + r) as int, (cell.column + c) as int, 1);
        lemma_offset_monotonic(cell.info, (cell.row + r) as int, (cell.column + c + 1) as int, (cell.row + r) as int, (cell.column + m) as int);
        let prev = cell.paint_row(buf, r, m);
        assert(cell.paint_row(buf, r, n).subrange(cell.offset(r, c), cell.offset(r, c) + 4)
            =~= prev.subrange(cell.offset(r, c), cell.offset(r, c) + 4));
    } else {
        let prev = cell.paint_row(buf, r, m);
        assert(cell.paint_row(buf, r, n).subrange(cell.offset(r, c), cell.offset(r, c) + 4)
            =~= cell.pixel(r, c));
    }
}

/// Drawing rows `r` and below touches no byte before the first pixel of row `r`.
proof fn lemma_paint_rows_frame(cell: GlyphCell, buf: Seq<u8>, r: nat, m: nat, k: int)
    requires
        cell.separated(),
        r <= m,
        k < cell.offset(r, 0),
        0 <= k < buf.len(),
    ensures
        cell.paint(buf, m)[k] == cell.paint(buf, r)[k],
    decreases m - r,
{
    if m > r {
        let p = (m - 1) as nat;
        lemma_paint_rows_frame(cell, buf, r, p, k);
        lemma_paint_rows_len(cell, buf, p);
        lemma_offset_monotonic(cell.info, (cell.row + r) as int, cell.column as int, (cell.row + p) as int, cell.column as int);
        lemma_paint_row_frame(cell, cell.paint(buf, p), p, cell.columns(p), k);
    }
}

/// Drawing keeps the buffer length.
proof fn lemma_paint_rows_len(cell: GlyphCell, buf: Seq<u8>, m: nat)
    requires
        cell.separated(),
    ensures
        cell.paint(buf, m).len() == buf.len(),
    decreases m,
{
    if m > 0 {
        let p = (m - 1) as nat;
        lemma_paint_rows_len(cell, buf, p);
        lemma_paint_row_len(cell, cell.paint(buf, p), p, cell.columns(p));
    }
}

/// Law: once a glyph is drawn, every one of its pixels reads back as the
/// foreground where the glyph's bit is set and as the background elsewhere,
/// provided pixels do not share bytes.
pub proof fn lemma_glyph_readback(cell: GlyphCell, buf: Seq<u8>, r: nat, c: nat)
    requires
        cell.separated(),
        r < cell.rows(),
        c < cell.columns(r),
        cell.columns(r) <= cell.width,
        cell.offset(r, c) + 4 <= buf.len(),
    ensures
        cell.draw(buf).len() == buf.len(),
        cell.draw(buf).subrange(cell.offset(r, c), cell.offset(r, c) + 4) == cell.pixel(r, c),
{
    lemma_paint_rows_len(cell, buf, cell.rows());
    lemma_paint_rows_len(cell, buf, r);
    lemma_paint_rows_len(cell, buf, r + 1);
    lemma_offset_monotonic(cell.info, 0, 0, (cell.row + r) as int, (cell.column + c) as int);
    lemma_paint_row_readback(cell, cell.paint(buf, r), r, cell.columns(r), c);
    let after = cell.paint(buf, r + 1);
    // Rows below `r` start after this pixel's bytes.
    let s = cell.info.stride as int;
    let b = cell.info.bytes_per_pixel as int;
    let row = (cell.row + r) as int;
    let col = (cell.column + c) as int;
    assert(pixel_offset(cell.info, row, col) + 4 <= pixel_offset(cell.info, row + 1, cell.column as int)) by (nonlinear_arith)
        requires
            b >= 4,
            s >= cell.width,
            c < cell.width,
            col == cell.column + c,
            pixel_offset(cell.info, row, col) == (row * s + col) * b,
            pixel_offset(cell.info, row + 1, cell.column as int) == ((row + 1) * s + cell.column) * b,
    ;
    assert forall|k: int| cell.offset(r, c) <= k < cell.offset(r, c) + 4 implies
        cell.draw(buf)[k] == after[k] by {
        lemma_paint_rows_frame(cell, buf, r + 1, cell.rows(), k);
    }
    assert(cell.draw(buf).subrange(cell.offset(r, c), cell.offset(r, c) + 4)
        =~= after.subrange(cell.offset(r, c), cell.offset(r, c) + 4));
}

/// After copying lines of a rectangle, every byte of a copied line holds the
/// back buffer's byte.
proof fn lemma_flush_rows_copied(
    front: Seq<u8>,
    back: Seq<u8>,
    info: FrameBufferInfo,
    row: nat,
    column: nat,
    width: nat,
    n: nat,
    j: nat,
    k: int,
)
    requires
        front.len() == back.len(),
        j < n,
        pixel_offset(info, (row + j) as int, column as int) <= k
            < pixel_offset(info, (row + j) as int, column as int) + width * info.bytes_per_pixel,
        0 <= k < back.len(),
    ensures
        flush_rows(front, back, info, row, column, width, n).len() == front.len(),
        flush_rows(front, back, info, row, column, width, n)[k] == back[k],
    decreases n,
{
    let p = (n - 1) as nat;
    lemma_flush_rows_len(front, back, info, row, column, width, p);
    if j < p {
        lemma_flush_rows_copied(front, back, info, row, column, width, p, j, k);
    }
}

/// Copying lines keeps the framebuffer length.
proof fn lemma_flush_rows_len(front: Seq<u8>, back: Seq<u8>, info: FrameBufferInfo, row: nat, column: nat, width: nat, n: nat)
    ensures
        flush_rows(front, back, info, row, column, width, n).len() == front.len(),
    decreases n,
{
    if n > 0 {
        lemma_flush_rows_len(front, back, info, row, column, width, (n - 1) as nat);
    }
}

//================================================
//  BUFFER
//================================================

/// Byte-level representation of a pixel.
#[derive(Clone, Copy)]
enum Pixel {
    U32(u8, u8, u8, u8),
}

impl Pixel {
    spec fn view(self) -> Seq<u8> {
        match self {
            Pixel::U32(a, b, c, d) => seq![a, b, c, d],
        }
    }
}

/// The framebuffer together with its back buffer.
struct Buffer {
    framebuffer: Vec<u8>,
    buffer: Vec<u8>,
    info: FrameBufferInfo,
}

impl Buffer {
    /// Byte offset of the pixel at `row`, `column`, in pixels.
    fn offset(&self, row: usize, column: usize) -> (o: usize)
        requires
            row * self.info.stride + column <= usize::MAX,
        ensures
            o == row * self.info.stride + column,
    {
        row * self.info.stride + column
    }

    /// The bytes of a pixel of colour `colour`.
    fn get_pixel(&self, colour: Colour) -> (px: Pixel)
        requires
            supported_format(self.info.pixel_format),
        ensures
            px.view() == pixel_bytes(self.info.pixel_format, colour),
    {
        match self.info.pixel_format {
            PixelFormat::BGR => Pixel::U32(colour.b, colour.g, colour.r, 0),
            _ => Pixel::U32(colour.r, colour.g, colour.b, 0),
        }
    }

    /// Writes the four bytes of `pixel` to the back buffer at `byte_offset`.
    fn write_pixel(&mut self, byte_offset: usize, pixel: Pixel)
        requires
            byte_offset + 4 <= old(self).buffer@.len(),
        ensures
            final(self).buffer@ == put_pixel(old(self).buffer@, byte_offset as int, pixel.view()),
            final(self).framebuffer@ == old(self).framebuffer@,
            final(self).info == old(self).info,
    {
        let Pixel::U32(a, b, c, d) = pixel;
        // The buffer's length fits in `usize`, and so does every offset below it.
        let _len = self.buffer.len();
        self.buffer.set(byte_offset, a);
        self.buffer.set(byte_offset + 1, b);
        self.buffer.set(byte_offset + 2, c);
        self.buffer.set(byte_offset + 3, d);
        assert(self.buffer@ =~= put_pixel(old(self).buffer@, byte_offset as int, pixel.view()));
    }

    /// Draws one pixel of colour `colour` into the back buffer.
    fn draw(&mut self, row: usize, column: usize, colour: Colour)
        requires
            supported_format(old(self).info.pixel_format),
            old(self).info.bytes_per_pixel >= 1,
            pixel_offset(old(self).info, row as int, column as int) + 4 <= old(self).buffer@.len(),
        ensures
            final(self).buffer@ == put_pixel(
                old(self).buffer@,
                pixel_offset(old(self).info, row as int, column as int),
                pixel_bytes(old(self).info.pixel_format, colour),
            ),
            final(self).framebuffer@ == old(self).framebuffer@,
            final(self).info == old(self).info,
    {
        // The buffer's length fits in `usize`, and so does every offset below it.
        let _len = self.buffer.len();
        proof {
            lemma_index_below_offset(self.info, row as int, column as int);
        }
        let byte_offset = self.offset(row, column) * self.info.bytes_per_pixel;
        let px = self.get_pixel(colour);
        self.write_pixel(byte_offset, px);
    }

    /// Copies a rectangle of `width` by `height` pixels at `row`, `column`
    /// from the back buffer to the framebuffer, line by line.
    fn flush(&mut self, row: usize, column: usize, width: usize, height: usize)
        requires
            old(self).info.bytes_per_pixel >= 1,
            old(self).framebuffer@.len() == old(self).buffer@.len(),
            row + height <= usize::MAX,
            height > 0 ==> pixel_offset(
                old(self).info,
                row + height - 1,
                column + width,
            ) <= old(self).buffer@.len(),
        ensures
            final(self).framebuffer@ == flush_rows(
                old(self).framebuffer@,
                old(self).buffer@,
                old(self).info,
                row as nat,
                column as nat,
                width as nat,
                height as nat,
            ),
            final(self).framebuffer@.len() == old(self).framebuffer@.len(),
            final(self).buffer@ == old(self).buffer@,
            final(self).info == old(self).info,
    {
        let len = self.buffer.len();
        let bpp = self.info.bytes_per_pixel;
        let mut k: usize = 0;
        while k < height
            invariant
                k <= height,
                row + height <= usize::MAX,
                len == self.buffer@.len(),
                self.framebuffer@.len() == len,
                self.buffer@ == old(self).buffer@,
                self.info == old(self).info,
                bpp == self.info.bytes_per_pixel,
                bpp >= 1,
                height > 0 ==> pixel_offset(self.info, row + height - 1, column + width) <= len,
                self.framebuffer@ == flush_rows(
                    old(self).framebuffer@,
                    self.buffer@,
                    self.info,
                    row as nat,
                    column as nat,
                    width as nat,
                    k as nat,
                ),
            decreases height - k,
        {
            proof {
                lemma_offset_monotonic(
                    self.info,
                    (row + k) as int,
                    (column + width) as int,
                    (row + height - 1) as int,
                    (column + width) as int,
                );
                lemma_index_below_offset(self.info, (row + k) as int, column as int);
                lemma_index_below_offset(self.info, (row + k) as int, (column + width) as int);
                lemma_offset_add(self.info, (row + k) as int, column as int, width as int);
                lemma_offset_monotonic(self.info, (row + k) as int, column as int, (row + k) as int, (column + width) as int);
                assert(0 <= width * bpp) by (nonlinear_arith)
                    requires 0 <= width, 0 <= bpp;
            }
            let begin = self.offset(row + k, column) * bpp;
            let end = begin + width * bpp;
            let ghost prev = self.framebuffer@;
            let mut i = begin;
            while i < end
                invariant
                    begin <= i <= end <= len,
                    len == self.buffer@.len(),
                    self.framebuffer@.len() == len,
                    self.buffer@ == old(self).buffer@,
                    self.info == old(self).info,
                    self.framebuffer@ == copy_range(prev, self.buffer@, begin as int, i as int),
                decreases end - i,
            {
                let byte = self.buffer[i];
                self.framebuffer.set(i, byte);
                i += 1;
                assert(self.framebuffer@ =~= copy_range(prev, self.buffer@, begin as int, i as int));
            }
            k += 1;
        }
    }

    /// Copies the whole back buffer to the framebuffer.
    fn flush_all(&mut self)
        requires
            old(self).framebuffer@.len() == old(self).buffer@.len(),
        ensures
            final(self).framebuffer@ == old(self).buffer@,
            final(self).buffer@ == old(self).buffer@,
            final(self).info == old(self).info,
    {
        let len = self.buffer.len();
        let mut i: usize = 0;
        while i < len
            invariant
                i <= len,
                len == self.buffer@.len(),
                self.framebuffer@.len() == len,
                self.buffer@ == old(self).buffer@,
                self.info == old(self).info,
                forall|k: int| 0 <= k < i ==> self.framebuffer@[k] == self.buffer@[k],
            decreases len - i,
        {
            let byte = self.buffer[i];
            self.framebuffer.set(i, byte);
            i += 1;
        }
        assert(self.framebuffer@ =~= self.buffer@);
    }

    /// Fills the back buffer from `start` to its end with copies of `pixel`.
    fn fill_from(&mut self, start: usize, pixel: Pixel)
        requires
            start <= old(self).buffer@.len(),
            (old(self).buffer@.len() - start) % 4 == 0,
        ensures
            final(self).buffer@ == Seq::new(
                old(self).buffer@.len(),
                |k: int| if k < start { old(self).buffer@[k] } else { pixel.view()[(k - start) % 4] },
            ),
            final(self).framebuffer@ == old(self).framebuffer@,
            final(self).info == old(self).info,
    {
        let len = self.buffer.len();
        let mut offset = start;
        while offset < len
            invariant
                start <= offset <= len,
                (len - offset) % 4 == 0,
                (offset - start) % 4 == 0,
                len == self.buffer@.len(),
                self.framebuffer@ == old(self).framebuffer@,
                self.info == old(self).info,
                forall|k: int| 0 <= k < start ==> self.buffer@[k] == old(self).buffer@[k],
                forall|k: int| start <= k < offset ==> self.buffer@[k] == pixel.view()[(k - start) % 4],
            decreases len - offset,
        {
            self.write_pixel(offset, pixel);
            assert forall|k: int| start <= k < offset + 4 implies self.buffer@[k] == pixel.view()[(k - start) % 4] by {
                if k >= offset {
                    assert((k - start) % 4 == k - offset);
                }
            }
            offset += 4;
        }
        assert(self.buffer@ =~= Seq::new(
            len as nat,
            |k: int| if k < start { old(self).buffer@[k] } else { pixel.view()[(k - start) % 4] },
        ));
    }

    /// Moves the back buffer up by `start` bytes: byte `k` takes the value of
    /// byte `k + start`, for every `k` below the buffer length minus `start`.
    fn move_up(&mut self, start: usize)
        requires
            start <= old(self).buffer@.len(),
        ensures
            final(self).buffer@ == Seq::new(
                old(self).buffer@.len(),
                |k: int| if k < old(self).buffer@.len() - start { old(self).buffer@[k + start] } else { old(self).buffer@[k] },
            ),
            final(self).framebuffer@ == old(self).framebuffer@,
            final(self).info == old(self).info,
    {
        let len = self.buffer.len();
        let move_count = len - start;
        let mut i: usize = 0;
        while i < move_count
            invariant
                i <= move_count,
                move_count == len - start,
                len == self.buffer@.len(),
                self.framebuffer@ == old(self).framebuffer@,
                self.info == old(self).info,
                forall|k: int| 0 <= k < i ==> self.buffer@[k] == old(self).buffer@[k + start],
                forall|k: int| i <= k < len ==> self.buffer@[k] == old(self).buffer@[k],
            decreases move_count - i,
        {
            let byte = self.buffer[i + start];
            self.buffer.set(i, byte);
            i += 1;
        }
        assert(self.buffer@ =~= Seq::new(
            len as nat,
            |k: int| if k < len - start { old(self).buffer@[k + start] } else { old(self).buffer@[k] },
        ));
    }
}


//================================================
//  CONSOLE
//================================================

/// What a console shows: the column where the next character goes, the
/// back buffer and the framebuffer.
pub struct ConsoleView {
    pub column: nat,
    pub back: Seq<u8>,
    pub front: Seq<u8>,
}

/// The conditions on the framebuffer layout, its length `len` and the glyph
/// size under which the console draws every character inside its buffers:
/// a supported pixel format; pixels of at least one byte; a glyph narrower
/// than a line and no higher than the screen; glyph rows that are whole
/// bytes when the width is not a multiple of eight; the lowest text line, a
/// whole line of glyph height and the pixels of a glyph inside the buffer;
/// the height of a text line and the buffer length multiples of the four
/// bytes of a drawn pixel; and row and column arithmetic that fits in `usize`.
pub open spec fn geometry_ok(info: FrameBufferInfo, len: nat, width: nat, height: nat, glyph_size: nat) -> bool {
    let bw = info.horizontal_resolution as int;
    let bh = info.vertical_resolution as int;
    let rows = glyph_rows(glyph_size, width);
    &&& supported_format(info.pixel_format)
    &&& info.bytes_per_pixel >= 1
    &&& 2 * bw <= usize::MAX
    &&& len % 4 == 0
    &&& 1 <= width < bw
    &&& height <= bh
    &&& width % 8 != 0 ==> glyph_size % bytes_per_row(width) == 0
    &&& bh - height + rows <= usize::MAX
    &&& rows > 0 ==> pixel_offset(info, bh - height + rows - 1, bw - 2) + 4 <= len
    &&& height > 0 ==> pixel_offset(info, bh - 1, bw - 1) <= len
    &&& pixel_offset(info, height as int, 0) <= len
    &&& pixel_offset(info, height as int, 0) % 4 == 0
}

/// The byte offset of pixel `row`, `column`, or `None` when it does not fit
/// in `usize`.
fn checked_pixel_offset(info: &FrameBufferInfo, row: usize, column: usize) -> (o: Option<usize>)
    requires
        info.bytes_per_pixel >= 1,
    ensures
        match o {
            Some(v) => v == pixel_offset(*info, row as int, column as int),
            None => pixel_offset(*info, row as int, column as int) > usize::MAX,
        },
{
    proof {
        let s = info.stride as int;
        let b = info.bytes_per_pixel as int;
        let r = row as int;
        let c = column as int;
        assert(r * s >= 0) by (nonlinear_arith)
            requires r >= 0, s >= 0;
        assert((r * s + c) * b >= r * s + c) by (nonlinear_arith)
            requires r * s + c >= 0, b >= 1;
    }
    match row.checked_mul(info.stride) {
        Some(rs) => match rs.checked_add(column) {
            Some(idx) => idx.checked_mul(info.bytes_per_pixel),
            None => None,
        },
        None => None,
    }
}

/// Whether the layout `info`, a buffer of `len` bytes and glyphs of `width`
/// by `height` pixels and `glyph_size` bytes meet `geometry_ok`.
pub fn geometry_fits(info: &FrameBufferInfo, len: usize, width: usize, height: usize, glyph_size: usize) -> (b: bool)
    ensures
        b == geometry_ok(*info, len as nat, width as nat, height as nat, glyph_size as nat),
{
    let bw = info.horizontal_resolution;
    let bh = info.vertical_resolution;
    if !(info.pixel_format == PixelFormat::RGB || info.pixel_format == PixelFormat::BGR) {
        return false;
    }
    if info.bytes_per_pixel < 1 || bw > usize::MAX / 2 || len % 4 != 0 {
        return false;
    }
    if width < 1 || width >= bw || height > bh {
        return false;
    }
    let bpr = (width + 7) / 8;
    if width % 8 != 0 && glyph_size % bpr != 0 {
        return false;
    }
    let rows_wide = (glyph_size as u128 + bpr as u128 - 1) / (bpr as u128);
    assert(rows_wide == glyph_rows(glyph_size as nat, width as nat));
    if rows_wide > (usize::MAX - (bh - height)) as u128 {
        return false;
    }
    let rows = rows_wide as usize;
    if rows > 0 {
        match checked_pixel_offset(info, bh - height + rows - 1, bw - 2) {
            Some(o) => {
                if len < 4 || o > len - 4 {
                    return false;
                }
            },
            None => {
                return false;
            },
        }
    }
    if height > 0 {
        match checked_pixel_offset(info, bh - 1, bw - 1) {
            Some(o) => {
                if o > len {
                    return false;
                }
            },
            None => {
                return false;
            },
        }
    }
    match checked_pixel_offset(info, height, 0) {
        Some(o) => o <= len && o % 4 == 0,
        None => false,
    }
}

/// The console after a new line: the back buffer scrolled up by one text
/// line, the bottom line cleared to the background, the column reset, and
/// the whole back buffer shown.
pub open spec fn newline_view(v: ConsoleView, info: FrameBufferInfo, height: nat, bg: Colour) -> ConsoleView {
    let back = scroll_up(v.back, pixel_offset(info, height as int, 0), pixel_bytes(info.pixel_format, bg));
    ConsoleView { column: 0, back, front: back }
}

/// The glyph of `ch` as it is drawn at the current column of the bottom line.
pub open spec fn glyph_cell(v: ConsoleView, info: FrameBufferInfo, font: PSF, fg: Colour, bg: Colour, ch: char) -> GlyphCell {
    GlyphCell {
        glyph: font.spec_bitmap(ch),
        width: font.width as nat,
        row: (info.vertical_resolution - font.height) as nat,
        column: v.column,
        info,
        fg: pixel_bytes(info.pixel_format, fg),
        bg: pixel_bytes(info.pixel_format, bg),
    }
}

/// The console after drawing the glyph of `ch` at the current column of the
/// bottom line: the glyph in the back buffer, the column advanced by the
/// glyph width, and the glyph's rectangle copied to the framebuffer.
pub open spec fn glyph_view(v: ConsoleView, info: FrameBufferInfo, font: PSF, fg: Colour, bg: Colour, ch: char) -> ConsoleView {
    let cell = glyph_cell(v, info, font, fg, bg, ch);
    let back = cell.draw(v.back);
    ConsoleView {
        column: v.column + font.width as nat,
        back,
        front: flush_rows(v.front, back, info, cell.row, v.column, font.width as nat, font.height as nat),
    }
}

/// The console after writing `ch`: a new line for `\n`; otherwise the glyph,
/// after a new line when the glyph would reach the right edge.
pub open spec fn char_view(v: ConsoleView, info: FrameBufferInfo, font: PSF, fg: Colour, bg: Colour, ch: char) -> ConsoleView {
    if ch == '\n' {
        newline_view(v, info, font.height as nat, bg)
    } else if v.column + font.width >= info.horizontal_resolution {
        glyph_view(newline_view(v, info, font.height as nat, bg), info, font, fg, bg, ch)
    } else {
        glyph_view(v, info, font, fg, bg, ch)
    }
}

/// The console after writing the characters of `text` one after the other.
pub open spec fn text_view(v: ConsoleView, info: FrameBufferInfo, font: PSF, fg: Colour, bg: Colour, text: Seq<char>) -> ConsoleView
    decreases text.len(),
{
    if text.len() == 0 {
        v
    } else {
        char_view(text_view(v, info, font, fg, bg, text.drop_last()), info, font, fg, bg, text.last())
    }
}

/// The font can draw `ch`: a new line, or a character whose glyph lies inside
/// the glyph table.
pub open spec fn printable(font: PSF, ch: char) -> bool {
    ch == '\n' || font.bitmap_in_table(ch)
}

/// A text console that draws with a PSF font into a framebuffer.
pub struct Writer<'font> {
    column: usize,
    colour_bg: Colour,
    colour_fg: Colour,
    buffer: Buffer,
    font: PSF<'font>,
}

impl<'font> View for Writer<'font> {
    type V = ConsoleView;

    closed spec fn view(&self) -> ConsoleView {
        ConsoleView { column: self.column as nat, back: self.buffer.buffer@, front: self.buffer.framebuffer@ }
    }
}

impl<'font> Writer<'font> {
    /// The layout of the framebuffer.
    pub closed spec fn spec_info(&self) -> FrameBufferInfo {
        self.buffer.info
    }

    /// The font.
    pub closed spec fn spec_font(&self) -> PSF<'font> {
        self.font
    }

    /// The foreground colour.
    pub closed spec fn spec_fg(&self) -> Colour {
        self.colour_fg
    }

    /// The background colour.
    pub closed spec fn spec_bg(&self) -> Colour {
        self.colour_bg
    }

    /// The console draws every printable character inside its buffers.
    pub open spec fn wf(&self) -> bool {
        &&& self@.back.len() == self@.front.len()
        &&& geometry_ok(
            self.spec_info(),
            self@.back.len(),
            self.spec_font().width as nat,
            self.spec_font().height as nat,
            self.spec_font().psf_type.spec_glyph_size(),
        )
        &&& self@.column < self.spec_info().horizontal_resolution
    }

    /// Everything but the buffers and the column is as in `other`.
    pub open spec fn same_setup(&self, other: &Self) -> bool {
        &&& self.spec_info() == other.spec_info()
        &&& self.spec_font() == other.spec_font()
        &&& self.spec_fg() == other.spec_fg()
        &&& self.spec_bg() == other.spec_bg()
    }

    /// A console on `framebuffer`, whose current content it keeps, with an
    /// empty back buffer, light grey text on a dark grey background, and the
    /// next character at the left edge.
    pub fn new(framebuffer: Vec<u8>, info: FrameBufferInfo, font: PSF<'font>) -> (w: Self)
        requires
            geometry_ok(
                info,
                framebuffer@.len(),
                font.width as nat,
                font.height as nat,
                font.psf_type.spec_glyph_size(),
            ),
        ensures
            w.wf(),
            w@ == (ConsoleView { column: 0, back: Seq::new(framebuffer@.len(), |k: int| 0u8), front: framebuffer@ }),
            w.spec_info() == info,
            w.spec_font() == font,
            w.spec_fg() == (Colour { r: 0xd4, g: 0xd4, b: 0xd4 }),
            w.spec_bg() == (Colour { r: 0x1e, g: 0x1e, b: 0x1e }),
    {
        let len = framebuffer.len();
        let mut buffer: Vec<u8> = Vec::new();
        let mut i: usize = 0;
        while i < len
            invariant
                i <= len,
                buffer@ == Seq::new(i as nat, |k: int| 0u8),
            decreases len - i,
        {
            buffer.push(0);
            i += 1;
            assert(buffer@ =~= Seq::new(i as nat, |k: int| 0u8));
        }
        Writer {
            column: 0,
            colour_fg: Colour::new(0xd4, 0xd4, 0xd4),
            colour_bg: Colour::new(0x1e, 0x1e, 0x1e),
            buffer: Buffer { framebuffer, buffer, info },
            font,
        }
    }

    /// The background colour.
    pub fn colour_bg(&self) -> (c: Colour)
        ensures
            c == self.spec_bg(),
    {
        self.colour_bg
    }

    /// The foreground colour.
    pub fn colour_fg(&self) -> (c: Colour)
        ensures
            c == self.spec_fg(),
    {
        self.colour_fg
    }

    /// Sets the background colour.
    pub fn set_colour_bg(&mut self, colour: Colour)
        ensures
            final(self).spec_bg() == colour,
            final(self).spec_fg() == old(self).spec_fg(),
            final(self).spec_info() == old(self).spec_info(),
            final(self).spec_font() == old(self).spec_font(),
            final(self)@ == old(self)@,
    {
        self.colour_bg = colour;
    }

    /// Sets the foreground colour.
    pub fn set_colour_fg(&mut self, colour: Colour)
        ensures
            final(self).spec_fg() == colour,
            final(self).spec_bg() == old(self).spec_bg(),
            final(self).spec_info() == old(self).spec_info(),
            final(self).spec_font() == old(self).spec_font(),
            final(self)@ == old(self)@,
    {
        self.colour_fg = colour;
    }

    /// Whether the console can write `ch`: a new line, or a character whose
    /// glyph lies inside the font's glyph table.
    pub fn can_print(&self, ch: char) -> (b: bool)
        ensures
            b == printable(self.spec_font(), ch),
    {
        ch == '\n' || self.font.has_glyph(ch)
    }

    /// The bytes that the back buffer holds.
    pub fn back_buffer(&self) -> (b: &[u8])
        ensures
            b@ == self@.back,
    {
        self.buffer.buffer.as_slice()
    }

    /// The bytes that the framebuffer holds.
    pub fn framebuffer(&self) -> (fb: &[u8])
        ensures
            fb@ == self@.front,
    {
        self.buffer.framebuffer.as_slice()
    }

    /// Fills the back buffer with the background colour. The framebuffer is
    /// not touched: it shows the change at the next new line.
    pub fn clear_screen(&mut self)
        requires
            old(self).wf(),
        ensures
            final(self).wf(),
            final(self).same_setup(old(self)),
            final(self)@ == (ConsoleView {
                back: fill_pixels(old(self)@.back.len(), pixel_bytes(old(self).spec_info().pixel_format, old(self).spec_bg())),
                ..old(self)@
            }),
    {
        let pixel_bg = self.buffer.get_pixel(self.colour_bg);
        self.buffer.fill_from(0, pixel_bg);
        assert(self.buffer.buffer@ =~= fill_pixels(old(self)@.back.len(), pixel_bytes(old(self).spec_info().pixel_format, old(self).spec_bg())));
    }

    /// Scrolls up by one text line, clears the bottom line and shows the
    /// whole back buffer.
    fn newline(&mut self)
        requires
            old(self).wf(),
        ensures
            final(self).wf(),
            final(self).same_setup(old(self)),
            final(self)@ == newline_view(old(self)@, old(self).spec_info(), old(self).spec_font().height as nat, old(self).spec_bg()),
    {
        let len = self.buffer.buffer.len();
        proof {
            lemma_index_below_offset(self.buffer.info, self.font.height as int, 0);
        }
        let start_offset = self.buffer.offset(self.font.height, 0) * self.buffer.info.bytes_per_pixel;
        let move_count = len - start_offset;
        self.buffer.move_up(start_offset);
        let bg_pixel = self.buffer.get_pixel(self.colour_bg);
        self.buffer.fill_from(move_count, bg_pixel);
        self.column = 0;
        self.buffer.flush_all();
        assert(self.buffer.buffer@ =~= scroll_up(
            old(self)@.back,
            pixel_offset(old(self).spec_info(), old(self).spec_font().height as int, 0),
            pixel_bytes(old(self).spec_info().pixel_format, old(self).spec_bg()),
        ));
    }

    /// The glyph cell of `glyph` at `row`, `column` in the current colours.
    pub open spec fn cell(&self, glyph: Seq<u8>, row: nat, column: nat) -> GlyphCell {
        GlyphCell {
            glyph,
            width: self.spec_font().width as nat,
            row,
            column,
            info: self.spec_info(),
            fg: pixel_bytes(self.spec_info().pixel_format, self.spec_fg()),
            bg: pixel_bytes(self.spec_info().pixel_format, self.spec_bg()),
        }
    }

    /// Draws `bitmap` into the back buffer with its top left corner at
    /// `row0`, `col0`: row after row, and in each row pixel after pixel from
    /// left to right, the foreground for a set bit and the background for a
    /// clear one.
    fn draw_glyph(&mut self, bitmap: &[u8], row0: usize, col0: usize)
        requires
            old(self).wf(),
            bitmap@.len() == old(self).spec_font().psf_type.spec_glyph_size(),
            row0 + old(self).spec_font().height == old(self).spec_info().vertical_resolution,
            col0 + old(self).spec_font().width < old(self).spec_info().horizontal_resolution,
        ensures
            final(self).wf(),
            final(self).same_setup(old(self)),
            final(self)@ == (ConsoleView {
                back: old(self).cell(bitmap@, row0 as nat, col0 as nat).draw(old(self)@.back),
                ..old(self)@
            }),
    {
        let ghost cell = self.cell(bitmap@, row0 as nat, col0 as nat);
        let ghost old_back = self.buffer.buffer@;
        let ghost info = self.buffer.info;
        let ghost blen = self.buffer.buffer@.len();
        let width = self.font.width;
        let fg = self.colour_fg;
        let bg = self.colour_bg;
        proof {
            lemma_row_bytes(width);
        }
        let bpr = (width + 7) >> 3;
        let partial_bits = width & 7;
        let len = bitmap.len();
        let mut r: usize = 0;
        let mut start: usize = 0;
        proof {
            lemma_glyph_rows(len as nat, width as nat, 0);
        }
        while start < len
            invariant
                self.wf(),
                self.same_setup(old(self)),
                self.column == old(self).column,
                self.buffer.framebuffer@ == old(self).buffer.framebuffer@,
                self.buffer.buffer@.len() == blen,
                info == self.buffer.info,
                cell == self.cell(bitmap@, row0 as nat, col0 as nat),
                width == self.font.width,
                fg == self.colour_fg,
                bg == self.colour_bg,
                bpr == bytes_per_row(width as nat),
                bpr >= 1,
                partial_bits == width % 8,
                len == bitmap@.len(),
                len == cell.glyph.len(),
                len == self.spec_font().psf_type.spec_glyph_size(),
                row0 + self.font.height == info.vertical_resolution,
                col0 + width < info.horizontal_resolution,
                start <= len,
                start < len ==> start == r * bpr,
                (start < len) == (r < cell.rows()),
                r <= cell.rows(),
                self.buffer.buffer@ == cell.paint(old_back, r as nat),
            decreases len - start,
        {
            proof {
                lemma_glyph_rows(len as nat, width as nat, r as nat);
                lemma_glyph_rows(len as nat, width as nat, (r + 1) as nat);
                assert((r + 1) * bpr == r * bpr + bpr) by (nonlinear_arith);
                if partial_bits != 0 {
                    lemma_whole_rows(len as nat, bpr as nat, r as nat);
                }
            }
            let chunk_end = if len - start < bpr { len } else { start + bpr };
            let full_len = if partial_bits == 0 { chunk_end - start } else { bpr - 1 };
            let row = row0 + r;
            let ghost painted = self.buffer.buffer@;
            assert(painted == cell.paint(old_back, r as nat));
            let mut byte_id: usize = 0;
            while byte_id < full_len
                invariant
                    self.wf(),
                    self.same_setup(old(self)),
                    self.column == old(self).column,
                    self.buffer.framebuffer@ == old(self).buffer.framebuffer@,
                    self.buffer.buffer@.len() == blen,
                    info == self.buffer.info,
                    cell == self.cell(bitmap@, row0 as nat, col0 as nat),
                    width == self.font.width,
                    fg == self.colour_fg,
                    bg == self.colour_bg,
                    bpr == bytes_per_row(width as nat),
                    len == bitmap@.len(),
                    len == cell.glyph.len(),
                    len == self.spec_font().psf_type.spec_glyph_size(),
                len == self.spec_font().psf_type.spec_glyph_size(),
                    row0 + self.font.height == info.vertical_resolution,
                    col0 + width < info.horizontal_resolution,
                    start < len,
                    start == r * bpr,
                    r < cell.rows(),
                    row == row0 + r,
                    start + full_len <= chunk_end <= len,
                    8 * full_len <= cell.columns(r as nat),
                    byte_id <= full_len,
                    self.buffer.buffer@ == cell.paint_row(painted, r as nat, (8 * byte_id) as nat),
                decreases full_len - byte_id,
            {
                let byte = bitmap[start + byte_id];
                let mut c: u8 = 0;
                while c < 8
                    invariant
                        self.wf(),
                        self.same_setup(old(self)),
                        self.column == old(self).column,
                        self.buffer.framebuffer@ == old(self).buffer.framebuffer@,
                        self.buffer.buffer@.len() == blen,
                        info == self.buffer.info,
                        cell == self.cell(bitmap@, row0 as nat, col0 as nat),
                        width == self.font.width,
                        fg == self.colour_fg,
                        bg == self.colour_bg,
                        bpr == bytes_per_row(width as nat),
                        len == cell.glyph.len(),
                        len == self.spec_font().psf_type.spec_glyph_size(),
                    len == self.spec_font().psf_type.spec_glyph_size(),
                len == self.spec_font().psf_type.spec_glyph_size(),
                        row0 + self.font.height == info.vertical_resolution,
                        col0 + width < info.horizontal_resolution,
                        start == r * bpr,
                        r < cell.rows(),
                        row == row0 + r,
                        byte_id < full_len,
                        start + full_len <= len,
                        8 * full_len <= cell.columns(r as nat),
                        byte == cell.glyph[start + byte_id],
                        c <= 8,
                        self.buffer.buffer@ == cell.paint_row(painted, r as nat, (8 * byte_id + c) as nat),
                    decreases 8 - c,
                {
                    let ghost j = (8 * byte_id + c) as nat;
                    let col = col0 + byte_id * 8 + c as usize;
                    proof {
                        assert(j / 8 == byte_id && j % 8 == c);
                        assert(cell.pixel_set(r as nat, j) == bit_set(byte, c as nat));
                        self.lemma_cell_pixel_fits(cell, r as nat, j);
                    }
                    if (0b1000_0000u8 >> c) & byte != 0 {
                        self.buffer.draw(row, col, fg);
                    } else {
                        self.buffer.draw(row, col, bg);
                    }
                    c += 1;
                }
                byte_id += 1;
            }
            if partial_bits != 0 {
                let rem_byte = bitmap[start + bpr - 1];
                let mut c: u8 = 0;
                while (c as usize) < partial_bits
                    invariant
                        self.wf(),
                        self.same_setup(old(self)),
                        self.column == old(self).column,
                        self.buffer.framebuffer@ == old(self).buffer.framebuffer@,
                        self.buffer.buffer@.len() == blen,
                        info == self.buffer.info,
                        cell == self.cell(bitmap@, row0 as nat, col0 as nat),
                        width == self.font.width,
                        fg == self.colour_fg,
                        bg == self.colour_bg,
                        bpr == bytes_per_row(width as nat),
                        bpr >= 1,
                        partial_bits == width % 8,
                        partial_bits != 0,
                        width == 8 * (bpr - 1) + partial_bits,
                        full_len == bpr - 1,
                        len == cell.glyph.len(),
                        len == self.spec_font().psf_type.spec_glyph_size(),
                    len == self.spec_font().psf_type.spec_glyph_size(),
                len == self.spec_font().psf_type.spec_glyph_size(),
                        row0 + self.font.height == info.vertical_resolution,
                        col0 + width < info.horizontal_resolution,
                        start == r * bpr,
                        start + bpr <= len,
                        r < cell.rows(),
                        row == row0 + r,
                        cell.columns(r as nat) == width,
                        rem_byte == cell.glyph[start + bpr - 1],
                        c <= partial_bits,
                        self.buffer.buffer@ == cell.paint_row(painted, r as nat, (8 * full_len + c) as nat),
                    decreases partial_bits - c as usize,
                {
                    let ghost j = (8 * full_len + c) as nat;
                    let col = col0 + full_len * 8 + c as usize;
                    proof {
                        assert(j / 8 == full_len && j % 8 == c);
                        assert(cell.pixel_set(r as nat, j) == bit_set(rem_byte, c as nat));
                        self.lemma_cell_pixel_fits(cell, r as nat, j);
                    }
                    if (0b1000_0000u8 >> c) & rem_byte != 0 {
                        self.buffer.draw(row, col, fg);
                    } else {
                        self.buffer.draw(row, col, bg);
                    }
                    c += 1;
                }
            }
            assert(self.buffer.buffer@ == cell.paint(old_back, (r + 1) as nat));
            r += 1;
            start = chunk_end;
        }
    }

    /// Every pixel of a glyph cell at the bottom line lies in the back buffer.
    proof fn lemma_cell_pixel_fits(&self, cell: GlyphCell, r: nat, c: nat)
        requires
            self.wf(),
            cell.info == self.spec_info(),
            cell.width == self.spec_font().width,
            cell.glyph.len() == self.spec_font().psf_type.spec_glyph_size(),
            cell.row + self.spec_font().height == self.spec_info().vertical_resolution,
            cell.column + cell.width < self.spec_info().horizontal_resolution,
            r < cell.rows(),
            c < cell.width,
        ensures
            pixel_offset(self.spec_info(), (cell.row + r) as int, (cell.column + c) as int) + 4 <= self@.back.len(),
    {
        let info = self.spec_info();
        let bh = info.vertical_resolution as int;
        let bw = info.horizontal_resolution as int;
        let h = self.spec_font().height as int;
        lemma_offset_monotonic(
            info,
            (cell.row + r) as int,
            (cell.column + c) as int,
            bh - h + cell.rows() - 1,
            bw - 2,
        );
    }

    /// Writes one character: `\n` starts a new line; any other character is
    /// drawn at the current column of the bottom line, after a new line when
    /// its glyph would reach the right edge, and the glyph's rectangle is
    /// copied to the framebuffer.
    pub fn write_char(&mut self, ch: char)
        requires
            old(self).wf(),
            printable(old(self).spec_font(), ch),
        ensures
            final(self).wf(),
            final(self).same_setup(old(self)),
            final(self)@ == char_view(
                old(self)@,
                old(self).spec_info(),
                old(self).spec_font(),
                old(self).spec_fg(),
                old(self).spec_bg(),
                ch,
            ),
    {
        let width = self.font.width;
        let height = self.font.height;
        let buffer_width = self.buffer.info.horizontal_resolution;
        let buffer_height = self.buffer.info.vertical_resolution;
        if ch == '\n' {
            self.newline();
        } else {
            if self.column + width >= buffer_width {
                self.newline();
            }
            let ghost before = self@;
            let row = buffer_height - height;
            let col = self.column;
            let bitmap = self.font.bitmap(ch);
            proof {
                self.font.lemma_bitmap_len(ch);
            }
            self.draw_glyph(bitmap, row, col);
            self.column = col + width;
            proof {
                let info = self.spec_info();
                if height > 0 {
                    lemma_offset_monotonic(
                        info,
                        (row + height - 1) as int,
                        (col + width) as int,
                        (buffer_height - 1) as int,
                        (buffer_width - 1) as int,
                    );
                }
            }
            self.buffer.flush(row, col, width, height);
            assert(self@ == glyph_view(before, self.spec_info(), self.spec_font(), self.spec_fg(), self.spec_bg(), ch));
        }
    }

    /// Writes the characters of `s` one after the other.
    pub fn write_str(&mut self, s: &str)
        requires
            old(self).wf(),
            forall|i: int| 0 <= i < s@.len() ==> printable(old(self).spec_font(), #[trigger] s@[i]),
        ensures
            final(self).wf(),
            final(self).same_setup(old(self)),
            final(self)@ == text_view(
                old(self)@,
                old(self).spec_info(),
                old(self).spec_font(),
                old(self).spec_fg(),
                old(self).spec_bg(),
                s@,
            ),
    {
        broadcast use vstd::string::axiom_spec_iter;
        let ghost start = self@;
        for ch in it: s.chars()
            invariant
                self.wf(),
                self.same_setup(old(self)),
                it.seq() == s@,
                forall|i: int| 0 <= i < s@.len() ==> printable(old(self).spec_font(), #[trigger] s@[i]),
                self@ == text_view(
                    start,
                    self.spec_info(),
                    self.spec_font(),
                    self.spec_fg(),
                    self.spec_bg(),
                    s@.take(it.index() as int),
                ),
        {
            assert(s@.take(it.index() as int + 1).drop_last() =~= s@.take(it.index() as int));
            self.write_char(ch);
        }
        assert(s@.take(s@.len() as int) =~= s@);
    }
}


//================================================
//  LAWS OF THE CONSOLE
//================================================

/// The view `v` can be drawn on with `font` in a framebuffer of layout `info`.
pub open spec fn view_ok(v: ConsoleView, info: FrameBufferInfo, font: PSF) -> bool {
    &&& v.back.len() == v.front.len()
    &&& geometry_ok(info, v.back.len(), font.width as nat, font.height as nat, font.psf_type.spec_glyph_size())
    &&& v.column < info.horizontal_resolution
}

/// The console state in which the glyph of a character other than `\n` is
/// drawn: the same one, or the one after a new line when the glyph would
/// reach the right edge.
pub open spec fn before_glyph(v: ConsoleView, info: FrameBufferInfo, font: PSF, bg: Colour) -> ConsoleView {
    if v.column + font.width >= info.horizontal_resolution {
        newline_view(v, info, font.height as nat, bg)
    } else {
        v
    }
}

/// Law: after writing a character other than `\n`, the back buffer holds,
/// at every pixel of the character's glyph, the foreground pixel where the
/// glyph's bit is set and the background pixel where it is clear; and so
/// does the framebuffer, for the rows of the glyph within the font height.
/// This holds when pixels do not share bytes: at least four bytes per pixel
/// and lines at least as long as a glyph is wide.
pub proof fn lemma_char_readback(
    v: ConsoleView,
    info: FrameBufferInfo,
    font: PSF,
    fg: Colour,
    bg: Colour,
    ch: char,
    r: nat,
    c: nat,
)
    requires
        view_ok(v, info, font),
        ch != '\n',
        font.bitmap_in_table(ch),
        info.bytes_per_pixel >= 4,
        info.stride >= font.width,
        r < glyph_cell(before_glyph(v, info, font, bg), info, font, fg, bg, ch).rows(),
        c < glyph_cell(before_glyph(v, info, font, bg), info, font, fg, bg, ch).columns(r),
    ensures
        ({
            let cell = glyph_cell(before_glyph(v, info, font, bg), info, font, fg, bg, ch);
            let after = char_view(v, info, font, fg, bg, ch);
            &&& c < font.width
            &&& after.back.subrange(cell.offset(r, c), cell.offset(r, c) + 4) == cell.pixel(r, c)
            &&& r < font.height ==> after.front.subrange(cell.offset(r, c), cell.offset(r, c) + 4)
                == cell.pixel(r, c)
        }),
{
    let v1 = before_glyph(v, info, font, bg);
    let cell = glyph_cell(v1, info, font, fg, bg, ch);
    let after = char_view(v, info, font, fg, bg, ch);
    let width = font.width;
    let bw = info.horizontal_resolution as int;
    let bh = info.vertical_resolution as int;
    let h = font.height as int;
    font.lemma_bitmap_len(ch);
    lemma_row_bytes(width);
    // The glyph lies at the bottom line, left of the right edge.
    assert(v1.column + width < bw);
    assert(v1.back.len() == v.back.len());
    assert(v1.front.len() == v.back.len());
    // A drawn row holds at most `width` pixels.
    let bpr = bytes_per_row(width as nat);
    lemma_glyph_rows(cell.glyph.len(), width as nat, r);
    assert(cell.columns(r) <= width) by {
        if width % 8 == 0 {
            assert(8 * bpr == width);
        }
    }
    assert(c < width);
    // The pixel lies in the back buffer.
    lemma_offset_monotonic(
        info,
        (cell.row + r) as int,
        (cell.column + c) as int,
        bh - h + cell.rows() - 1,
        bw - 2,
    );
    lemma_glyph_readback(cell, v1.back, r, c);
    assert(after.back == cell.draw(v1.back));
    if r < font.height {
        let off = cell.offset(r, c);
        let row = cell.row + r;
        lemma_offset_add(info, row as int, (cell.column + c) as int, 1);
        lemma_offset_monotonic(info, row as int, (cell.column + c + 1) as int, row as int, (cell.column + width) as int);
        lemma_offset_add(info, row as int, cell.column as int, width as int);
        lemma_offset_monotonic(info, row as int, cell.column as int, row as int, (cell.column + c) as int);
        assert(info.bytes_per_pixel >= 4);
        assert(off + 4 <= pixel_offset(info, row as int, (cell.column + c + 1) as int));
        assert forall|k: int| off <= k < off + 4 implies after.front[k] == after.back[k] by {
            lemma_flush_rows_copied(
                v1.front,
                after.back,
                info,
                cell.row,
                v1.column,
                width as nat,
                font.height as nat,
                r,
                k,
            );
        }
        lemma_flush_rows_len(v1.front, after.back, info, cell.row, v1.column, width as nat, font.height as nat);
        assert(after.front.subrange(off, off + 4) =~= after.back.subrange(off, off + 4));
    }
}

/// Law: writing a character other than `\n` draws every pixel of its glyph
/// whose bitmap byte exists, all `width` columns of a row included. With
/// `bpr = ceil(width / 8)` bytes per glyph row, the pixel at glyph row `r`
/// and column `c < width` is drawn at screen row `vertical_resolution -
/// height + r` and column `col0 + c`, where `col0` is the current column, or
/// 0 when the glyph would reach the right edge and a new line comes first.
/// It reads back as the foreground pixel when bit `c % 8` (from the most
/// significant) of bitmap byte `r * bpr + c / 8` is set, and as the
/// background pixel otherwise, in the back buffer and, for rows within the
/// font height, in the framebuffer; the next column is `col0 + width`.
/// This holds when pixels do not share bytes: at least four bytes per pixel
/// and lines at least as long as a glyph is wide.
pub proof fn lemma_char_draws_glyph(
    v: ConsoleView,
    info: FrameBufferInfo,
    font: PSF,
    fg: Colour,
    bg: Colour,
    ch: char,
    r: nat,
    c: nat,
)
    requires
        view_ok(v, info, font),
        ch != '\n',
        font.bitmap_in_table(ch),
        info.bytes_per_pixel >= 4,
        info.stride >= font.width,
        c < font.width,
        r * ((font.width + 7) / 8) + c / 8 < font.spec_bitmap(ch).len(),
    ensures
        ({
            let w = font.width as int;
            let bpr = (w + 7) / 8;
            let col0: int = if v.column + w >= info.horizontal_resolution { 0 } else { v.column as int };
            let row = info.vertical_resolution - font.height + r;
            let off = (row * info.stride + col0 + c) * info.bytes_per_pixel;
            let byte = font.spec_bitmap(ch)[r * bpr + c / 8];
            let colour = if (0x80u8 >> ((c % 8) as u8)) & byte != 0 { fg } else { bg };
            let px = if info.pixel_format == PixelFormat::BGR {
                seq![colour.b, colour.g, colour.r, 0u8]
            } else {
                seq![colour.r, colour.g, colour.b, 0u8]
            };
            let after = char_view(v, info, font, fg, bg, ch);
            &&& after.back.subrange(off, off + 4) == px
            &&& r < font.height ==> after.front.subrange(off, off + 4) == px
            &&& after.column == col0 + w
        }),
{
    let v1 = before_glyph(v, info, font, bg);
    let cell = glyph_cell(v1, info, font, fg, bg, ch);
    let width = font.width;
    let bpr = bytes_per_row(width as nat);
    let len = cell.glyph.len();
    lemma_row_bytes(width);
    assert(r * bpr < len);
    lemma_glyph_rows(len, width as nat, r);
    assert(r < cell.rows());
    assert(c < cell.columns(r)) by {
        if width % 8 == 0 {
            assert(width == 8 * bpr);
            let avail = len - r * bpr;
            assert(c / 8 < avail);
            assert(c < 8 * avail);
        }
    }
    lemma_char_readback(v, info, font, fg, bg, ch, r, c);
}

/// Law: a new line moves the back buffer up by exactly one text line,
/// `height * stride * bytes_per_pixel` bytes, whatever the screen height:
/// byte `k` of the new back buffer is byte `k` plus that shift of the old
/// one, the freed bytes at the end hold copies of the background pixel, the
/// framebuffer shows the whole new back buffer, and the column is 0.
pub proof fn lemma_newline_scrolls_one_line(
    v: ConsoleView,
    info: FrameBufferInfo,
    font: PSF,
    fg: Colour,
    bg: Colour,
)
    requires
        view_ok(v, info, font),
    ensures
        ({
            let shift = font.height * info.stride * info.bytes_per_pixel;
            let keep = v.back.len() - shift;
            let px = if info.pixel_format == PixelFormat::BGR {
                seq![bg.b, bg.g, bg.r, 0u8]
            } else {
                seq![bg.r, bg.g, bg.b, 0u8]
            };
            let after = char_view(v, info, font, fg, bg, '\n');
            &&& 0 <= shift <= v.back.len()
            &&& after.column == 0
            &&& after.back.len() == v.back.len()
            &&& after.front == after.back
            &&& forall|k: int| 0 <= k < keep ==> after.back[k] == v.back[k + shift]
            &&& forall|k: int| keep <= k < v.back.len() ==> after.back[k] == px[(k - keep) % 4]
        }),
{
    let h = font.height as int;
    let s = info.stride as int;
    let b = info.bytes_per_pixel as int;
    assert((h * s + 0) * b == h * s * b) by (nonlinear_arith);
    assert(0 <= h * s * b) by (nonlinear_arith)
        requires
            0 <= h,
            0 <= s,
            0 <= b,
    ;
    assert(pixel_offset(info, h, 0) == h * s * b);
}

/// Law: writing `a` and then `b` leaves the console as writing `a + b` does.
pub proof fn lemma_text_concat(
    v: ConsoleView,
    info: FrameBufferInfo,
    font: PSF,
    fg: Colour,
    bg: Colour,
    a: Seq<char>,
    b: Seq<char>,
)
    ensures
        text_view(text_view(v, info, font, fg, bg, a), info, font, fg, bg, b)
            == text_view(v, info, font, fg, bg, a + b),
    decreases b.len(),
{
    if b.len() == 0 {
        assert(a + b =~= a);
    } else {
        lemma_text_concat(v, info, font, fg, bg, a, b.drop_last());
        assert((a + b).drop_last() =~= a + b.drop_last());
        assert((a + b).last() == b.last());
    }
}

} // verus!
