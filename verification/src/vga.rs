//! Framebuffer pixel writer.
//!
//! The framebuffer is a byte buffer handed over at boot together with its
//! geometry (width, height, stride and bytes per pixel) and pixel format.
//! `Writer` owns that buffer and places one colored pixel at a time; every
//! write is proved to stay inside the buffer and to leave all other bytes
//! untouched.

use vstd::prelude::*;

verus! {

/// An RGB color with 8-bit channels.
#[derive(Debug, Clone, Copy, PartialEq, Eq, Structural)]
pub struct Color {
    pub r: u8,
    pub g: u8,
    pub b: u8,
}

impl Color {
    pub fn new(r: u8, g: u8, b: u8) -> (c: Color)
        ensures
            c == (Color { r, g, b }),
    {
        Color { r, g, b }
    }

    /// NTSC luma of the color: (299 r + 587 g + 114 b) / 1000, rounded down.
    pub open spec fn spec_greyscale(self) -> int {
        (299 * self.r + 587 * self.g + 114 * self.b) / 1000
    }

    /// Converts from RGB to greyscale using the NTSC weights.
    pub fn greyscale(self) -> (l: u8)
        ensures
            l == self.spec_greyscale(),
    {
        let weighted: u32 = 299 * self.r as u32 + 587 * self.g as u32 + 114 * self.b as u32;
        assert(weighted / 1000 <= 255);
        (weighted / 1000) as u8
    }
}

/// The byte order of one pixel in the framebuffer.
#[derive(Debug, Clone, Copy, PartialEq, Eq, Structural)]
pub enum PixelFormat {
    /// One byte each for red, green, blue.
    Rgb,
    /// One byte each for blue, green, red.
    Bgr,
    /// A single greyscale byte.
    U8,
}

/// Geometry and pixel format of a framebuffer, as the loader reports them.
#[derive(Debug, Clone, Copy, PartialEq, Eq, Structural)]
pub struct FrameBufferInfo {
    /// Visible pixels per row.
    pub width: usize,
    /// Number of rows.
    pub height: usize,
    /// Pixels per row as laid out in memory; at least `width`.
    pub stride: usize,
    /// Bytes that one pixel occupies.
    pub bytes_per_pixel: usize,
    /// Byte order of one pixel.
    pub pixel_format: PixelFormat,
}

/// The bytes that one pixel of the given color occupies in the buffer,
/// padded to the largest supported pixel size.
pub open spec fn pixel_channels(format: PixelFormat, color: Color) -> Seq<u8> {
    match format {
        PixelFormat::Rgb => seq![color.r, color.g, color.b, 0],
        PixelFormat::Bgr => seq![color.b, color.g, color.r, 0],
        PixelFormat::U8 => seq![color.spec_greyscale() as u8, 0, 0, 0],
    }
}

/// Writes pixels into a framebuffer.
pub struct Writer {
    buffer: Vec<u8>,
    info: FrameBufferInfo,
}

impl Writer {
    /// The buffer geometry is consistent: every pixel of the visible area
    /// lies inside the buffer.
    pub closed spec fn wf(self) -> bool {
        &&& self.info.width <= self.info.stride
        &&& 1 <= self.info.bytes_per_pixel <= 4
        &&& self.buffer@.len() == self.info.stride * self.info.height
            * self.info.bytes_per_pixel
    }

    /// The buffer contents.
    pub closed spec fn buf(self) -> Seq<u8> {
        self.buffer@
    }

    /// The geometry the writer was created with.
    pub closed spec fn spec_info(self) -> FrameBufferInfo {
        self.info
    }

    /// First byte of the pixel at column `x`, row `y`.
    pub open spec fn pixel_offset(self, x: int, y: int) -> int {
        (x + y * self.spec_info().stride) * self.spec_info().bytes_per_pixel
    }

    /// Takes ownership of a framebuffer whose geometry matches `info`.
    pub fn new(buffer: Vec<u8>, info: FrameBufferInfo) -> (w: Writer)
        requires
            info.width <= info.stride,
            1 <= info.bytes_per_pixel <= 4,
            buffer@.len() == info.stride * info.height * info.bytes_per_pixel,
        ensures
            w.wf(),
            w.spec_info() == info,
            w.buf() == buffer@,
    {
        Writer { buffer, info }
    }

    /// Reads one byte of the buffer.
    pub fn byte_at(&self, i: usize) -> (b: u8)
        requires
            i < self.buf().len(),
        ensures
            b == self.buf()[i as int],
    {
        self.buffer[i]
    }

    pub fn width(&self) -> (w: usize)
        ensures
            w == self.spec_info().width,
    {
        self.info.width
    }

    pub fn height(&self) -> (h: usize)
        ensures
            h == self.spec_info().height,
    {
        self.info.height
    }

    /// Blanks the whole buffer.
    pub fn clear(&mut self)
        requires
            old(self).wf(),
        ensures
            final(self).wf(),
            final(self).spec_info() == old(self).spec_info(),
            final(self).buf().len() == old(self).buf().len(),
            forall|i: int| 0 <= i < final(self).buf().len() ==> final(self).buf()[i] == 0u8,
    {
        let n = self.buffer.len();
        let mut i: usize = 0;
        while i < n
            invariant
                n == self.buffer@.len(),
                i <= n,
                self.info == old(self).info,
                forall|j: int| 0 <= j < i ==> self.buffer@[j] == 0u8,
            decreases n - i,
        {
            self.buffer[i] = 0;
            i = i + 1;
        }
    }

    /// Places one pixel of `color` at column `x`, row `y`; no other byte of
    /// the buffer changes.
    pub fn write_pixel(&mut self, x: usize, y: usize, color: Color)
        requires
            old(self).wf(),
            x < old(self).spec_info().width,
            y < old(self).spec_info().height,
        ensures
            final(self).wf(),
            final(self).spec_info() == old(self).spec_info(),
            final(self).buf().len() == old(self).buf().len(),
            forall|i: int|
                0 <= i < old(self).spec_info().bytes_per_pixel
                    ==> final(self).buf()[old(self).pixel_offset(x as int, y as int) + i]
                        == pixel_channels(old(self).spec_info().pixel_format, color)[i],
            forall|j: int|
                0 <= j < old(self).buf().len()
                    && !(old(self).pixel_offset(x as int, y as int) <= j
                        < old(self).pixel_offset(x as int, y as int)
                            + old(self).spec_info().bytes_per_pixel)
                    ==> final(self).buf()[j] == old(self).buf()[j],
    {
        let stride = self.info.stride;
        let height = self.info.height;
        let bpp = self.info.bytes_per_pixel;
        let n = self.buffer.len();
        proof {
            assert(n == stride * height * bpp);
            lemma_pixel_in_buffer(
                x as int,
                y as int,
                self.info.width as int,
                height as int,
                stride as int,
                bpp as int,
            );
        }
        let offset: usize = x + y * stride;
        let byte_offset: usize = offset * bpp;
        let channels: [u8; 4] = match self.info.pixel_format {
            PixelFormat::Rgb => [color.r, color.g, color.b, 0],
            PixelFormat::Bgr => [color.b, color.g, color.r, 0],
            PixelFormat::U8 => [color.greyscale(), 0, 0, 0],
        };
        assert(channels@ =~= pixel_channels(self.info.pixel_format, color));
        let mut i: usize = 0;
        while i < bpp
            invariant
                i <= bpp,
                1 <= bpp <= 4,
                channels@.len() == 4,
                bpp == self.info.bytes_per_pixel,
                self.info == old(self).info,
                n == self.buffer@.len(),
                byte_offset + bpp <= n,
                self.buffer@.len() == old(self).buffer@.len(),
                channels@ =~= pixel_channels(self.info.pixel_format, color),
                byte_offset == old(self).pixel_offset(x as int, y as int),
                forall|k: int| 0 <= k < i
                    ==> self.buffer@[byte_offset + k] == channels@[k],
                forall|j: int|
                    0 <= j < self.buffer@.len() && !(byte_offset <= j < byte_offset + i)
                        ==> self.buffer@[j] == old(self).buffer@[j],
            decreases bpp - i,
        {
            self.buffer[byte_offset + i] = channels[i];
            i = i + 1;
        }
    }

    /// Moves every row of the buffer up by `npixels` rows; the bytes at the
    /// tail keep their old values.
    pub fn shift_up(&mut self, npixels: usize)
        requires
            old(self).wf(),
            old(self).spec_info().bytes_per_pixel * old(self).spec_info().width * npixels
                <= old(self).buf().len(),
        ensures
            final(self).wf(),
            final(self).spec_info() == old(self).spec_info(),
            final(self).buf().len() == old(self).buf().len(),
            forall|i: int|
                0 <= i < old(self).buf().len() - old(self).spec_info().bytes_per_pixel
                    * old(self).spec_info().width * npixels
                    ==> final(self).buf()[i] == old(self).buf()[i
                        + old(self).spec_info().bytes_per_pixel * old(self).spec_info().width
                            * npixels],
            forall|i: int|
                old(self).buf().len() - old(self).spec_info().bytes_per_pixel
                    * old(self).spec_info().width * npixels <= i < old(self).buf().len()
                    ==> final(self).buf()[i] == old(self).buf()[i],
    {
        if npixels == 0 {
            assert(forall|i: int| 0 <= i < self.buffer@.len()
                ==> self.buffer@[i] == old(self).buffer@[i + 0]);
            return;
        }
        let bpp = self.info.bytes_per_pixel;
        let width = self.info.width;
        let n = self.buffer.len();
        proof {
            assert(bpp * width * npixels <= n);
            lemma_shift_products_fit(bpp as int, width as int, npixels as int, n as int);
        }
        let offset: usize = bpp * width * npixels;
        let mut i: usize = 0;
        while i < n - offset
            invariant
                offset <= n,
                i <= n - offset,
                n == self.buffer@.len(),
                self.info == old(self).info,
                self.buffer@.len() == old(self).buffer@.len(),
                offset == old(self).spec_info().bytes_per_pixel
                    * old(self).spec_info().width * npixels,
                forall|j: int| 0 <= j < i ==> self.buffer@[j] == old(self).buffer@[j + offset],
                forall|j: int| i <= j < n ==> self.buffer@[j] == old(self).buffer@[j],
            decreases n - offset - i,
        {
            let b = self.buffer[i + offset];
            self.buffer[i] = b;
            i = i + 1;
        }
    }
}

/// What a consistent writer guarantees about its geometry.
pub proof fn lemma_writer_wf_facts(w: Writer)
    requires
        w.wf(),
    ensures
        w.spec_info().width <= w.spec_info().stride,
        1 <= w.spec_info().bytes_per_pixel <= 4,
        w.buf().len() == w.spec_info().stride * w.spec_info().height
            * w.spec_info().bytes_per_pixel,
        w.buf().len() <= usize::MAX,
{
    broadcast use vstd::std_specs::vec::axiom_spec_len;

    assert(w.buffer.len() == w.buffer@.len());
}

/// Distinct pixels of the visible area occupy disjoint byte ranges.
pub proof fn lemma_pixel_ranges_disjoint(w: Writer, x1: int, y1: int, x2: int, y2: int)
    requires
        w.wf(),
        0 <= x1 < w.spec_info().stride,
        0 <= x2 < w.spec_info().stride,
        0 <= y1,
        0 <= y2,
        x1 != x2 || y1 != y2,
    ensures
        w.pixel_offset(x1, y1) + w.spec_info().bytes_per_pixel <= w.pixel_offset(x2, y2) || w.pixel_offset(
            x2,
            y2,
        ) + w.spec_info().bytes_per_pixel <= w.pixel_offset(x1, y1),
{
    let s = w.spec_info().stride as int;
    let bpp = w.spec_info().bytes_per_pixel as int;
    let l1 = x1 + y1 * s;
    let l2 = x2 + y2 * s;
    assert(y1 * s == s * y1) by (nonlinear_arith);
    assert(y2 * s == s * y2) by (nonlinear_arith);
    vstd::arithmetic::div_mod::lemma_fundamental_div_mod_converse_mod(l1, s, y1, x1);
    vstd::arithmetic::div_mod::lemma_fundamental_div_mod_converse_mod(l2, s, y2, x2);
    vstd::arithmetic::div_mod::lemma_fundamental_div_mod_converse_div(l1, s, y1, x1);
    vstd::arithmetic::div_mod::lemma_fundamental_div_mod_converse_div(l2, s, y2, x2);
    assert(l1 != l2);
    if l1 < l2 {
        assert((l1 + 1) * bpp <= l2 * bpp) by (nonlinear_arith)
            requires
                l1 + 1 <= l2,
                bpp >= 1,
        ;
        assert((l1 + 1) * bpp == l1 * bpp + bpp) by (nonlinear_arith);
    } else {
        assert((l2 + 1) * bpp <= l1 * bpp) by (nonlinear_arith)
            requires
                l2 + 1 <= l1,
                bpp >= 1,
        ;
        assert((l2 + 1) * bpp == l2 * bpp + bpp) by (nonlinear_arith);
    }
}

/// A pixel inside the visible area lies inside the buffer:
/// (x + y * stride + 1) * bpp <= stride * height * bpp.
pub proof fn lemma_pixel_in_buffer(x: int, y: int, width: int, height: int, stride: int, bpp: int)
    requires
        0 <= x < width,
        0 <= y < height,
        width <= stride,
        1 <= bpp,
    ensures
        (x + y * stride) * bpp + bpp <= stride * height * bpp,
        0 <= (x + y * stride) * bpp,
        x + y * stride <= (x + y * stride) * bpp,
{
    assert(x + y * stride <= (x + y * stride) * bpp) by (nonlinear_arith)
        requires
            0 <= x,
            0 <= y,
            0 <= stride,
            1 <= bpp,
    ;
    assert((x + y * stride + 1) * bpp <= stride * height * bpp) by (nonlinear_arith)
        requires
            0 <= x < width,
            0 <= y < height,
            width <= stride,
            1 <= bpp,
    ;
    assert((x + y * stride + 1) * bpp == (x + y * stride) * bpp + bpp) by (nonlinear_arith);
    assert(0 <= (x + y * stride) * bpp) by (nonlinear_arith)
        requires
            0 <= x,
            0 <= y,
            width <= stride,
            0 <= width,
            1 <= bpp,
    ;
}

/// The partial products of bpp * width * npixels stay below the buffer
/// length, so the untrusted multiplication cannot overflow.
proof fn lemma_shift_products_fit(bpp: int, width: int, npixels: int, len: int)
    requires
        1 <= bpp,
        0 <= width,
        1 <= npixels,
        bpp * width * npixels <= len,
    ensures
        bpp * width <= len,
{
    assert(bpp * width <= bpp * width * npixels) by (nonlinear_arith)
        requires
            1 <= npixels,
            1 <= bpp,
            0 <= width,
    ;
}

} // verus!
