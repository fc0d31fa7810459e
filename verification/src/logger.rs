//! Line-oriented text logger over the framebuffer.
//!
//! Characters are rasterized by the noto-sans-mono-bitmap font and drawn
//! glyph by glyph at a cursor that wraps at the right edge and clears the
//! screen at the bottom. What is proved: the cursor obeys exactly those
//! rules, every glyph lands pixel for pixel where the cursor stood, and
//! no byte outside the drawn glyph changes.

use vstd::prelude::*;

use crate::vga::Color;
use crate::vga::Writer;
use crate::vga::pixel_channels;
use vstd::std_specs::iter::IteratorSpec;

verus! {

/// Width in pixels of every glyph of the font at the regular weight and
/// raster height 16, as the font crate fixes it.
pub const RASTER_WIDTH: usize = 7;

/// Height in pixels of every glyph at raster height 16.
pub const RASTER_HEIGHT: usize = 16;

/// The glyph the font yields for a character: 16 rows of 7 intensity
/// bytes, or nothing for a character the font does not know.
pub uninterp spec fn glyph_of(c: char) -> Option<Seq<Seq<u8>>>;

/// Relies on noto_sans_mono_bitmap::get_raster at the regular weight and
/// raster height 16: the glyph depends on the character alone, a known
/// character yields 16 rows of 7 intensity bytes each, an unknown one
/// yields nothing.
#[verifier::external_body]
fn get_glyph(c: char) -> (r: Option<Vec<Vec<u8>>>)
    ensures
        r is Some <==> glyph_of(c) is Some,
        r matches Some(rows) ==> {
            &&& rows@.map_values(|row: Vec<u8>| row@) == glyph_of(c)->Some_0
            &&& rows@.len() == RASTER_HEIGHT
            &&& forall|i: int| 0 <= i < rows@.len() ==> (#[trigger] rows@[i])@.len()
                == RASTER_WIDTH
        },
{
    let rc = noto_sans_mono_bitmap::get_raster(
        c,
        noto_sans_mono_bitmap::FontWeight::Regular,
        noto_sans_mono_bitmap::RasterHeight::Size16,
    )?;
    Some(rc.raster().iter().map(|row| row.to_vec()).collect())
}

/// The character occupies no glyph but still has meaning to the cursor,
/// or the font knows it.
pub open spec fn char_writable(c: char) -> bool {
    c == '\n' || c == '\r' || glyph_of(c) is Some
}

/// The pixel at `(x, y)` of the buffer shows `color`.
pub open spec fn pixel_is(w: Writer, x: int, y: int, color: Color) -> bool {
    forall|b: int|
        0 <= b < w.spec_info().bytes_per_pixel ==> w.buf()[w.pixel_offset(x, y) + b]
            == pixel_channels(w.spec_info().pixel_format, color)[b]
}

/// The glyph of `c` stands at `(x0, y0)`: each intensity byte drawn as a
/// green pixel.
pub open spec fn glyph_drawn(w: Writer, c: char, x0: int, y0: int) -> bool {
    forall|i: int, j: int|
        0 <= i < RASTER_HEIGHT && 0 <= j < RASTER_WIDTH ==> pixel_is(
            w,
            x0 + j,
            y0 + i,
            (Color { r: 0, g: glyph_of(c)->Some_0[i][j], b: 0 }),
        )
}

/// Byte `o` of the buffer belongs to the glyph drawn at `(x0, y0)`.
pub open spec fn in_glyph_region(w: Writer, o: int, x0: int, y0: int) -> bool {
    exists|i: int, j: int|
        0 <= i < RASTER_HEIGHT && 0 <= j < RASTER_WIDTH && #[trigger] w.pixel_offset(
            x0 + j,
            y0 + i,
        ) <= o < w.pixel_offset(x0 + j, y0 + i) + w.spec_info().bytes_per_pixel
}

/// The character the font cannot rasterize.
#[derive(Debug, Clone, Copy, PartialEq, Eq, Structural)]
pub struct UnsupportedCharacter;

/// Draws text into a framebuffer, tracking a pixel cursor.
pub struct Logger {
    writer: Writer,
    x: usize,
    y: usize,
}

impl Logger {
    /// The framebuffer writer underneath.
    pub closed spec fn spec_writer(self) -> Writer {
        self.writer
    }

    /// Cursor column, in pixels.
    pub closed spec fn cursor_x(self) -> int {
        self.x as int
    }

    /// Cursor row, in pixels.
    pub closed spec fn cursor_y(self) -> int {
        self.y as int
    }

    /// The buffer is consistent and large enough for at least one glyph,
    /// and the cursor column never passes the right edge.
    pub closed spec fn wf(self) -> bool {
        &&& self.writer.wf()
        &&& RASTER_WIDTH <= self.writer.spec_info().width
        &&& RASTER_HEIGHT <= self.writer.spec_info().height
        &&& self.cursor_x() <= self.writer.spec_info().width
    }

    /// Starts logging at the top-left corner of the given framebuffer,
    /// which must have room for at least one glyph.
    pub fn new(writer: Writer) -> (l: Logger)
        requires
            writer.wf(),
            RASTER_WIDTH <= writer.spec_info().width,
            RASTER_HEIGHT <= writer.spec_info().height,
        ensures
            l.wf(),
            l.spec_writer() == writer,
            l.cursor_x() == 0,
            l.cursor_y() == 0,
    {
        Logger { writer, x: 0, y: 0 }
    }

    /// The framebuffer writer underneath, for reading pixels back.
    pub fn writer(&self) -> (w: &Writer)
        ensures
            *w == self.spec_writer(),
    {
        &self.writer
    }

    /// Moves the cursor to the start of the next text line.
    pub fn newline(&mut self)
        requires
            old(self).wf(),
            old(self).cursor_y() + RASTER_HEIGHT <= usize::MAX,
        ensures
            final(self).wf(),
            final(self).spec_writer() == old(self).spec_writer(),
            final(self).cursor_x() == 0,
            final(self).cursor_y() == old(self).cursor_y() + RASTER_HEIGHT,
    {
        self.y = self.y + RASTER_HEIGHT;
        self.x = 0;
    }

    /// Blanks the screen and puts the cursor back to the top-left corner.
    pub fn clear(&mut self)
        requires
            old(self).wf(),
        ensures
            final(self).wf(),
            final(self).spec_writer().spec_info() == old(self).spec_writer().spec_info(),
            final(self).cursor_x() == 0,
            final(self).cursor_y() == 0,
            final(self).spec_writer().buf().len() == old(self).spec_writer().buf().len(),
            forall|o: int|
                0 <= o < final(self).spec_writer().buf().len()
                    ==> final(self).spec_writer().buf()[o] == 0u8,
    {
        self.x = 0;
        self.y = 0;
        self.writer.clear();
    }

    /// Draws one character at the cursor and advances it.
    ///
    /// A newline moves the cursor to the next text line and a carriage
    /// return does nothing; any other character is rasterized. A glyph
    /// that would pass the right edge wraps to the next line first, and
    /// one that would pass the bottom clears the screen first. A
    /// character the font does not know is refused and changes nothing.
    pub fn write_char(&mut self, c: char) -> (r: Result<(), UnsupportedCharacter>)
        requires
            old(self).wf(),
            old(self).cursor_y() + 2 * RASTER_HEIGHT <= usize::MAX,
        ensures
            final(self).wf(),
            final(self).spec_writer().spec_info() == old(self).spec_writer().spec_info(),
            final(self).cursor_y() <= old(self).cursor_y() + RASTER_HEIGHT,
            r is Ok <==> char_writable(c),
            c == '\n' ==> final(self).spec_writer() == old(self).spec_writer()
                && final(self).cursor_x() == 0 && final(self).cursor_y() == old(self).cursor_y()
                + RASTER_HEIGHT,
            c == '\r' ==> *final(self) == *old(self),
            r is Err ==> *final(self) == *old(self),
            c != '\n' && c != '\r' && glyph_of(c) is Some ==> write_char_drawn(
                *old(self),
                *final(self),
                c,
            ),
    {
        if c == '\n' {
            self.newline();
            return Ok(());
        }
        if c == '\r' {
            return Ok(());
        }
        match get_glyph(c) {
            None => Err(UnsupportedCharacter),
            Some(rows) => {
                proof {
                    crate::vga::lemma_writer_wf_facts(self.writer);
                    lemma_visible_area_fits(self.writer);
                }
                let width = self.writer.width();
                let height = self.writer.height();
                if self.x + RASTER_WIDTH >= width {
                    self.newline();
                }
                if self.y + RASTER_HEIGHT >= height {
                    self.clear();
                }
                draw_glyph(&mut self.writer, &rows, Ghost(c), self.x, self.y);
                self.x = self.x + RASTER_WIDTH;
                Ok(())
            },
        }
    }

    /// Draws a string character by character, stopping at the first one
    /// the font refuses; the string goes through whole exactly when every
    /// character of it is writable.
    pub fn write_str(&mut self, s: &str) -> (r: Result<(), UnsupportedCharacter>)
        requires
            old(self).wf(),
            old(self).cursor_y() + RASTER_HEIGHT * (s@.len() + 1) <= usize::MAX,
        ensures
            final(self).wf(),
            final(self).spec_writer().spec_info() == old(self).spec_writer().spec_info(),
            r is Ok <==> (forall|i: int| 0 <= i < s@.len() ==> char_writable(#[trigger] s@[i])),
    {
        broadcast use vstd::string::next_postcondition;
        broadcast use vstd::string::axiom_spec_iter;

        let ghost all = s@;
        let mut it = s.chars();
        let ghost mut k: int = 0;
        loop
            invariant
                self.wf(),
                self.spec_writer().spec_info() == old(self).spec_writer().spec_info(),
                it.obeys_prophetic_iter_laws(),
                all == s@,
                0 <= k <= all.len(),
                it.remaining() =~= all.skip(k),
                self.cursor_y() + RASTER_HEIGHT * (all.len() - k + 1) <= usize::MAX,
                forall|i: int| 0 <= i < k ==> char_writable(#[trigger] all[i]),
            decreases all.len() - k,
        {
            match it.next() {
                None => {
                    proof {
                        assert(all.skip(k).len() == 0);
                    }
                    return Ok(());
                },
                Some(c) => {
                    proof {
                        assert(all.skip(k)[0] == all[k]);
                    }
                    match self.write_char(c) {
                        Ok(()) => {
                            proof {
                                k = k + 1;
                                assert(all.skip(k - 1).drop_first() =~= all.skip(k));
                            }
                        },
                        Err(e) => {
                            proof {
                                assert(!char_writable(all[k]));
                            }
                            return Err(e);
                        },
                    }
                },
            }
        }
    }
}

/// The cursor and buffer change `write_char` makes when it draws: the
/// cursor wraps at the right edge, the screen clears at the bottom, the
/// glyph lands at the settled cursor, and every byte outside it keeps
/// its value (or is blank after a clear).
pub open spec fn write_char_drawn(l0: Logger, l1: Logger, c: char) -> bool {
    let width = l0.spec_writer().spec_info().width as int;
    let height = l0.spec_writer().spec_info().height as int;
    let wrap = l0.cursor_x() + RASTER_WIDTH >= width;
    let x1 = if wrap {
        0
    } else {
        l0.cursor_x()
    };
    let y1 = if wrap {
        l0.cursor_y() + RASTER_HEIGHT
    } else {
        l0.cursor_y()
    };
    let cleared = y1 + RASTER_HEIGHT >= height;
    let xb = if cleared {
        0
    } else {
        x1
    };
    let yb = if cleared {
        0
    } else {
        y1
    };
    &&& l1.cursor_x() == xb + RASTER_WIDTH
    &&& l1.cursor_y() == yb
    &&& l1.spec_writer().buf().len() == l0.spec_writer().buf().len()
    &&& glyph_drawn(l1.spec_writer(), c, xb, yb)
    &&& forall|o: int|
        0 <= o < l1.spec_writer().buf().len() && !in_glyph_region(l1.spec_writer(), o, xb, yb)
            ==> l1.spec_writer().buf()[o] == (if cleared {
            0u8
        } else {
            l0.spec_writer().buf()[o]
        })
}

/// The visible area's byte count bounds the coordinates: a cursor inside
/// a glyph-sized screen stays far from the integer limit.
proof fn lemma_visible_area_fits(w: Writer)
    requires
        w.wf(),
        RASTER_WIDTH <= w.spec_info().width,
        RASTER_HEIGHT <= w.spec_info().height,
    ensures
        w.spec_info().width + RASTER_WIDTH <= usize::MAX,
        w.spec_info().height + RASTER_HEIGHT <= usize::MAX,
{
    crate::vga::lemma_writer_wf_facts(w);
    let s = w.spec_info().stride as int;
    let h = w.spec_info().height as int;
    let bpp = w.spec_info().bytes_per_pixel as int;
    let len = w.buf().len() as int;
    assert(s * 16 <= s * h * bpp) by (nonlinear_arith)
        requires
            s >= 7,
            h >= 16,
            bpp >= 1,
    ;
    assert(s + 15 <= s * 16) by (nonlinear_arith)
        requires
            s >= 1,
    ;
    assert(h * 7 <= s * h * bpp) by (nonlinear_arith)
        requires
            s >= 7,
            h >= 16,
            bpp >= 1,
    ;
    assert(h + 16 <= h * 7) by (nonlinear_arith)
        requires
            h >= 16,
    ;
}

/// Whether a byte lies in a glyph region depends only on the buffer
/// geometry, not on the pixels.
proof fn lemma_region_same_info(wa: Writer, wb: Writer, o: int, x0: int, y0: int)
    requires
        wa.spec_info() == wb.spec_info(),
    ensures
        in_glyph_region(wa, o, x0, y0) == in_glyph_region(wb, o, x0, y0),
{
    if in_glyph_region(wa, o, x0, y0) {
        let (i, j) = choose|i: int, j: int|
            0 <= i < RASTER_HEIGHT && 0 <= j < RASTER_WIDTH && #[trigger] wa.pixel_offset(
                x0 + j,
                y0 + i,
            ) <= o < wa.pixel_offset(x0 + j, y0 + i) + wa.spec_info().bytes_per_pixel;
        assert(wb.pixel_offset(x0 + j, y0 + i) == wa.pixel_offset(x0 + j, y0 + i));
    }
    if in_glyph_region(wb, o, x0, y0) {
        let (i, j) = choose|i: int, j: int|
            0 <= i < RASTER_HEIGHT && 0 <= j < RASTER_WIDTH && #[trigger] wb.pixel_offset(
                x0 + j,
                y0 + i,
            ) <= o < wb.pixel_offset(x0 + j, y0 + i) + wb.spec_info().bytes_per_pixel;
        assert(wa.pixel_offset(x0 + j, y0 + i) == wb.pixel_offset(x0 + j, y0 + i));
    }
}

/// Draws the glyph of `c` with its top-left pixel at `(x0, y0)`: each
/// intensity byte becomes a green pixel, and no byte outside the glyph's
/// pixel ranges changes.
fn draw_glyph(w: &mut Writer, rows: &Vec<Vec<u8>>, Ghost(c): Ghost<char>, x0: usize, y0: usize)
    requires
        old(w).wf(),
        glyph_of(c) is Some,
        rows@.map_values(|row: Vec<u8>| row@) == glyph_of(c)->Some_0,
        rows@.len() == RASTER_HEIGHT,
        forall|i: int| 0 <= i < rows@.len() ==> (#[trigger] rows@[i])@.len() == RASTER_WIDTH,
        x0 + RASTER_WIDTH <= old(w).spec_info().width,
        y0 + RASTER_HEIGHT <= old(w).spec_info().height,
    ensures
        final(w).wf(),
        final(w).spec_info() == old(w).spec_info(),
        final(w).buf().len() == old(w).buf().len(),
        glyph_drawn(*final(w), c, x0 as int, y0 as int),
        forall|o: int|
            0 <= o < final(w).buf().len() && !in_glyph_region(*final(w), o, x0 as int, y0 as int)
                ==> final(w).buf()[o] == old(w).buf()[o],
{
    proof {
        crate::vga::lemma_writer_wf_facts(*w);
    }
    let ghost glyph = glyph_of(c)->Some_0;
    let mut i: usize = 0;
    while i < RASTER_HEIGHT
        invariant
            i <= RASTER_HEIGHT,
            w.wf(),
            w.spec_info() == old(w).spec_info(),
            w.buf().len() == old(w).buf().len(),
            glyph == glyph_of(c)->Some_0,
            glyph_of(c) is Some,
            rows@.map_values(|row: Vec<u8>| row@) == glyph,
            rows@.len() == RASTER_HEIGHT,
            forall|i2: int| 0 <= i2 < rows@.len() ==> (#[trigger] rows@[i2])@.len()
                == RASTER_WIDTH,
            x0 + RASTER_WIDTH <= w.spec_info().width,
            y0 + RASTER_HEIGHT <= w.spec_info().height,
            forall|i2: int, j2: int|
                0 <= i2 < i && 0 <= j2 < RASTER_WIDTH ==> pixel_is(
                    *w,
                    x0 + j2,
                    y0 + i2,
                    (Color { r: 0, g: glyph[i2][j2], b: 0 }),
                ),
            forall|o: int|
                0 <= o < w.buf().len() && !in_glyph_region(*w, o, x0 as int, y0 as int)
                    ==> w.buf()[o] == old(w).buf()[o],
        decreases RASTER_HEIGHT - i,
    {
        let row = &rows[i];
        let mut j: usize = 0;
        while j < RASTER_WIDTH
            invariant
                i < RASTER_HEIGHT,
                j <= RASTER_WIDTH,
                w.wf(),
                w.spec_info() == old(w).spec_info(),
                w.buf().len() == old(w).buf().len(),
                glyph == glyph_of(c)->Some_0,
                glyph_of(c) is Some,
                rows@.map_values(|row2: Vec<u8>| row2@) == glyph,
                rows@.len() == RASTER_HEIGHT,
                forall|i2: int| 0 <= i2 < rows@.len() ==> (#[trigger] rows@[i2])@.len()
                    == RASTER_WIDTH,
                row == &rows[i as int],
                x0 + RASTER_WIDTH <= w.spec_info().width,
                y0 + RASTER_HEIGHT <= w.spec_info().height,
                forall|i2: int, j2: int|
                    0 <= i2 < i && 0 <= j2 < RASTER_WIDTH ==> pixel_is(
                        *w,
                        x0 + j2,
                        y0 + i2,
                        (Color { r: 0, g: glyph[i2][j2], b: 0 }),
                    ),
                forall|j2: int|
                    0 <= j2 < j ==> pixel_is(
                        *w,
                        x0 + j2,
                        y0 + i,
                        (Color { r: 0, g: glyph[i as int][j2], b: 0 }),
                    ),
                forall|o: int|
                    0 <= o < w.buf().len() && !in_glyph_region(*w, o, x0 as int, y0 as int)
                        ==> w.buf()[o] == old(w).buf()[o],
            decreases RASTER_WIDTH - j,
        {
            let ghost w_before = *w;
            let intensity = row[j];
            proof {
                assert(rows@.map_values(|row2: Vec<u8>| row2@)[i as int] == rows@[i as int]@);
                assert(intensity == glyph[i as int][j as int]);
            }
            write_green_pixel(w, x0 + j, y0 + i, intensity);
            proof {
                lemma_draw_step(
                    w_before,
                    *w,
                    c,
                    x0 as int,
                    y0 as int,
                    i as int,
                    j as int,
                    glyph,
                );
                assert forall|o: int|
                    0 <= o < w.buf().len() && !in_glyph_region(*w, o, x0 as int, y0 as int)
                        implies w.buf()[o] == old(w).buf()[o] by {
                    lemma_region_same_info(*w, w_before, o, x0 as int, y0 as int);
                }
            }
            j = j + 1;
        }
        i = i + 1;
    }
}

/// Writes one green pixel; a thin shim so the drawing proof can speak of
/// the writer before and after.
fn write_green_pixel(w: &mut Writer, x: usize, y: usize, intensity: u8)
    requires
        old(w).wf(),
        x < old(w).spec_info().width,
        y < old(w).spec_info().height,
    ensures
        final(w).wf(),
        final(w).spec_info() == old(w).spec_info(),
        final(w).buf().len() == old(w).buf().len(),
        pixel_is(*final(w), x as int, y as int, (Color { r: 0, g: intensity, b: 0 })),
        forall|o: int|
            0 <= o < final(w).buf().len() && !(final(w).pixel_offset(x as int, y as int) <= o
                < final(w).pixel_offset(x as int, y as int)
                + final(w).spec_info().bytes_per_pixel) ==> final(w).buf()[o] == old(w).buf()[o],
{
    let color = Color::new(0, intensity, 0);
    w.write_pixel(x, y, color);
}

/// One pixel write inside the glyph area keeps every already-drawn pixel
/// and cannot touch a byte outside the glyph area.
proof fn lemma_draw_step(
    w0: Writer,
    w1: Writer,
    c: char,
    x0: int,
    y0: int,
    i: int,
    j: int,
    glyph: Seq<Seq<u8>>,
)
    requires
        w0.wf(),
        w1.wf(),
        glyph_of(c) is Some,
        glyph == glyph_of(c)->Some_0,
        0 <= i < RASTER_HEIGHT,
        0 <= j < RASTER_WIDTH,
        0 <= x0,
        0 <= y0,
        x0 + RASTER_WIDTH <= w0.spec_info().width,
        y0 + RASTER_HEIGHT <= w0.spec_info().height,
        w1.spec_info() == w0.spec_info(),
        w1.buf().len() == w0.buf().len(),
        pixel_is(w1, x0 + j, y0 + i, (Color { r: 0, g: glyph[i][j], b: 0 })),
        forall|o: int|
            0 <= o < w1.buf().len() && !(w1.pixel_offset(x0 + j, y0 + i) <= o < w1.pixel_offset(
                x0 + j,
                y0 + i,
            ) + w1.spec_info().bytes_per_pixel) ==> w1.buf()[o] == w0.buf()[o],
    ensures
        // previously drawn pixels keep their colors
        forall|i2: int, j2: int, col: Color|
            0 <= i2 < RASTER_HEIGHT && 0 <= j2 < RASTER_WIDTH && !(i2 == i && j2 == j)
                && #[trigger] pixel_is(w0, x0 + j2, y0 + i2, col) ==> pixel_is(
                w1,
                x0 + j2,
                y0 + i2,
                col,
            ),
        // bytes outside the whole glyph area are untouched
        forall|o: int|
            0 <= o < w1.buf().len() && !in_glyph_region(w1, o, x0, y0) ==> w1.buf()[o]
                == w0.buf()[o],
{
    crate::vga::lemma_writer_wf_facts(w0);
    crate::vga::lemma_pixel_in_buffer(
        x0 + j,
        y0 + i,
        w0.spec_info().width as int,
        w0.spec_info().height as int,
        w0.spec_info().stride as int,
        w0.spec_info().bytes_per_pixel as int,
    );
    assert forall|i2: int, j2: int, col: Color|
        0 <= i2 < RASTER_HEIGHT && 0 <= j2 < RASTER_WIDTH && !(i2 == i && j2 == j)
            && #[trigger] pixel_is(w0, x0 + j2, y0 + i2, col) implies pixel_is(
        w1,
        x0 + j2,
        y0 + i2,
        col,
    ) by {
        crate::vga::lemma_pixel_ranges_disjoint(w0, x0 + j2, y0 + i2, x0 + j, y0 + i);
        crate::vga::lemma_pixel_in_buffer(
            x0 + j2,
            y0 + i2,
            w0.spec_info().width as int,
            w0.spec_info().height as int,
            w0.spec_info().stride as int,
            w0.spec_info().bytes_per_pixel as int,
        );
        assert forall|b: int| 0 <= b < w1.spec_info().bytes_per_pixel implies w1.buf()[w1.pixel_offset(
            x0 + j2,
            y0 + i2,
        ) + b] == pixel_channels(w1.spec_info().pixel_format, col)[b] by {
            assert(w1.buf()[w1.pixel_offset(x0 + j2, y0 + i2) + b] == w0.buf()[w0.pixel_offset(
                x0 + j2,
                y0 + i2,
            ) + b]);
        }
    }
    assert forall|o: int|
        0 <= o < w1.buf().len() && !in_glyph_region(w1, o, x0, y0) implies w1.buf()[o]
        == w0.buf()[o] by {
        if w1.pixel_offset(x0 + j, y0 + i) <= o < w1.pixel_offset(x0 + j, y0 + i)
            + w1.spec_info().bytes_per_pixel {
            assert(in_glyph_region(w1, o, x0, y0));
        }
    }
}

} // verus!
