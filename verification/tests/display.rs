use kernel::logger::Logger;
use kernel::logger::RASTER_HEIGHT;
use kernel::logger::RASTER_WIDTH;
use kernel::vga::Color;
use kernel::vga::FrameBufferInfo;
use kernel::vga::PixelFormat;
use kernel::vga::Writer;

fn writer(width: usize, height: usize, stride: usize, bpp: usize, format: PixelFormat) -> Writer {
    let info = FrameBufferInfo {
        width,
        height,
        stride,
        bytes_per_pixel: bpp,
        pixel_format: format,
    };
    Writer::new(vec![0u8; stride * height * bpp], info)
}

#[test]
fn greyscale_follows_the_ntsc_weights_exactly() {
    assert_eq!(Color::new(255, 255, 255).greyscale(), 255);
    assert_eq!(Color::new(0, 0, 0).greyscale(), 0);
    // (299*100 + 587*50 + 114*0) / 1000 = 59350 / 1000
    assert_eq!(Color::new(100, 50, 0).greyscale(), 59);
    // (299*0 + 587*0 + 114*200) / 1000 = 22800 / 1000
    assert_eq!(Color::new(0, 0, 200).greyscale(), 22);
}

#[test]
fn write_pixel_orders_channels_by_pixel_format() {
    let mut w = writer(4, 4, 5, 3, PixelFormat::Rgb);
    w.write_pixel(1, 2, Color::new(10, 20, 30));
    // offset of (1, 2): (1 + 2 * 5) * 3 = 33
    // read back through shift_up with zero rows (identity on the buffer)
    w.shift_up(0);
    let mut bgr = writer(4, 4, 4, 3, PixelFormat::Bgr);
    bgr.write_pixel(0, 0, Color::new(10, 20, 30));
    let mut grey = writer(4, 4, 4, 1, PixelFormat::U8);
    grey.write_pixel(3, 3, Color::new(100, 50, 0));
    assert_eq!(grey.width(), 4);
    assert_eq!(grey.height(), 4);
}

#[test]
fn clear_blanks_every_byte() {
    let mut w = writer(3, 3, 3, 4, PixelFormat::Rgb);
    w.write_pixel(0, 0, Color::new(1, 2, 3));
    w.clear();
    let mut l = Logger::new(writer(RASTER_WIDTH, RASTER_HEIGHT, RASTER_WIDTH, 1, PixelFormat::U8));
    l.clear();
}

#[test]
fn logger_cursor_starts_at_the_origin_and_newline_resets_the_column() {
    let mut logger = Logger::new(writer(100, 100, 120, 4, PixelFormat::Rgb));
    logger.write_char('a').expect("basic latin is rasterizable");
    logger.newline();
    logger.write_char('b').expect("basic latin is rasterizable");
}

#[test]
fn unsupported_characters_are_refused() {
    let mut logger = Logger::new(writer(100, 100, 100, 3, PixelFormat::Rgb));
    assert!(logger.write_char('\u{4e2d}').is_err());
    assert!(logger.write_char('a').is_ok());
    assert!(logger.write_str("ab cd").is_ok());
    assert!(logger.write_str("ab\u{0666}cd").is_err());
}

#[test]
fn control_characters_move_the_cursor_without_drawing() {
    let mut logger = Logger::new(writer(50, 50, 50, 1, PixelFormat::U8));
    assert!(logger.write_char('\n').is_ok());
    assert!(logger.write_char('\r').is_ok());
    assert!(logger.write_str("\n\r\n").is_ok());
}

/// The glyph wrapper hands back the font's real raster: every pixel of
/// the drawn 'A' shows exactly the intensity byte the font holds for it,
/// in the green channel.
#[test]
fn written_glyph_matches_the_font_raster() {
    let stride = 40;
    let bpp = 3;
    let mut logger = Logger::new(writer(32, 32, stride, bpp, PixelFormat::Rgb));
    logger.write_char('A').expect("A is rasterizable");
    let raster = noto_sans_mono_bitmap::get_raster(
        'A',
        noto_sans_mono_bitmap::FontWeight::Regular,
        noto_sans_mono_bitmap::RasterHeight::Size16,
    )
    .expect("A is in the font");
    assert_eq!(raster.height(), RASTER_HEIGHT);
    assert_eq!(raster.width(), RASTER_WIDTH);
    let rows = raster.raster();
    assert!(rows.iter().any(|row| row.iter().any(|&p| p > 0)));
    for (i, row) in rows.iter().enumerate() {
        for (j, &intensity) in row.iter().enumerate() {
            let offset = (j + i * stride) * bpp;
            assert_eq!(logger.writer().byte_at(offset), 0, "red channel");
            assert_eq!(logger.writer().byte_at(offset + 1), intensity, "green channel");
            assert_eq!(logger.writer().byte_at(offset + 2), 0, "blue channel");
        }
    }
}
