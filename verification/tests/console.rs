use noto_sans_mono_bitmap::{get_raster, FontWeight, RasterHeight};
use zefir_os_kernel::framebuffer::{
    can_print_to, init_print, FrameBufferWriter, _print, _print_color_rgb,
};
use zefir_os_kernel::model::{
    FrameBufferInfo, PixelFormat, WriteError, BORDER_PADDING, LETTER_SPACING, LINE_SPACING,
};

const WHITE: [u8; 3] = [255, 255, 255];

fn leak(len: usize, fill: u8) -> &'static mut [u8] {
    Box::leak(vec![fill; len].into_boxed_slice())
}

fn layout(width: usize, height: usize, stride: usize, bytes_per_pixel: usize) -> FrameBufferInfo {
    FrameBufferInfo { width, height, pixel_format: PixelFormat::Rgb, bytes_per_pixel, stride }
}

fn console(width: usize, height: usize) -> FrameBufferWriter {
    let info = layout(width, height, width, 4);
    FrameBufferWriter::new(leak(width * height * 4, 0xAA), info).expect("a valid layout")
}

fn font_rows(c: char) -> &'static [&'static [u8]] {
    get_raster(c, FontWeight::Regular, RasterHeight::Size16)
        .expect("the font has this glyph")
        .raster()
}

/// Draws `rows` into `buffer` the plain way, pixel by pixel.
fn paint(
    buffer: &mut [u8],
    info: &FrameBufferInfo,
    x0: usize,
    y0: usize,
    rows: &[&[u8]],
    color: [u8; 3],
) {
    for (r, row) in rows.iter().enumerate() {
        for (c, intensity) in row.iter().enumerate() {
            let scale = |channel: u8| (channel as u16 * *intensity as u16 / 255) as u8;
            let px = match info.pixel_format {
                PixelFormat::Rgb => [scale(color[0]), scale(color[1]), scale(color[2]), 0],
                PixelFormat::Bgr => [scale(color[2]), scale(color[1]), scale(color[0]), 0],
                PixelFormat::U8 => [if *intensity > 200 { 0xf } else { 0 }, 0, 0, 0],
                PixelFormat::Unknown => panic!("no bytes in an unknown format"),
            };
            let start = ((y0 + r) * info.stride + x0 + c) * info.bytes_per_pixel;
            buffer[start..start + info.bytes_per_pixel]
                .copy_from_slice(&px[..info.bytes_per_pixel]);
        }
    }
}

#[test]
fn constants_are_those_of_the_console() {
    assert_eq!(LINE_SPACING, 2);
    assert_eq!(LETTER_SPACING, 0);
    assert_eq!(BORDER_PADDING, 1);
}

#[test]
fn new_erases_the_buffer_and_homes_the_cursor() {
    let info = layout(640, 480, 640, 4);
    let writer = FrameBufferWriter::new(leak(640 * 480 * 4, 0xAA), info).expect("a valid layout");
    assert_eq!(writer.cursor(), (1, 1));
    assert_eq!(writer.info(), info);
    assert_eq!(writer.buffer().len(), 640 * 480 * 4);
    assert!(writer.buffer().iter().all(|byte| *byte == 0));
}

#[test]
fn new_takes_the_smallest_console_that_holds_a_glyph() {
    // One glyph of 9 by 16 inside a border of 1, and the cursor after it.
    assert!(FrameBufferWriter::new(leak(11 * 19, 0), layout(11, 19, 11, 1)).is_some());
    assert!(FrameBufferWriter::new(leak(10 * 19, 0), layout(10, 19, 10, 1)).is_none());
    assert!(FrameBufferWriter::new(leak(11 * 18, 0), layout(11, 18, 11, 1)).is_none());
}

#[test]
fn new_refuses_a_pixel_size_out_of_range() {
    assert!(FrameBufferWriter::new(leak(0, 0), layout(64, 48, 64, 0)).is_none());
    assert!(FrameBufferWriter::new(leak(64 * 48 * 5, 0), layout(64, 48, 64, 5)).is_none());
    for bytes_per_pixel in 1..=4 {
        let buffer = leak(64 * 48 * bytes_per_pixel, 0);
        assert!(FrameBufferWriter::new(buffer, layout(64, 48, 64, bytes_per_pixel)).is_some());
    }
}

#[test]
fn new_refuses_a_line_wider_than_the_stride() {
    assert!(FrameBufferWriter::new(leak(60 * 48 * 4, 0), layout(64, 48, 60, 4)).is_none());
    assert!(FrameBufferWriter::new(leak(64 * 48 * 4, 0), layout(64, 48, 64, 4)).is_some());
    assert!(FrameBufferWriter::new(leak(70 * 48 * 4, 0), layout(64, 48, 70, 4)).is_some());
}

#[test]
fn new_refuses_a_buffer_of_another_length() {
    assert!(FrameBufferWriter::new(leak(64 * 48 * 4 - 1, 0), layout(64, 48, 64, 4)).is_none());
    assert!(FrameBufferWriter::new(leak(64 * 48 * 4 + 1, 0), layout(64, 48, 64, 4)).is_none());
    assert!(FrameBufferWriter::new(leak(64 * 48 * 4, 0), layout(64, 48, 64, 3)).is_none());
    assert!(FrameBufferWriter::new(leak(0, 0), layout(64, 48, 64, 4)).is_none());
}

#[test]
fn new_refuses_a_layout_too_large_for_memory() {
    assert!(FrameBufferWriter::new(leak(64, 0), layout(64, 48, usize::MAX, 4)).is_none());
    assert!(FrameBufferWriter::new(leak(64, 0), layout(64, usize::MAX, 64, 4)).is_none());
    assert!(
        FrameBufferWriter::new(leak(64, 0), layout(64, usize::MAX / 64, 64, 4)).is_none()
    );
}

#[test]
fn fits_says_what_new_takes() {
    assert!(layout(640, 480, 640, 4).fits(640 * 480 * 4));
    assert!(!layout(640, 480, 640, 4).fits(640 * 480 * 3));
    assert!(!layout(640, 480, 639, 4).fits(639 * 480 * 4));
    assert!(layout(640, 480, 1024, 3).fits(1024 * 480 * 3));
}

#[test]
fn hi_newline_in_green_on_640_by_480() {
    let info = layout(640, 480, 640, 4);
    let mut logger = FrameBufferWriter::new(leak(640 * 480 * 4, 0x55), info);
    assert!(logger.is_some());
    assert_eq!(_print_color_rgb(&mut logger, "Hi\n", [0, 255, 0]), Ok(()));
    let writer = logger.expect("still there");

    let mut expected = vec![0u8; 640 * 480 * 4];
    paint(&mut expected, &info, 1, 1, font_rows('H'), [0, 255, 0]);
    paint(&mut expected, &info, 10, 1, font_rows('i'), [0, 255, 0]);
    assert!(writer.buffer() == &expected[..]);
    assert_eq!(writer.cursor(), (BORDER_PADDING, BORDER_PADDING + 16 + LINE_SPACING));
    assert_eq!(writer.cursor(), (1, 19));

    // Red and blue are zero everywhere; green is the glyph's intensity.
    let h = font_rows('H');
    let i = font_rows('i');
    let mut lit = 0;
    for y in 0..480 {
        for x in 0..640 {
            let at = (y * 640 + x) * 4;
            let px = &writer.buffer()[at..at + 4];
            assert_eq!(px[0], 0);
            assert_eq!(px[2], 0);
            assert_eq!(px[3], 0);
            let want = if (1..17).contains(&y) && (1..10).contains(&x) {
                h[y - 1][x - 1]
            } else if (1..17).contains(&y) && (10..19).contains(&x) {
                i[y - 1][x - 10]
            } else {
                0
            };
            assert_eq!(px[1], want, "green at {}, {}", x, y);
            if want != 0 {
                lit += 1;
            }
        }
    }
    assert!(lit > 0);
    // The first glyph row begins at y = 1: line 0 is untouched, and the top
    // left pixel of the H with ink in it is on line 4.
    assert_eq!(writer.buffer()[(4 * 640 + 2) * 4 + 1], 254);
}

#[test]
fn line_feed_goes_to_the_left_border_one_line_down() {
    let mut writer = console(640, 480);
    assert_eq!(writer.write_str("abc"), Ok(()));
    assert_eq!(writer.cursor(), (28, 1));
    let before = writer.buffer().to_vec();
    assert_eq!(writer.write_char('\n'), Ok(()));
    assert_eq!(writer.cursor(), (1, 19));
    assert_eq!(writer.write_char('\n'), Ok(()));
    assert_eq!(writer.cursor(), (1, 37));
    assert_eq!(writer.write_char_color_rgb('\n', [9, 9, 9]), Ok(()));
    assert_eq!(writer.cursor(), (1, 55));
    assert!(writer.buffer() == &before[..]);
}

#[test]
fn line_feed_does_not_depend_on_x() {
    for glyphs in 0..20 {
        let mut writer = console(640, 480);
        assert_eq!(writer.write_str(&"x".repeat(glyphs)), Ok(()));
        assert_eq!(writer.cursor(), (1 + 9 * glyphs, 1));
        assert_eq!(writer.write_char('\n'), Ok(()));
        assert_eq!(writer.cursor(), (1, 19));
    }
}

#[test]
fn carriage_return_goes_to_the_left_border_of_the_same_line() {
    let mut writer = console(640, 480);
    assert_eq!(writer.write_str("\nabc"), Ok(()));
    assert_eq!(writer.cursor(), (28, 19));
    let before = writer.buffer().to_vec();
    assert_eq!(writer.write_char('\r'), Ok(()));
    assert_eq!(writer.cursor(), (1, 19));
    assert_eq!(writer.write_char_color_rgb('\r', [1, 2, 3]), Ok(()));
    assert_eq!(writer.cursor(), (1, 19));
    assert!(writer.buffer() == &before[..]);
}

#[test]
fn carriage_return_lets_a_glyph_be_drawn_over() {
    let info = layout(64, 48, 64, 4);
    let mut writer = console(64, 48);
    assert_eq!(writer.write_str("a\rb"), Ok(()));
    let mut expected = vec![0u8; 64 * 48 * 4];
    paint(&mut expected, &info, 1, 1, font_rows('b'), WHITE);
    assert!(writer.buffer() == &expected[..]);
    assert_eq!(writer.cursor(), (10, 1));
}

#[test]
fn glyphs_are_drawn_side_by_side() {
    let info = layout(640, 480, 640, 4);
    let mut writer = console(640, 480);
    assert_eq!(writer.write_str("Zefir"), Ok(()));
    let mut expected = vec![0u8; 640 * 480 * 4];
    for (n, c) in "Zefir".chars().enumerate() {
        paint(&mut expected, &info, 1 + 9 * n, 1, font_rows(c), WHITE);
    }
    assert!(writer.buffer() == &expected[..]);
    assert_eq!(writer.cursor(), (46, 1));
}

#[test]
fn write_str_is_write_char_for_each_char() {
    let text = "one\ntwo\rthree \u{1F600}!\n";
    let mut whole = console(100, 80);
    assert_eq!(whole.write_str(text), Ok(()));
    let mut single = console(100, 80);
    for c in text.chars() {
        assert_eq!(single.write_char(c), Ok(()));
    }
    assert_eq!(whole.cursor(), single.cursor());
    assert!(whole.buffer() == single.buffer());
}

#[test]
fn writing_in_pieces_is_writing_the_whole() {
    let mut whole = console(100, 80);
    assert_eq!(whole.write_str("Vector: [1, 2, 2, 4]\nAsync number: 42\n"), Ok(()));
    let mut pieces = console(100, 80);
    for piece in ["Vector: ", "[1, 2, 2, 4]", "\n", "", "Async number: ", "42", "\n"] {
        assert_eq!(pieces.write_str(piece), Ok(()));
    }
    assert_eq!(whole.cursor(), pieces.cursor());
    assert!(whole.buffer() == pieces.buffer());
}

#[test]
fn white_write_is_the_coloured_write_in_white() {
    let mut plain = console(100, 80);
    let mut coloured = console(100, 80);
    for c in "Hi there!\n".chars() {
        assert_eq!(plain.write_char(c), Ok(()));
        assert_eq!(coloured.write_char_color_rgb(c, WHITE), Ok(()));
    }
    assert_eq!(plain.cursor(), coloured.cursor());
    assert!(plain.buffer() == coloured.buffer());
}

#[test]
fn cursor_wraps_at_the_width() {
    // Three glyphs fit: 1 + 3 * 9 = 28 < 30, and 28 + 9 reaches the edge.
    let info = layout(30, 100, 30, 4);
    let mut writer = console(30, 100);
    assert_eq!(writer.write_str("abc"), Ok(()));
    assert_eq!(writer.cursor(), (28, 1));
    assert_eq!(writer.write_char('d'), Ok(()));
    assert_eq!(writer.cursor(), (10, 19));
    let mut expected = vec![0u8; 30 * 100 * 4];
    paint(&mut expected, &info, 1, 1, font_rows('a'), WHITE);
    paint(&mut expected, &info, 10, 1, font_rows('b'), WHITE);
    paint(&mut expected, &info, 19, 1, font_rows('c'), WHITE);
    paint(&mut expected, &info, 1, 19, font_rows('d'), WHITE);
    assert!(writer.buffer() == &expected[..]);
}

#[test]
fn glyph_that_ends_on_the_last_column_wraps() {
    // 10 + 9 = 19 is the width: the second glyph would end at the edge, so it
    // wraps.
    let mut writer = console(19, 100);
    assert_eq!(writer.write_char('a'), Ok(()));
    assert_eq!(writer.cursor(), (10, 1));
    assert_eq!(writer.write_char('b'), Ok(()));
    assert_eq!(writer.cursor(), (10, 19));
    let mut exact = console(20, 100);
    assert_eq!(exact.write_str("ab"), Ok(()));
    assert_eq!(exact.cursor(), (19, 1));
}

/// Where x stands after `n` glyphs, by the closed form.
fn wrapped_x(width: usize, x: usize, n: usize) -> usize {
    let here = (width - 1 - x) / 9;
    let per_line = (width - 2) / 9;
    if n <= here {
        x + n * 9
    } else {
        1 + ((n - here - 1) % per_line + 1) * 9
    }
}

#[test]
fn x_after_glyphs_is_the_sum_of_advances_modulo_wrapping() {
    for width in [11, 12, 19, 20, 21, 29, 30, 64, 100] {
        let mut writer = console(width, 60);
        let mut start = 1;
        let mut written = 0;
        for n in 0..80 {
            assert_eq!(writer.cursor().0, wrapped_x(width, 1, n), "width {} n {}", width, n);
            assert_eq!(
                writer.cursor().0,
                wrapped_x(width, start, n - written),
                "width {} from {}",
                width,
                start
            );
            if n % 7 == 3 {
                start = writer.cursor().0;
                written = n;
            }
            assert_eq!(writer.write_char('m'), Ok(()));
        }
    }
}

#[test]
fn x_without_wrap_is_start_plus_nine_per_glyph() {
    let mut writer = console(640, 480);
    for n in 0..71 {
        assert_eq!(writer.cursor(), (1 + 9 * n, 1));
        assert_eq!(writer.write_char('w'), Ok(()));
    }
    assert_eq!(writer.cursor(), (10, 19));
}

#[test]
fn glyph_below_the_last_line_erases_and_restarts() {
    // Lines start at 1, 19 and 37; a glyph at 37 would end at 53 > 40.
    let info = layout(64, 40, 64, 4);
    let mut writer = console(64, 40);
    assert_eq!(writer.write_str("ab\ncd\n"), Ok(()));
    assert_eq!(writer.cursor(), (1, 37));
    assert!(writer.buffer().iter().any(|byte| *byte != 0));
    assert_eq!(writer.write_char('e'), Ok(()));
    assert_eq!(writer.cursor(), (10, 1));
    let mut expected = vec![0u8; 64 * 40 * 4];
    paint(&mut expected, &info, 1, 1, font_rows('e'), WHITE);
    assert!(writer.buffer() == &expected[..]);
    assert_eq!(writer.write_char('f'), Ok(()));
    paint(&mut expected, &info, 10, 1, font_rows('f'), WHITE);
    assert!(writer.buffer() == &expected[..]);
    assert_eq!(writer.cursor(), (19, 1));
}

#[test]
fn enough_glyphs_fill_the_console_and_start_it_again() {
    // 6 glyphs to a line, 2 lines: the 13th glyph erases the other twelve.
    let info = layout(64, 40, 64, 4);
    let mut writer = console(64, 40);
    let mut expected = vec![0u8; 64 * 40 * 4];
    for n in 0..12 {
        assert_eq!(writer.write_char('#'), Ok(()));
        paint(&mut expected, &info, 1 + 9 * (n % 6), 1 + 18 * (n / 6), font_rows('#'), WHITE);
        assert!(writer.buffer() == &expected[..]);
        assert_eq!(writer.cursor(), (10 + 9 * (n % 6), 1 + 18 * (n / 6)));
    }
    assert_eq!(writer.write_char('@'), Ok(()));
    let mut restarted = vec![0u8; 64 * 40 * 4];
    paint(&mut restarted, &info, 1, 1, font_rows('@'), WHITE);
    assert!(writer.buffer() == &restarted[..]);
    assert_eq!(writer.cursor(), (10, 1));
}

#[test]
fn wrap_on_the_last_line_erases_and_restarts() {
    let info = layout(30, 37, 30, 4);
    let mut writer = console(30, 37);
    // Two lines of three: the second starts at 19 and ends at 35, and a
    // third would start at 37, the height.
    assert_eq!(writer.write_str("abcdef"), Ok(()));
    assert_eq!(writer.cursor(), (28, 19));
    assert_eq!(writer.write_char('g'), Ok(()));
    assert_eq!(writer.cursor(), (10, 1));
    let mut expected = vec![0u8; 30 * 37 * 4];
    paint(&mut expected, &info, 1, 1, font_rows('g'), WHITE);
    assert!(writer.buffer() == &expected[..]);
}

#[test]
fn line_feed_below_the_last_line_erases_nothing() {
    let mut writer = console(64, 40);
    assert_eq!(writer.write_str("ab\ncd\n"), Ok(()));
    assert_eq!(writer.cursor(), (1, 37));
    let drawn = writer.buffer().to_vec();
    assert!(drawn.iter().any(|byte| *byte != 0));
    // 37 + 18 is past the height of 40: the cursor goes there all the same.
    assert_eq!(writer.write_char('\n'), Ok(()));
    assert_eq!(writer.cursor(), (1, 55));
    assert!(writer.buffer() == &drawn[..]);
    assert_eq!(writer.write_char_color_rgb('\n', [9, 9, 9]), Ok(()));
    assert_eq!(writer.cursor(), (1, 73));
    assert!(writer.buffer() == &drawn[..]);
    assert_eq!(writer.write_char('\r'), Ok(()));
    assert_eq!(writer.cursor(), (1, 73));
    assert!(writer.buffer() == &drawn[..]);
}

#[test]
fn glyph_after_line_feeds_below_the_console_restarts_it() {
    let info = layout(64, 40, 64, 4);
    let mut writer = console(64, 40);
    assert_eq!(writer.write_str("ab\ncd\n\n\n\n"), Ok(()));
    assert_eq!(writer.cursor(), (1, 91));
    assert!(writer.buffer().iter().any(|byte| *byte != 0));
    assert_eq!(writer.write_char('e'), Ok(()));
    assert_eq!(writer.cursor(), (10, 1));
    let mut expected = vec![0u8; 64 * 40 * 4];
    paint(&mut expected, &info, 1, 1, font_rows('e'), WHITE);
    assert!(writer.buffer() == &expected[..]);
}

#[test]
fn line_feeds_at_the_bottom_keep_what_was_drawn() {
    let info = layout(11, 40, 11, 4);
    let mut writer = console(11, 40);
    assert_eq!(writer.write_str("\nA\n\n"), Ok(()));
    assert_eq!(writer.cursor(), (1, 55));
    let mut expected = vec![0u8; 11 * 40 * 4];
    paint(&mut expected, &info, 1, 19, font_rows('A'), WHITE);
    assert!(writer.buffer() == &expected[..]);
}

#[test]
fn line_feed_adds_eighteen_wherever_the_cursor_stands() {
    let mut writer = console(64, 48);
    for n in 0..1000 {
        assert_eq!(writer.cursor(), (1, 1 + 18 * n));
        assert_eq!(writer.write_char('\n'), Ok(()));
    }
    assert!(writer.buffer().iter().all(|byte| *byte == 0));
}

#[test]
fn cursor_is_inside_the_console_after_every_glyph() {
    let text = "The quick brown fox\njumps over\r\nthe lazy dog \u{FFFD}\t\n\n\n";
    for (width, height) in [(11, 19), (12, 20), (30, 37), (64, 40), (100, 55), (101, 56)] {
        let mut writer = console(width, height);
        for _ in 0..6 {
            for c in text.chars() {
                assert_eq!(writer.write_char(c), Ok(()));
                let (x, y) = writer.cursor();
                assert!(1 <= x && x < width, "x = {} in width {}", x, width);
                assert!(1 <= y);
                if c != '\n' && c != '\r' {
                    assert!(y + 17 < height, "y = {} in height {}", y, height);
                }
                assert!(x == 1 || y + 17 < height);
            }
        }
    }
}

#[test]
fn console_can_take_any_text_that_fits_in_memory() {
    let mut writer = console(640, 480);
    assert_eq!(writer.line_feeds_left(), (usize::MAX - 480) / 18);
    assert!(writer.can_take(""));
    assert!(writer.can_take("no line feed"));
    assert!(writer.can_take("\n"));
    assert!(writer.can_take(&"line\n".repeat(10_000)));
    assert_eq!(writer.write_str(&"\n".repeat(100)), Ok(()));
    assert_eq!(writer.cursor(), (1, 1801));
    assert_eq!(writer.line_feeds_left(), (usize::MAX - 1801) / 18);
    assert!(writer.can_take("\n\n\n"));
    assert_eq!(writer.write_char('x'), Ok(()));
    assert_eq!(writer.cursor(), (10, 1));
    assert_eq!(writer.line_feeds_left(), (usize::MAX - 480) / 18);
}

#[test]
fn logger_can_take_what_its_console_can() {
    let none: Option<FrameBufferWriter> = None;
    assert!(can_print_to(&none, "text\n\n"));
    let some = Some(console(64, 48));
    assert!(can_print_to(&some, "text\n\n"));
    assert!(can_print_to(&some, ""));
}

#[test]
fn clear_erases_and_homes_the_cursor() {
    let mut writer = console(64, 48);
    assert_eq!(writer.write_str("text\nmore"), Ok(()));
    assert!(writer.buffer().iter().any(|byte| *byte != 0));
    writer.clear();
    assert_eq!(writer.cursor(), (1, 1));
    assert!(writer.buffer().iter().all(|byte| *byte == 0));
    assert_eq!(writer.info(), layout(64, 48, 64, 4));
}

#[test]
fn lines_are_a_stride_apart() {
    let info = layout(40, 60, 50, 3);
    let mut writer =
        FrameBufferWriter::new(leak(50 * 60 * 3, 0xAA), info).expect("a valid layout");
    assert_eq!(writer.write_str("\n|"), Ok(()));
    assert_eq!(writer.cursor(), (10, 19));
    // The bar's column of ink, line by line, 50 pixels of 3 bytes apart.
    let bar = font_rows('|');
    for row in 0..16 {
        for col in 0..9 {
            let at = ((19 + row) * 50 + 1 + col) * 3;
            let ink = bar[row][col];
            assert_eq!(&writer.buffer()[at..at + 3], &[ink, ink, ink]);
        }
    }
    assert!(bar.iter().any(|row| row.iter().any(|ink| *ink != 0)));
}

#[test]
fn wrap_below_the_last_line_restarts_with_the_glyph() {
    let info = layout(40, 30, 50, 4);
    let mut writer =
        FrameBufferWriter::new(leak(50 * 30 * 4, 0xAA), info).expect("a valid layout");
    // Four glyphs to a line of 40, and one line to a height of 30.
    assert_eq!(writer.write_str("stride"), Ok(()));
    assert_eq!(writer.cursor(), (19, 1));
    let mut restarted = vec![0u8; 50 * 30 * 4];
    paint(&mut restarted, &info, 1, 1, font_rows('d'), WHITE);
    paint(&mut restarted, &info, 10, 1, font_rows('e'), WHITE);
    assert!(writer.buffer() == &restarted[..]);
}

#[test]
fn padding_past_the_width_is_left_alone() {
    let info = layout(40, 60, 50, 4);
    let mut writer =
        FrameBufferWriter::new(leak(50 * 60 * 4, 0xAA), info).expect("a valid layout");
    assert_eq!(writer.write_str("abcdefgh"), Ok(()));
    assert_eq!(writer.cursor(), (37, 19));
    let mut expected = vec![0u8; 50 * 60 * 4];
    for (n, c) in "abcdefgh".chars().enumerate() {
        paint(&mut expected, &info, 1 + 9 * (n % 4), 1 + 18 * (n / 4), font_rows(c), WHITE);
    }
    assert!(writer.buffer() == &expected[..]);
    for y in 0..60 {
        for x in 40..50 {
            let at = (y * 50 + x) * 4;
            assert_eq!(&writer.buffer()[at..at + 4], &[0, 0, 0, 0]);
        }
    }
}

#[test]
fn unknown_format_fails_at_the_first_glyph_and_falls_back() {
    let info = FrameBufferInfo { pixel_format: PixelFormat::Unknown, ..layout(64, 48, 64, 4) };
    let mut writer =
        FrameBufferWriter::new(leak(64 * 48 * 4, 0xAA), info).expect("a valid layout");
    assert_eq!(writer.info().pixel_format, PixelFormat::Unknown);

    // Control characters draw nothing and succeed.
    assert_eq!(writer.write_char('\n'), Ok(()));
    assert_eq!(writer.write_char('\r'), Ok(()));
    assert_eq!(writer.info().pixel_format, PixelFormat::Unknown);
    assert_eq!(writer.cursor(), (1, 19));

    assert_eq!(writer.write_char('a'), Err(WriteError::UnsupportedPixelFormat));
    assert_eq!(writer.info().pixel_format, PixelFormat::Rgb);
    assert_eq!(writer.info(), layout(64, 48, 64, 4));
    assert_eq!(writer.cursor(), (1, 19));
    assert!(writer.buffer().iter().all(|byte| *byte == 0));

    // What follows is drawn in the format that was put in its place.
    assert_eq!(writer.write_char('a'), Ok(()));
    assert_eq!(writer.cursor(), (10, 19));
    let mut expected = vec![0u8; 64 * 48 * 4];
    paint(&mut expected, &layout(64, 48, 64, 4), 1, 19, font_rows('a'), WHITE);
    assert!(writer.buffer() == &expected[..]);
}

#[test]
fn write_str_stops_at_the_first_failure() {
    let info = FrameBufferInfo { pixel_format: PixelFormat::Unknown, ..layout(64, 100, 64, 4) };
    let mut writer =
        FrameBufferWriter::new(leak(64 * 100 * 4, 0xAA), info).expect("a valid layout");
    assert_eq!(writer.write_str("\n\nab\ncd"), Err(WriteError::UnsupportedPixelFormat));
    // The two line feeds were written, the rest was not.
    assert_eq!(writer.cursor(), (1, 37));
    assert!(writer.buffer().iter().all(|byte| *byte == 0));
    assert_eq!(writer.info().pixel_format, PixelFormat::Rgb);
}

#[test]
fn unknown_format_fails_after_the_cursor_was_placed() {
    let info = FrameBufferInfo { pixel_format: PixelFormat::Unknown, ..layout(64, 40, 64, 4) };
    let mut writer =
        FrameBufferWriter::new(leak(64 * 40 * 4, 0xAA), info).expect("a valid layout");
    assert_eq!(writer.write_str("\n\n"), Ok(()));
    assert_eq!(writer.cursor(), (1, 37));
    // No room at 37: the console is begun again before the pixel fails.
    let failed = writer.write_char_color_rgb('a', [1, 2, 3]);
    assert_eq!(failed, Err(WriteError::UnsupportedPixelFormat));
    assert_eq!(writer.cursor(), (1, 1));
    assert_eq!(writer.info().pixel_format, PixelFormat::Rgb);
}

#[test]
fn print_without_a_logger_does_nothing() {
    let mut logger: Option<FrameBufferWriter> = None;
    assert_eq!(_print(&mut logger, "Hi there!\n"), Ok(()));
    assert!(logger.is_none());
    assert_eq!(_print_color_rgb(&mut logger, "[OK]\n", [0, 255, 0]), Ok(()));
    assert!(logger.is_none());
    assert!(can_print_to(&logger, "any\ntext\n"));
}

#[test]
fn print_writes_in_white() {
    let info = layout(640, 480, 640, 4);
    let mut logger = FrameBufferWriter::new(leak(640 * 480 * 4, 0), info);
    assert_eq!(_print(&mut logger, "Hi there!\n"), Ok(()));
    let mut expected = vec![0u8; 640 * 480 * 4];
    for (n, c) in "Hi there!".chars().enumerate() {
        paint(&mut expected, &info, 1 + 9 * n, 1, font_rows(c), WHITE);
    }
    let writer = logger.expect("still there");
    assert!(writer.buffer() == &expected[..]);
    assert_eq!(writer.cursor(), (1, 19));
}

#[test]
fn print_color_writes_in_the_colour() {
    let info = layout(640, 480, 640, 4);
    let mut logger = FrameBufferWriter::new(leak(640 * 480 * 4, 0), info);
    assert_eq!(_print_color_rgb(&mut logger, "[OK] ", [0, 255, 0]), Ok(()));
    assert_eq!(_print_color_rgb(&mut logger, "[...]", [255, 255, 0]), Ok(()));
    let mut expected = vec![0u8; 640 * 480 * 4];
    for (n, c) in "[OK] ".chars().enumerate() {
        paint(&mut expected, &info, 1 + 9 * n, 1, font_rows(c), [0, 255, 0]);
    }
    for (n, c) in "[...]".chars().enumerate() {
        paint(&mut expected, &info, 46 + 9 * n, 1, font_rows(c), [255, 255, 0]);
    }
    let writer = logger.expect("still there");
    assert!(writer.buffer() == &expected[..]);
    assert_eq!(writer.cursor(), (91, 1));
}

#[test]
fn print_of_an_empty_text_does_nothing() {
    let mut logger = Some(console(64, 48));
    assert_eq!(_print(&mut logger, "a"), Ok(()));
    let before = logger.as_ref().expect("there").buffer().to_vec();
    assert_eq!(_print_color_rgb(&mut logger, "", [255, 0, 0]), Ok(()));
    assert_eq!(_print(&mut logger, ""), Ok(()));
    let writer = logger.expect("still there");
    assert!(writer.buffer() == &before[..]);
    assert_eq!(writer.cursor(), (10, 1));
}

#[test]
fn print_color_is_print_but_for_the_colour() {
    let text = "one\ntwo\rthree\n\nfour";
    let mut plain = Some(console(100, 80));
    let mut coloured = Some(console(100, 80));
    assert_eq!(_print(&mut plain, text), Ok(()));
    assert_eq!(_print_color_rgb(&mut coloured, text, WHITE), Ok(()));
    let plain = plain.expect("there");
    let coloured = coloured.expect("there");
    assert_eq!(plain.cursor(), coloured.cursor());
    assert!(plain.buffer() == coloured.buffer());
}

#[test]
fn print_reports_an_unsupported_format() {
    let info = FrameBufferInfo { pixel_format: PixelFormat::Unknown, ..layout(64, 48, 64, 4) };
    let mut logger = FrameBufferWriter::new(leak(64 * 48 * 4, 0), info);
    assert_eq!(_print(&mut logger, "x"), Err(WriteError::UnsupportedPixelFormat));
    assert_eq!(_print(&mut logger, "x"), Ok(()));
    let mut other = FrameBufferWriter::new(leak(64 * 48 * 4, 0), info);
    let failed = _print_color_rgb(&mut other, "x", [1, 1, 1]);
    assert_eq!(failed, Err(WriteError::UnsupportedPixelFormat));
    assert_eq!(other.expect("still there").info().pixel_format, PixelFormat::Rgb);
}

#[test]
fn described_len_is_stride_times_height_times_pixel_size() {
    assert_eq!(layout(640, 480, 640, 4).described_len(), Some(1_228_800));
    assert_eq!(layout(640, 480, 1024, 3).described_len(), Some(1_474_560));
    assert_eq!(layout(1, 1, 1, 1).described_len(), Some(1));
    assert_eq!(layout(64, 0, 64, 4).described_len(), Some(0));
    assert_eq!(layout(64, 48, 64, 0).described_len(), Some(0));
    assert_eq!(layout(64, 48, usize::MAX, 0).described_len(), Some(0));
    assert_eq!(layout(64, usize::MAX, 1, 1).described_len(), Some(usize::MAX));
    assert_eq!(layout(64, usize::MAX, 2, 1).described_len(), None);
    assert_eq!(layout(64, usize::MAX / 2, 2, 2).described_len(), None);
    assert_eq!(layout(64, usize::MAX, usize::MAX, 4).described_len(), None);
}

#[test]
fn init_print_sets_the_logger_up() {
    let info = layout(64, 48, 64, 4);
    let mut logger: Option<FrameBufferWriter> = None;
    init_print(&mut logger, leak(64 * 48 * 4, 0xAA), info);
    let writer = logger.as_ref().expect("a logger");
    assert_eq!(writer.cursor(), (1, 1));
    assert_eq!(writer.info(), info);
    assert_eq!(writer.buffer().len(), 64 * 48 * 4);
    assert!(writer.buffer().iter().all(|byte| *byte == 0));
    assert_eq!(_print(&mut logger, "ok"), Ok(()));
    assert_eq!(logger.expect("a logger").cursor(), (19, 1));
}

#[test]
fn init_print_takes_the_bytes_that_the_layout_covers() {
    let info = layout(64, 48, 64, 4);
    let mut logger: Option<FrameBufferWriter> = None;
    init_print(&mut logger, leak(64 * 48 * 4 + 4096, 0xAA), info);
    let writer = logger.expect("a logger");
    assert_eq!(writer.buffer().len(), 64 * 48 * 4);
    assert!(writer.buffer().iter().all(|byte| *byte == 0));
}

#[test]
fn init_print_leaves_no_logger_on_a_bad_layout() {
    let mut short = Some(console(64, 48));
    init_print(&mut short, leak(64 * 48 * 4 - 1, 0), layout(64, 48, 64, 4));
    assert!(short.is_none());

    let mut narrow: Option<FrameBufferWriter> = None;
    init_print(&mut narrow, leak(10 * 48 * 4, 0), layout(10, 48, 10, 4));
    assert!(narrow.is_none());

    let mut huge: Option<FrameBufferWriter> = None;
    init_print(&mut huge, leak(64, 0), layout(64, usize::MAX, 64, 4));
    assert!(huge.is_none());

    let mut wide_pixels: Option<FrameBufferWriter> = None;
    init_print(&mut wide_pixels, leak(64 * 48 * 5, 0), layout(64, 48, 64, 5));
    assert!(wide_pixels.is_none());
}

#[test]
fn init_print_replaces_an_earlier_logger() {
    let mut logger = Some(console(64, 48));
    assert_eq!(_print(&mut logger, "before\n"), Ok(()));
    let info = layout(100, 80, 100, 3);
    init_print(&mut logger, leak(100 * 80 * 3, 0x11), info);
    let writer = logger.expect("a logger");
    assert_eq!(writer.info(), info);
    assert_eq!(writer.cursor(), (1, 1));
    assert!(writer.buffer().iter().all(|byte| *byte == 0));
}
