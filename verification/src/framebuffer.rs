//! The frame console: text drawn glyph by glyph into a linear pixel buffer.
use crate::font::{get_char_raster, GlyphBitmap, CHAR_RASTER_HEIGHT, CHAR_RASTER_WIDTH};
use crate::geometry::{
    blit_glyph_upto, lemma_blit_glyph_ends, lemma_blit_glyph_step, lemma_cursor_sums_fit,
    lemma_pixel_in_buffer,
};
use crate::laws::lemma_can_take_first;
use crate::model::{
    blit_pixel, can_print, line_feeds, line_height, pixel_bytes, print_to, scale_channel, white,
    zeroed, ConsoleState, FrameBufferInfo, PixelFormat, WriteError, BORDER_PADDING,
    LETTER_SPACING, LINE_SPACING,
};
use vstd::arithmetic::div_mod::lemma_fundamental_div_mod;
use volatile::Volatile;
use vstd::prelude::*;

verus! {

impl FrameBufferInfo {
    /// The number of bytes that the layout describes, or `None` where no
    /// buffer in memory is that long.
    pub fn described_len(&self) -> (len: Option<usize>)
        ensures
            len is Some <==> self.byte_len() <= usize::MAX,
            len matches Some(n) ==> n == self.byte_len(),
    {
        if self.bytes_per_pixel == 0 {
            assert(self.stride * self.height * 0 == 0) by (nonlinear_arith);
            return Some(0);
        }
        assert(self.stride * self.height <= self.stride * self.height * self.bytes_per_pixel)
            by (nonlinear_arith)
            requires
                self.bytes_per_pixel >= 1,
        ;
        match self.stride.checked_mul(self.height) {
            None => None,
            Some(pixels) => pixels.checked_mul(self.bytes_per_pixel),
        }
    }

    /// Tests whether a buffer of `byte_len` bytes is a console of this layout.
    pub fn fits(&self, byte_len: usize) -> (ok: bool)
        ensures
            ok == self.valid_for(byte_len as nat),
    {
        if self.bytes_per_pixel < 1 || self.bytes_per_pixel > 4 {
            return false;
        }
        if self.width > self.stride {
            return false;
        }
        if self.width <= BORDER_PADDING + CHAR_RASTER_WIDTH {
            return false;
        }
        if self.height <= BORDER_PADDING + CHAR_RASTER_HEIGHT + BORDER_PADDING {
            return false;
        }
        match self.described_len() {
            None => false,
            Some(bytes) => bytes == byte_len,
        }
    }
}

/// Allows logging text to a pixel-based framebuffer.
pub struct FrameBufferWriter {
    framebuffer: &'static mut [u8],
    info: FrameBufferInfo,
    x_pos: usize,
    y_pos: usize,
}

impl View for FrameBufferWriter {
    type V = ConsoleState;

    closed spec fn view(&self) -> ConsoleState {
        ConsoleState {
            buffer: self.framebuffer@,
            info: self.info,
            x: self.x_pos as int,
            y: self.y_pos as int,
        }
    }
}

impl FrameBufferWriter {
    #[verifier::type_invariant]
    pub(crate) open spec fn inv(&self) -> bool {
        self@.wf()
    }

    /// Creates a new logger that uses the given framebuffer, where `info`
    /// describes it; the buffer is erased. Refuses a layout that does not fit
    /// the buffer.
    pub fn new(framebuffer: &'static mut [u8], info: FrameBufferInfo) -> (logger: Option<Self>)
        ensures
            logger is Some <==> info.valid_for(old(framebuffer)@.len()),
            logger matches Some(w) ==> w@ == ConsoleState::blank(info, old(framebuffer)@.len())
                && w@.wf(),
    {
        if !info.fits(framebuffer.len()) {
            return None;
        }
        let mut logger = Self { framebuffer, info, x_pos: BORDER_PADDING, y_pos: BORDER_PADDING };
        logger.clear();
        Some(logger)
    }

    fn newline(&mut self)
        requires
            old(self)@.y + line_height() <= usize::MAX,
        ensures
            final(self)@ == old(self)@.newline(),
    {
        self.carriage_return();
        proof {
            use_type_invariant(&*self);
        }
        self.y_pos += CHAR_RASTER_HEIGHT + LINE_SPACING;
    }

    fn carriage_return(&mut self)
        ensures
            final(self)@ == old(self)@.carriage_return(),
    {
        proof {
            use_type_invariant(&*self);
        }
        self.x_pos = BORDER_PADDING;
    }

    /// Erases all text on the screen and moves the cursor to the top left.
    pub fn clear(&mut self)
        ensures
            final(self)@ == old(self)@.cleared(),
            final(self)@.wf(),
    {
        proof {
            use_type_invariant(&*self);
        }
        self.x_pos = BORDER_PADDING;
        self.y_pos = BORDER_PADDING;
        let len = self.framebuffer.len();
        let mut i: usize = 0;
        while i < len
            invariant
                i <= len,
                len == self.framebuffer@.len(),
                self.info == old(self).info,
                self.info.valid_for(len as nat),
                self.x_pos == BORDER_PADDING,
                self.y_pos == BORDER_PADDING,
                forall|k: int| 0 <= k < i ==> self.framebuffer@[k] == 0,
            decreases len - i,
        {
            self.framebuffer[i] = 0;
            i += 1;
        }
        assert(self.framebuffer@ =~= zeroed(len as nat));
    }

    /// The layout that the logger was made with, but for the pixel format
    /// where a write has replaced an unsupported one.
    pub fn info(&self) -> (info: FrameBufferInfo)
        ensures
            info == self@.info,
            self@.wf(),
    {
        proof {
            use_type_invariant(self);
        }
        self.info
    }

    /// The cursor: the pixel at which the next glyph's top left corner goes.
    pub fn cursor(&self) -> (pos: (usize, usize))
        ensures
            pos.0 == self@.x,
            pos.1 == self@.y,
    {
        (self.x_pos, self.y_pos)
    }

    /// The bytes of the framebuffer as they stand.
    pub fn buffer(&self) -> (bytes: &[u8])
        ensures
            bytes@ == self@.buffer,
    {
        &*self.framebuffer
    }

    fn width(&self) -> (w: usize)
        ensures
            w == self@.info.width,
    {
        self.info.width
    }

    fn height(&self) -> (h: usize)
        ensures
            h == self@.info.height,
    {
        self.info.height
    }

    /// Writes a single char to the framebuffer, in white. Takes care of
    /// special control characters, such as newlines and carriage returns.
    pub fn write_char(&mut self, c: char) -> (r: Result<(), WriteError>)
        requires
            c == '\n' ==> old(self)@.y + line_height() <= usize::MAX,
        ensures
            final(self)@ == old(self)@.put_char(c, white()).0,
            r is Ok == old(self)@.put_char(c, white()).1,
            final(self)@.wf(),
    {
        proof {
            use_type_invariant(&*self);
            lemma_cursor_sums_fit(self.info, self.framebuffer@.len());
        }
        match c {
            '\n' => {
                self.newline();
                proof {
                    use_type_invariant(&*self);
                }
                Ok(())
            },
            '\r' => {
                self.carriage_return();
                proof {
                    use_type_invariant(&*self);
                }
                Ok(())
            },
            c => {
                let new_xpos: usize = self.x_pos + CHAR_RASTER_WIDTH;
                if new_xpos >= self.width() {
                    self.newline();
                }
                proof {
                    use_type_invariant(&*self);
                }
                // The cursor may be any number of lines below the console,
                // so its line is held against the height without a sum.
                if self.y_pos >= self.height() - (CHAR_RASTER_HEIGHT + BORDER_PADDING) {
                    self.clear();
                }
                self.write_rendered_char(get_char_raster(c))
            },
        }
    }

    /// Writes a single char to the framebuffer, in the given colour. Takes
    /// care of special control characters, such as newlines and carriage
    /// returns.
    pub fn write_char_color_rgb(&mut self, c: char, color: [u8; 3]) -> (r: Result<
        (),
        WriteError,
    >)
        requires
            c == '\n' ==> old(self)@.y + line_height() <= usize::MAX,
        ensures
            final(self)@ == old(self)@.put_char(c, color).0,
            r is Ok == old(self)@.put_char(c, color).1,
            final(self)@.wf(),
    {
        proof {
            use_type_invariant(&*self);
            lemma_cursor_sums_fit(self.info, self.framebuffer@.len());
        }
        match c {
            '\n' => {
                self.newline();
                proof {
                    use_type_invariant(&*self);
                }
                Ok(())
            },
            '\r' => {
                self.carriage_return();
                proof {
                    use_type_invariant(&*self);
                }
                Ok(())
            },
            c => {
                let new_xpos: usize = self.x_pos + CHAR_RASTER_WIDTH;
                if new_xpos >= self.width() {
                    self.newline();
                }
                proof {
                    use_type_invariant(&*self);
                }
                // The cursor may be any number of lines below the console,
                // so its line is held against the height without a sum.
                if self.y_pos >= self.height() - (CHAR_RASTER_HEIGHT + BORDER_PADDING) {
                    self.clear();
                }
                self.write_rendered_char_color_rgb(get_char_raster(c), color)
            },
        }
    }

    /// Writes the chars of `s` to the framebuffer in white, one after the
    /// other, and stops at the first that fails.
    pub fn write_str(&mut self, s: &str) -> (r: Result<(), WriteError>)
        requires
            old(self)@.can_take(s@),
        ensures
            final(self)@ == old(self)@.put_str(s@, white()).0,
            r is Ok == old(self)@.put_str(s@, white()).1,
            final(self)@.wf(),
    {
        proof {
            use_type_invariant(&*self);
            assert(s@.skip(0) =~= s@);
        }
        for c in it: s.chars()
            invariant
                it.seq() == s@,
                self@.wf(),
                self@.can_take(s@.skip(it.index() as int)),
                old(self)@.put_str(s@, white()) == self@.put_str(
                    s@.skip(it.index() as int),
                    white(),
                ),
        {
            proof {
                assert(s@.skip(it.index() as int).drop_first() =~= s@.skip(it.index() + 1));
                lemma_can_take_first(self@, s@.skip(it.index() as int), white());
            }
            match self.write_char(c) {
                Ok(()) => {},
                Err(e) => {
                    return Err(e);
                },
            }
        }
        Ok(())
    }

    /// How many line feeds the cursor can take before its line is no longer
    /// a `usize`.
    pub fn line_feeds_left(&self) -> (left: usize)
        ensures
            forall|n: nat| self@.has_lines(n) <==> n <= left,
    {
        let reach: usize = if self.y_pos > self.info.height {
            self.y_pos
        } else {
            self.info.height
        };
        let left: usize = (usize::MAX - reach) / (CHAR_RASTER_HEIGHT + LINE_SPACING);
        proof {
            lemma_fundamental_div_mod((usize::MAX - reach) as int, 18);
            assert forall|n: nat| self@.has_lines(n) <==> n <= left by {
                if n <= left {
                    assert(18 * n <= 18 * left) by (nonlinear_arith)
                        requires
                            n <= left,
                    ;
                } else {
                    assert(18 * n >= 18 * (left + 1)) by (nonlinear_arith)
                        requires
                            n >= left + 1,
                    ;
                }
            }
        }
        left
    }

    /// Tests whether the console can take `text`: whether the text has no
    /// more line feeds than the cursor can go lines down.
    pub fn can_take(&self, text: &str) -> (ok: bool)
        ensures
            ok == self@.can_take(text@),
    {
        let left = self.line_feeds_left();
        count_line_feeds(text, 0, left).is_some()
    }

    /// Prints a rendered char into the framebuffer at the cursor, in white,
    /// and moves the cursor past it.
    pub fn write_rendered_char(&mut self, rendered_char: GlyphBitmap) -> (r: Result<
        (),
        WriteError,
    >)
        requires
            old(self)@.has_room(),
        ensures
            final(self)@ == old(self)@.render(rendered_char@, white()).0,
            r is Ok == old(self)@.render(rendered_char@, white()).1,
            final(self)@.wf(),
    {
        self.write_rendered_char_color_rgb(rendered_char, [255, 255, 255])
    }

    /// Prints a rendered char into the framebuffer at the cursor, in the given
    /// colour, and moves the cursor past it.
    pub fn write_rendered_char_color_rgb(
        &mut self,
        rendered_char: GlyphBitmap,
        color: [u8; 3],
    ) -> (r: Result<(), WriteError>)
        requires
            old(self)@.has_room(),
        ensures
            final(self)@ == old(self)@.render(rendered_char@, color).0,
            r is Ok == old(self)@.render(rendered_char@, color).1,
            final(self)@.wf(),
    {
        proof {
            use_type_invariant(&*self);
            lemma_blit_glyph_ends(
                self@.buffer,
                self@.info,
                self@.x,
                self@.y,
                rendered_char@,
                color,
            );
        }
        let mut y: usize = 0;
        while y < CHAR_RASTER_HEIGHT
            invariant
                y <= CHAR_RASTER_HEIGHT,
                old(self)@.wf(),
                old(self)@.has_room(),
                self.x_pos == old(self).x_pos,
                self.y_pos == old(self).y_pos,
                self.info == old(self).info,
                y > 0 ==> !(self.info.pixel_format is Unknown),
                self.framebuffer@ == blit_glyph_upto(
                    old(self)@.buffer,
                    old(self)@.info,
                    old(self)@.x,
                    old(self)@.y,
                    rendered_char@,
                    color,
                    y * CHAR_RASTER_WIDTH,
                ),
            decreases CHAR_RASTER_HEIGHT - y,
        {
            let mut x: usize = 0;
            while x < CHAR_RASTER_WIDTH
                invariant
                    x <= CHAR_RASTER_WIDTH,
                    y < CHAR_RASTER_HEIGHT,
                    old(self)@.wf(),
                    old(self)@.has_room(),
                    self.x_pos == old(self).x_pos,
                    self.y_pos == old(self).y_pos,
                    self.info == old(self).info,
                    y > 0 || x > 0 ==> !(self.info.pixel_format is Unknown),
                    self.framebuffer@ == blit_glyph_upto(
                        old(self)@.buffer,
                        old(self)@.info,
                        old(self)@.x,
                        old(self)@.y,
                        rendered_char@,
                        color,
                        y * CHAR_RASTER_WIDTH + x,
                    ),
                decreases CHAR_RASTER_WIDTH - x,
            {
                let intensity = rendered_char.intensity(y, x);
                proof {
                    lemma_blit_glyph_step(
                        old(self)@.buffer,
                        old(self)@.info,
                        old(self)@.x,
                        old(self)@.y,
                        rendered_char@,
                        color,
                        y as int,
                        x as int,
                    );
                }
                let drawn = self.write_pixel_color_rgb(
                    self.x_pos + x,
                    self.y_pos + y,
                    intensity,
                    color,
                );
                match drawn {
                    Ok(()) => {},
                    Err(e) => {
                        proof {
                            lemma_blit_glyph_ends(
                                old(self)@.buffer,
                                old(self)@.info,
                                old(self)@.x,
                                old(self)@.y,
                                rendered_char@,
                                color,
                            );
                        }
                        return Err(e);
                    },
                }
                x += 1;
            }
            y += 1;
        }
        self.x_pos += rendered_char.width() + LETTER_SPACING;
        Ok(())
    }

    /// One colour at the given intensity: each channel times the intensity,
    /// divided by 255.
    pub fn get_scaled_color(color: [u8; 3], intensity: u8) -> (scaled: [u8; 3])
        ensures
            forall|i: int|
                0 <= i < 3 ==> #[trigger] scaled[i] == scale_channel(color[i], intensity),
    {
        let mut scaled_colors = [0u8; 3];
        let mut i: usize = 0;
        while i < 3
            invariant
                i <= 3,
                forall|k: int|
                    0 <= k < i ==> #[trigger] scaled_colors[k] == scale_channel(color[k], intensity),
            decreases 3 - i,
        {
            let channel: u16 = color[i] as u16;
            let level: u16 = intensity as u16;
            assert(channel * level <= 255 * 255) by (nonlinear_arith)
                requires
                    channel <= 255,
                    level <= 255,
            ;
            let scaled_color: u16 = channel * level;
            let scaled_color: u16 = scaled_color / 255;
            scaled_colors[i] = scaled_color as u8;
            i += 1;
        }
        scaled_colors
    }

    /// Sets the pixel at `x`, `y` to white at the given intensity.
    pub fn write_pixel(&mut self, x: usize, y: usize, intensity: u8) -> (r: Result<
        (),
        WriteError,
    >)
        requires
            x < old(self)@.info.stride,
            y < old(self)@.info.height,
        ensures
            final(self)@ == old(self)@.draw_pixel(x as int, y as int, intensity, white()).0,
            r is Ok == old(self)@.draw_pixel(x as int, y as int, intensity, white()).1,
            old(self)@.pixel_drawn(final(self)@, x as int, y as int, intensity, white()),
    {
        self.write_pixel_color_rgb(x, y, intensity, [255, 255, 255])
    }

    /// Sets the pixel at `x`, `y` to `color` at the given intensity: its
    /// bytes are written at `(y * stride + x) * bytes_per_pixel`, in the
    /// order of the pixel format, and read back.
    pub fn write_pixel_color_rgb(
        &mut self,
        x: usize,
        y: usize,
        intensity: u8,
        color: [u8; 3],
    ) -> (r: Result<(), WriteError>)
        requires
            x < old(self)@.info.stride,
            y < old(self)@.info.height,
        ensures
            final(self)@ == old(self)@.draw_pixel(x as int, y as int, intensity, color).0,
            r is Ok == old(self)@.draw_pixel(x as int, y as int, intensity, color).1,
            old(self)@.pixel_drawn(final(self)@, x as int, y as int, intensity, color),
    {
        proof {
            use_type_invariant(&*self);
            lemma_pixel_in_buffer(self.info, self.framebuffer@.len(), x as int, y as int);
        }
        let pixel_offset: usize = y * self.info.stride + x;
        let scaled = Self::get_scaled_color(color, intensity);
        let bytes: [u8; 4] = match self.info.pixel_format {
            PixelFormat::Rgb => [scaled[0], scaled[1], scaled[2], 0],
            PixelFormat::Bgr => [scaled[2], scaled[1], scaled[0], 0],
            PixelFormat::U8 => [
                if intensity > 200 {
                    0xf
                } else {
                    0
                },
                0,
                0,
                0,
            ],
            PixelFormat::Unknown => {
                // A supported format is set before the failure is reported, so
                // that whatever is printed about it can still be drawn.
                self.info.pixel_format = PixelFormat::Rgb;
                return Err(WriteError::UnsupportedPixelFormat);
            },
        };
        assert(bytes@ =~= pixel_bytes(self.info.pixel_format, color, intensity)->Some_0);
        let bytes_per_pixel: usize = self.info.bytes_per_pixel;
        let byte_offset: usize = pixel_offset * bytes_per_pixel;
        let mut k: usize = 0;
        while k < bytes_per_pixel
            invariant
                k <= bytes_per_pixel,
                bytes_per_pixel == self.info.bytes_per_pixel,
                byte_offset == self.info.byte_offset(x as int, y as int),
                byte_offset + bytes_per_pixel <= self.framebuffer@.len(),
                bytes_per_pixel <= 4,
                self.info == old(self).info,
                self.x_pos == old(self).x_pos,
                self.y_pos == old(self).y_pos,
                old(self)@.wf(),
                self.framebuffer@.len() == old(self)@.buffer.len(),
                forall|i: int|
                    0 <= i < self.framebuffer@.len() ==> self.framebuffer@[i] == (if byte_offset
                        <= i < byte_offset + k {
                        bytes@[i - byte_offset]
                    } else {
                        old(self)@.buffer[i]
                    }),
            decreases bytes_per_pixel - k,
        {
            self.framebuffer[byte_offset + k] = bytes[k];
            k += 1;
        }
        assert(self.framebuffer@ =~= blit_pixel(
            old(self)@.buffer,
            old(self)@.info,
            x as int,
            y as int,
            bytes@,
        ));
        // The buffer may be the screen's own memory: the read makes sure that
        // the write before it is carried out.
        read_back(self.framebuffer, byte_offset);
        Ok(())
    }
}

/// Reads the byte at index `at` back from the buffer with a volatile load,
/// and drops it.
///
/// Calls `volatile::Volatile::new` on a reference to the byte, and `read` on
/// what it returns. Nothing is claimed of the call but that it returns where
/// the index is inside the buffer: it borrows the buffer unchanged.
#[verifier::external_body]
fn read_back(bytes: &[u8], at: usize)
    requires
        at < bytes@.len(),
{
    let _ = Volatile::new(&bytes[at]).read();
}

/// The state of a logger that may not have been set up yet.
pub open spec fn logger_view(logger: Option<FrameBufferWriter>) -> Option<ConsoleState> {
    match logger {
        Some(writer) => Some(writer@),
        None => None,
    }
}

/// Sets the logger up on the framebuffer that `info` describes: on the bytes
/// of `framebuffer` that the layout covers, erased, where the buffer is at
/// least that long and the layout is one of a console. Any other buffer
/// leaves the kernel without a logger.
pub fn init_print(
    logger: &mut Option<FrameBufferWriter>,
    framebuffer: &'static mut [u8],
    info: FrameBufferInfo,
)
    ensures
        logger_view(*final(logger)) == if info.byte_len() <= old(framebuffer)@.len()
            && info.valid_for(info.byte_len()) {
            Some(ConsoleState::blank(info, info.byte_len()))
        } else {
            None
        },
{
    let total = framebuffer.len();
    *logger = match info.described_len() {
        None => None,
        Some(len) => {
            if len <= total {
                let (covered, _) = framebuffer.split_at_mut(len);
                FrameBufferWriter::new(covered, info)
            } else {
                None
            }
        },
    };
}

/// Counts the line feeds of `text` on top of the `seen` ones, as long as
/// there are no more than `left` in all.
pub(crate) fn count_line_feeds(text: &str, seen: usize, left: usize) -> (all: Option<usize>)
    requires
        seen <= left,
    ensures
        all is Some <==> seen + line_feeds(text@) <= left,
        all matches Some(n) ==> n == seen + line_feeds(text@),
{
    let mut count: usize = seen;
    proof {
        assert(text@.skip(0) =~= text@);
    }
    for c in it: text.chars()
        invariant
            it.seq() == text@,
            count <= left,
            count + line_feeds(text@.skip(it.index() as int)) == seen + line_feeds(text@),
    {
        proof {
            assert(text@.skip(it.index() as int).drop_first() =~= text@.skip(it.index() + 1));
        }
        if c == '\n' {
            if count == left {
                return None;
            }
            count += 1;
        }
    }
    Some(count)
}

/// Prints `text` in white to the logger, if one has been set up; without one
/// the call does nothing and succeeds.
pub fn _print(logger: &mut Option<FrameBufferWriter>, text: &str) -> (r: Result<(), WriteError>)
    requires
        can_print(logger_view(*old(logger)), text@),
    ensures
        logger_view(*final(logger)) == print_to(logger_view(*old(logger)), text@, white()).0,
        r is Ok == print_to(logger_view(*old(logger)), text@, white()).1,
{
    match logger {
        Some(writer) => writer.write_str(text),
        None => Ok(()),
    }
}

/// Prints `text` in the given colour to the logger, if one has been set up;
/// without one the call does nothing and succeeds.
pub fn _print_color_rgb(logger: &mut Option<FrameBufferWriter>, text: &str, color: [u8; 3]) -> (r:
    Result<(), WriteError>)
    requires
        can_print(logger_view(*old(logger)), text@),
    ensures
        logger_view(*final(logger)) == print_to(logger_view(*old(logger)), text@, color).0,
        r is Ok == print_to(logger_view(*old(logger)), text@, color).1,
{
    if let Some(writer) = logger {
        proof {
            use_type_invariant(&*writer);
            assert(text@.skip(0) =~= text@);
        }
        let ghost before = writer@;
        for c in it: text.chars()
            invariant
                it.seq() == text@,
                writer@.wf(),
                writer@.can_take(text@.skip(it.index() as int)),
                logger_view(*old(logger)) == Some(before),
                after_borrow(*logger) == Some(*final(writer)),
                before.put_str(text@, color) == writer@.put_str(
                    text@.skip(it.index() as int),
                    color,
                ),
        {
            proof {
                assert(text@.skip(it.index() as int).drop_first() =~= text@.skip(
                    it.index() + 1,
                ));
                lemma_can_take_first(writer@, text@.skip(it.index() as int), color);
            }
            match writer.write_char_color_rgb(c, color) {
                Ok(()) => {},
                Err(e) => {
                    return Err(e);
                },
            }
        }
    }
    Ok(())
}

/// Tests whether the logger, if one has been set up, can take `text`.
pub fn can_print_to(logger: &Option<FrameBufferWriter>, text: &str) -> (ok: bool)
    ensures
        ok == can_print(logger_view(*logger), text@),
{
    match logger {
        Some(writer) => writer.can_take(text),
        None => true,
    }
}

} // verus!
