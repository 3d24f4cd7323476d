//! The console as mathematics: what a pixel's bytes are, what the buffer holds
//! after a glyph is drawn, and where the cursor goes for each character.
use crate::font::{glyph_of, CHAR_RASTER_HEIGHT, CHAR_RASTER_WIDTH};
use vstd::prelude::*;

verus! {

/// Additional vertical space between lines.
pub const LINE_SPACING: usize = 2;

/// Additional horizontal space between characters.
pub const LETTER_SPACING: usize = 0;

/// Padding from the border, so that text does not touch the edge.
pub const BORDER_PADDING: usize = 1;

/// The order in which a pixel's colour channels lie in the buffer.
#[derive(Clone, Copy, Debug, PartialEq, Eq)]
pub enum PixelFormat {
    /// One byte red, then one byte green, then one byte blue.
    Rgb,
    /// One byte blue, then one byte green, then one byte red.
    Bgr,
    /// A single byte, on or off.
    U8,
    /// Any layout the console cannot draw in.
    Unknown,
}

/// Layout of a framebuffer: its size in pixels and how pixels lie in memory.
#[derive(Clone, Copy, Debug, PartialEq, Eq)]
pub struct FrameBufferInfo {
    /// The width in pixels.
    pub width: usize,
    /// The height in pixels.
    pub height: usize,
    /// The colour format of each pixel.
    pub pixel_format: PixelFormat,
    /// The number of bytes per pixel.
    pub bytes_per_pixel: usize,
    /// Number of pixels between the start of a line and the start of the next.
    pub stride: usize,
}

/// The failure of a write: the buffer's pixel format is one the console cannot
/// draw in. It is not recoverable; the caller is expected to abort.
#[derive(Clone, Copy, Debug, PartialEq, Eq)]
pub enum WriteError {
    /// The pixel format was `PixelFormat::Unknown` when a pixel was due.
    UnsupportedPixelFormat,
}

/// Distance in pixels from the top of one line of text to the top of the next.
pub open spec fn line_height() -> int {
    CHAR_RASTER_HEIGHT + LINE_SPACING
}

/// Distance in pixels from the left edge of one glyph to that of the next.
pub open spec fn glyph_advance() -> int {
    CHAR_RASTER_WIDTH + LETTER_SPACING
}

/// The colour that leaves a glyph's intensities as they are.
pub open spec fn white() -> [u8; 3] {
    [255u8, 255u8, 255u8]
}

/// One colour channel at the given intensity: `channel * intensity / 255`,
/// rounded down.
pub open spec fn scale_channel(channel: u8, intensity: u8) -> u8 {
    ((channel as int * intensity as int) / 255) as u8
}

/// The four bytes that stand for one pixel of `color` at `intensity`, of which
/// the buffer takes the first `bytes_per_pixel`. `None` for a format the
/// console cannot draw in.
pub open spec fn pixel_bytes(format: PixelFormat, color: [u8; 3], intensity: u8) -> Option<
    Seq<u8>,
> {
    let r = scale_channel(color[0], intensity);
    let g = scale_channel(color[1], intensity);
    let b = scale_channel(color[2], intensity);
    match format {
        PixelFormat::Rgb => Some(seq![r, g, b, 0u8]),
        PixelFormat::Bgr => Some(seq![b, g, r, 0u8]),
        PixelFormat::U8 => Some(seq![if intensity > 200 { 0xfu8 } else { 0u8 }, 0u8, 0u8, 0u8]),
        PixelFormat::Unknown => None,
    }
}

/// A buffer of `len` zero bytes.
pub open spec fn zeroed(len: nat) -> Seq<u8> {
    Seq::new(len, |i: int| 0u8)
}

impl FrameBufferInfo {
    /// Whether a buffer of `byte_len` bytes is a console of this layout: it
    /// holds exactly `stride * height` pixels of one to four bytes each, a
    /// line is no wider than the stride, and inside the border there is room
    /// for at least one glyph. A buffer in memory is no longer than
    /// `usize::MAX`.
    pub open spec fn valid_for(&self, byte_len: nat) -> bool {
        &&& byte_len <= usize::MAX
        &&& 1 <= self.bytes_per_pixel <= 4
        &&& self.width <= self.stride
        &&& BORDER_PADDING + CHAR_RASTER_WIDTH < self.width
        &&& BORDER_PADDING + CHAR_RASTER_HEIGHT + BORDER_PADDING < self.height
        &&& self.byte_len() == byte_len
    }

    /// The number of bytes that the layout describes: `stride * height`
    /// pixels of `bytes_per_pixel` bytes each.
    pub open spec fn byte_len(&self) -> nat {
        (self.stride * self.height * self.bytes_per_pixel) as nat
    }

    /// Index in the buffer of the first byte of the pixel at `x`, `y`.
    pub open spec fn byte_offset(&self, x: int, y: int) -> int {
        (y * self.stride + x) * self.bytes_per_pixel
    }
}

/// `buffer` with the pixel at `x`, `y` overwritten by the first
/// `bytes_per_pixel` bytes of `px`.
pub open spec fn blit_pixel(buffer: Seq<u8>, info: FrameBufferInfo, x: int, y: int, px: Seq<u8>)
    -> Seq<u8> {
    let start = info.byte_offset(x, y);
    Seq::new(
        buffer.len(),
        |i: int|
            if start <= i < start + info.bytes_per_pixel {
                px[i - start]
            } else {
                buffer[i]
            },
    )
}

/// `buffer` with `glyph` drawn in `color`, its top left corner at `x`, `y`.
///
/// Byte `i` belongs to pixel `i / bytes_per_pixel`, which lies in column
/// `pixel % stride` of line `pixel / stride`. Inside the glyph's rectangle the
/// byte is that of the glyph's pixel; outside it, the byte is unchanged.
pub open spec fn blit_glyph(
    buffer: Seq<u8>,
    info: FrameBufferInfo,
    x: int,
    y: int,
    glyph: Seq<Seq<u8>>,
    color: [u8; 3],
) -> Seq<u8> {
    Seq::new(
        buffer.len(),
        |i: int|
            {
                let pixel = i / (info.bytes_per_pixel as int);
                let col = pixel % (info.stride as int) - x;
                let row = pixel / (info.stride as int) - y;
                if 0 <= row < CHAR_RASTER_HEIGHT && 0 <= col < CHAR_RASTER_WIDTH {
                    pixel_bytes(info.pixel_format, color, glyph[row][col])->Some_0[i % (
                    info.bytes_per_pixel as int)]
                } else {
                    buffer[i]
                }
            },
    )
}

/// What a console is at any moment: the bytes of its buffer, its layout, and
/// the pixel at which the next glyph's top left corner goes.
pub struct ConsoleState {
    /// The bytes of the framebuffer.
    pub buffer: Seq<u8>,
    /// The layout of the framebuffer.
    pub info: FrameBufferInfo,
    /// The cursor's column, in pixels from the left edge.
    pub x: int,
    /// The cursor's line, in pixels from the top edge.
    pub y: int,
}

impl ConsoleState {
    /// The invariant of a console: the layout fits the buffer; the cursor is
    /// right of the left border and left of the right edge, `x` in
    /// `[BORDER_PADDING, width)`, and below the top border; and a cursor that
    /// has left the left border is on a line that holds a glyph, since only a
    /// glyph moves it there. So the cursor is inside the console after every
    /// glyph. Line feeds alone can take it below the last line, and the next
    /// glyph then begins the console again.
    pub open spec fn wf(self) -> bool {
        &&& self.info.valid_for(self.buffer.len())
        &&& BORDER_PADDING <= self.x < self.info.width
        &&& BORDER_PADDING <= self.y
        &&& self.x == BORDER_PADDING || !self.at_bottom()
    }

    /// The console over a zero-filled buffer of `byte_len` bytes, cursor at
    /// the top left.
    pub open spec fn blank(info: FrameBufferInfo, byte_len: nat) -> ConsoleState {
        ConsoleState {
            buffer: zeroed(byte_len),
            info,
            x: BORDER_PADDING as int,
            y: BORDER_PADDING as int,
        }
    }

    /// Everything erased: the buffer all zero, the cursor at the top left.
    pub open spec fn cleared(self) -> ConsoleState {
        Self::blank(self.info, self.buffer.len())
    }

    /// The cursor back at the left border, on the same line.
    pub open spec fn carriage_return(self) -> ConsoleState {
        ConsoleState { x: BORDER_PADDING as int, ..self }
    }

    /// The cursor at the left border, one line further down. Nothing is drawn
    /// and nothing erased, wherever the cursor stood.
    pub open spec fn newline(self) -> ConsoleState {
        ConsoleState { x: BORDER_PADDING as int, y: self.y + line_height(), ..self }
    }

    /// How far down the cursor is or may yet come without a line feed: its
    /// own line, or the console's height where it is above that.
    pub open spec fn reach(self) -> int {
        if self.y > self.info.height {
            self.y
        } else {
            self.info.height as int
        }
    }

    /// Whether the cursor can go `n` lines down from its reach and still be
    /// a `usize`.
    pub open spec fn has_lines(self, n: nat) -> bool {
        self.reach() + line_height() * n <= usize::MAX
    }

    /// Whether `text` has no more line feeds than the cursor can go lines
    /// down.
    pub open spec fn can_take(self, text: Seq<char>) -> bool {
        self.has_lines(line_feeds(text))
    }

    /// Whether a glyph at the cursor would reach the right edge.
    pub open spec fn at_line_end(self) -> bool {
        self.x + CHAR_RASTER_WIDTH >= self.info.width
    }

    /// Whether a glyph at the cursor, with the border under it, would reach
    /// the bottom edge.
    pub open spec fn at_bottom(self) -> bool {
        self.y + CHAR_RASTER_HEIGHT + BORDER_PADDING >= self.info.height
    }

    /// The console made ready for one glyph: wrapped to the next line if the
    /// glyph would reach the right edge, then erased and begun again if it
    /// would reach the bottom.
    pub open spec fn placed(self) -> ConsoleState {
        let wrapped = if self.at_line_end() {
            self.newline()
        } else {
            self
        };
        if wrapped.at_bottom() {
            wrapped.cleared()
        } else {
            wrapped
        }
    }

    /// Whether a glyph can be drawn at the cursor as it stands: it would reach
    /// neither the right edge nor the bottom.
    pub open spec fn has_room(self) -> bool {
        !self.at_line_end() && !self.at_bottom()
    }

    /// The pixel at `x`, `y` set to `color` at `intensity`; the flag says that
    /// the write succeeded. In an unsupported pixel format nothing is drawn:
    /// the format is replaced by a supported one and the write fails.
    pub open spec fn draw_pixel(self, x: int, y: int, intensity: u8, color: [u8; 3]) -> (
        ConsoleState,
        bool,
    ) {
        match pixel_bytes(self.info.pixel_format, color, intensity) {
            Some(px) => (
                ConsoleState { buffer: blit_pixel(self.buffer, self.info, x, y, px), ..self },
                true,
            ),
            None => (self.with_fallback_format(), false),
        }
    }

    /// What a drawn pixel means for the bytes of the buffer, with `after` the
    /// console once the pixel at `x`, `y` has been set to `color` at
    /// `intensity`: the pixel's bytes lie inside the buffer, at
    /// `(y * stride + x) * bytes_per_pixel`; in a supported format they are
    /// the first `bytes_per_pixel` of the pixel's four; and no other byte has
    /// changed.
    pub open spec fn pixel_drawn(
        self,
        after: ConsoleState,
        x: int,
        y: int,
        intensity: u8,
        color: [u8; 3],
    ) -> bool {
        let start = (y * self.info.stride + x) * self.info.bytes_per_pixel;
        &&& start == self.info.byte_offset(x, y)
        &&& 0 <= start
        &&& start + self.info.bytes_per_pixel <= self.buffer.len()
        &&& after.buffer.len() == self.buffer.len()
        &&& after.x == self.x && after.y == self.y
        &&& !(self.info.pixel_format is Unknown) ==> after.info == self.info && forall|k: int|
            0 <= k < self.info.bytes_per_pixel ==> #[trigger] after.buffer[start + k]
                == pixel_bytes(self.info.pixel_format, color, intensity)->Some_0[k]
        &&& forall|i: int|
            0 <= i < self.buffer.len() && !(start <= i < start + self.info.bytes_per_pixel)
                ==> #[trigger] after.buffer[i] == self.buffer[i]
    }

    /// The console with a supported format in place of an unsupported one.
    pub open spec fn with_fallback_format(self) -> ConsoleState {
        ConsoleState {
            info: FrameBufferInfo { pixel_format: PixelFormat::Rgb, ..self.info },
            ..self
        }
    }

    /// `glyph` drawn at the cursor in `color`, and the cursor moved past it;
    /// the flag says that the write succeeded. In an unsupported pixel format
    /// nothing is drawn: the format is replaced by a supported one and the
    /// write fails.
    pub open spec fn render(self, glyph: Seq<Seq<u8>>, color: [u8; 3]) -> (ConsoleState, bool) {
        if self.info.pixel_format is Unknown {
            (self.with_fallback_format(), false)
        } else {
            (
                ConsoleState {
                    buffer: blit_glyph(self.buffer, self.info, self.x, self.y, glyph, color),
                    x: self.x + glyph_advance(),
                    ..self
                },
                true,
            )
        }
    }

    /// One character written in `color`: a line feed, a carriage return, or
    /// the character's glyph drawn at the place made ready for it.
    pub open spec fn put_char(self, c: char, color: [u8; 3]) -> (ConsoleState, bool) {
        if c == '\n' {
            (self.newline(), true)
        } else if c == '\r' {
            (self.carriage_return(), true)
        } else {
            self.placed().render(glyph_of(c), color)
        }
    }

    /// The characters of `text` written in `color`, one after the other, up to
    /// and including the first that fails.
    pub open spec fn put_str(self, text: Seq<char>, color: [u8; 3]) -> (ConsoleState, bool)
        decreases text.len(),
    {
        if text.len() == 0 {
            (self, true)
        } else {
            let (next, ok) = self.put_char(text[0], color);
            if ok {
                next.put_str(text.drop_first(), color)
            } else {
                (next, false)
            }
        }
    }
}

/// The number of line feeds in `text`.
pub open spec fn line_feeds(text: Seq<char>) -> nat
    decreases text.len(),
{
    if text.len() == 0 {
        0
    } else if text[0] == '\n' {
        1 + line_feeds(text.drop_first())
    } else {
        line_feeds(text.drop_first())
    }
}

/// What printing does to a console that may not be there yet: `text` written
/// to the console where there is one, nothing otherwise. Printing to no
/// console succeeds.
pub open spec fn print_to(console: Option<ConsoleState>, text: Seq<char>, color: [u8; 3]) -> (
    Option<ConsoleState>,
    bool,
) {
    match console {
        Some(state) => (Some(state.put_str(text, color).0), state.put_str(text, color).1),
        None => (None, true),
    }
}

/// Whether the console, if there is one, can take `text`.
pub open spec fn can_print(console: Option<ConsoleState>, text: Seq<char>) -> bool {
    match console {
        Some(state) => state.can_take(text),
        None => true,
    }
}

} // verus!
