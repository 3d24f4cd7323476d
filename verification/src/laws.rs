//! What holds of the console whatever is written to it.
use crate::font::{glyph_of, CHAR_RASTER_HEIGHT, CHAR_RASTER_WIDTH};
use crate::geometry::lemma_pixel_of_byte;
use crate::model::{
    blit_glyph, can_print, glyph_advance, line_feeds, line_height, pixel_bytes, print_to,
    scale_channel, zeroed, ConsoleState, FrameBufferInfo, PixelFormat, BORDER_PADDING,
    LINE_SPACING,
};
use vstd::arithmetic::div_mod::{lemma_fundamental_div_mod, lemma_fundamental_div_mod_converse};
use vstd::prelude::*;

verus! {

/// Whether `c` is drawn as a glyph, which every character is but the line
/// feed and the carriage return.
pub open spec fn draws_glyph(c: char) -> bool {
    c != '\n' && c != '\r'
}

/// How many glyphs can still be drawn on a line of a console `width` pixels
/// wide before the cursor at `x` wraps.
pub open spec fn glyphs_left(width: int, x: int) -> int {
    (width - 1 - x) / glyph_advance()
}

/// Where the cursor's `x` stands after `n` glyphs, on a console `width`
/// pixels wide, when it stood at `x` before: `n` advances further right while
/// they fit on the line, and otherwise as far into a line as the glyphs left
/// over from the full lines reach.
pub open spec fn wrapped_x(width: int, x: int, n: int) -> int {
    let here = glyphs_left(width, x);
    let per_line = glyphs_left(width, BORDER_PADDING as int);
    if n <= here {
        x + n * glyph_advance()
    } else {
        BORDER_PADDING + ((n - here - 1) % per_line + 1) * glyph_advance()
    }
}

/// Writing a character keeps the console's invariant.
pub proof fn lemma_put_char_keeps_wf(s: ConsoleState, c: char, color: [u8; 3])
    requires
        s.wf(),
    ensures
        s.put_char(c, color).0.wf(),
        s.put_char(c, color).0.buffer.len() == s.buffer.len(),
{
}

/// Writing a text keeps the console's invariant.
pub proof fn lemma_put_str_keeps_wf(s: ConsoleState, text: Seq<char>, color: [u8; 3])
    requires
        s.wf(),
    ensures
        s.put_str(text, color).0.wf(),
        s.put_str(text, color).0.buffer.len() == s.buffer.len(),
    decreases text.len(),
{
    if text.len() > 0 {
        lemma_put_char_keeps_wf(s, text[0], color);
        if s.put_char(text[0], color).1 {
            lemma_put_str_keeps_wf(s.put_char(text[0], color).0, text.drop_first(), color);
        }
    }
}

/// In a supported pixel format no write fails and the format stays as it is.
pub proof fn lemma_supported_format_never_fails(
    s: ConsoleState,
    text: Seq<char>,
    color: [u8; 3],
)
    requires
        !(s.info.pixel_format is Unknown),
    ensures
        s.put_str(text, color).1,
        s.put_str(text, color).0.info == s.info,
    decreases text.len(),
{
    if text.len() > 0 {
        lemma_supported_format_never_fails(s.put_char(text[0], color).0, text.drop_first(), color);
    }
}

/// Writing one text after another is writing the two as one text: the second
/// is written where the first has left the console, unless the first has
/// failed, and then the whole has failed where the first did.
pub proof fn lemma_put_str_concat(
    s: ConsoleState,
    first: Seq<char>,
    second: Seq<char>,
    color: [u8; 3],
)
    ensures
        s.put_str(first + second, color) == if s.put_str(first, color).1 {
            s.put_str(first, color).0.put_str(second, color)
        } else {
            s.put_str(first, color)
        },
    decreases first.len(),
{
    if first.len() == 0 {
        assert(first + second =~= second);
    } else {
        assert((first + second).drop_first() =~= first.drop_first() + second);
        assert((first + second)[0] == first[0]);
        lemma_put_str_concat(s.put_char(first[0], color).0, first.drop_first(), second, color);
    }
}

/// A line feed puts the cursor at the left border, one line height further
/// down, whatever its `x` was and wherever it stood, and changes nothing else:
/// nothing is drawn and nothing erased.
pub proof fn lemma_newline_moves_down(s: ConsoleState, color: [u8; 3])
    ensures
        s.put_char('\n', color) == (
            ConsoleState {
                x: BORDER_PADDING as int,
                y: s.y + CHAR_RASTER_HEIGHT + LINE_SPACING,
                ..s
            },
            true,
        ),
{
}

/// A line feed does not look at the cursor's `x`: two consoles that differ in
/// nothing else are the same after it.
pub proof fn lemma_newline_ignores_x(s: ConsoleState, x: int, color: [u8; 3])
    ensures
        s.put_char('\n', color) == (ConsoleState { x, ..s }).put_char('\n', color),
{
}

/// A carriage return puts the cursor at the left border and changes nothing
/// else.
pub proof fn lemma_carriage_return_keeps_line(s: ConsoleState, color: [u8; 3])
    ensures
        s.put_char('\r', color) == (ConsoleState { x: BORDER_PADDING as int, ..s }, true),
{
}

/// After a glyph the cursor is inside the console, on a line that holds a
/// glyph: `x` in `[BORDER_PADDING, width)` and `y` in `[BORDER_PADDING, height)`.
/// Only line feeds take it further down.
pub proof fn lemma_cursor_inside_after_glyph(s: ConsoleState, c: char, color: [u8; 3])
    requires
        s.wf(),
        draws_glyph(c),
    ensures
        BORDER_PADDING <= s.put_char(c, color).0.x < s.info.width,
        BORDER_PADDING <= s.put_char(c, color).0.y < s.info.height,
        !s.put_char(c, color).0.at_bottom(),
{
}

/// No character takes the cursor further down than a line feed does: the
/// reach grows by one line height with a line feed and not at all otherwise.
pub proof fn lemma_reach_after_char(s: ConsoleState, c: char, color: [u8; 3])
    requires
        s.wf(),
    ensures
        s.put_char(c, color).0.reach() <= s.reach() + if c == '\n' {
            line_height()
        } else {
            0
        },
        s.put_char(c, color).0.info.height == s.info.height,
{
}

/// The line feeds of two texts in a row are those of the one and those of
/// the other.
pub proof fn lemma_line_feeds_concat(first: Seq<char>, second: Seq<char>)
    ensures
        line_feeds(first + second) == line_feeds(first) + line_feeds(second),
    decreases first.len(),
{
    if first.len() == 0 {
        assert(first + second =~= second);
    } else {
        assert((first + second).drop_first() =~= first.drop_first() + second);
        assert((first + second)[0] == first[0]);
        lemma_line_feeds_concat(first.drop_first(), second);
    }
}

/// A console that can take a text can take its first character, and what is
/// left of the text after it.
pub proof fn lemma_can_take_first(s: ConsoleState, text: Seq<char>, color: [u8; 3])
    requires
        s.wf(),
        s.can_take(text),
        text.len() > 0,
    ensures
        text[0] == '\n' ==> s.y + line_height() <= usize::MAX,
        s.put_char(text[0], color).0.can_take(text.drop_first()),
{
    let rest = line_feeds(text.drop_first());
    lemma_reach_after_char(s, text[0], color);
    assert(18 * (1 + rest) == 18 + 18 * rest) by (nonlinear_arith);
    assert(0 <= 18 * rest) by (nonlinear_arith)
        requires
            0 <= rest,
    ;
}

/// A console that can take two texts in a row can take the first, and the
/// second where the first has left it.
pub proof fn lemma_can_take_concat(
    s: ConsoleState,
    first: Seq<char>,
    second: Seq<char>,
    color: [u8; 3],
)
    requires
        s.wf(),
        s.can_take(first + second),
    ensures
        s.can_take(first),
        s.put_str(first, color).0.can_take(second),
    decreases first.len(),
{
    lemma_line_feeds_concat(first, second);
    assert(18 * (line_feeds(first) + line_feeds(second)) == 18 * line_feeds(first) + 18
        * line_feeds(second)) by (nonlinear_arith);
    assert(0 <= 18 * line_feeds(first) && 0 <= 18 * line_feeds(second)) by (nonlinear_arith)
        requires
            0 <= line_feeds(first),
            0 <= line_feeds(second),
    ;
    if first.len() > 0 {
        let next = s.put_char(first[0], color).0;
        assert((first + second).drop_first() =~= first.drop_first() + second);
        assert((first + second)[0] == first[0]);
        lemma_can_take_first(s, first + second, color);
        lemma_put_char_keeps_wf(s, first[0], color);
        if s.put_char(first[0], color).1 {
            lemma_can_take_concat(next, first.drop_first(), second, color);
        } else {
            lemma_line_feeds_concat(first.drop_first(), second);
            assert(18 * (line_feeds(first.drop_first()) + line_feeds(second)) == 18 * line_feeds(
                first.drop_first(),
            ) + 18 * line_feeds(second)) by (nonlinear_arith);
            assert(0 <= 18 * line_feeds(first.drop_first())) by (nonlinear_arith)
                requires
                    0 <= line_feeds(first.drop_first()),
            ;
        }
    }
}

/// A logger that can take two texts in a row can take the first, and the
/// second once the first is printed, with a console and without one.
pub proof fn lemma_can_print_concat(
    console: Option<ConsoleState>,
    first: Seq<char>,
    second: Seq<char>,
    color: [u8; 3],
)
    requires
        console matches Some(s) ==> s.wf(),
        can_print(console, first + second),
    ensures
        can_print(console, first),
        can_print(print_to(console, first, color).0, second),
        print_to(console, first, color).0 matches Some(s) ==> s.wf(),
{
    if let Some(state) = console {
        lemma_can_take_concat(state, first, second, color);
        lemma_put_str_keeps_wf(state, first, color);
    }
}

/// Printing one text after another is printing the two as one text, with a
/// console and without one.
pub proof fn lemma_print_concat(
    console: Option<ConsoleState>,
    first: Seq<char>,
    second: Seq<char>,
    color: [u8; 3],
)
    ensures
        print_to(console, first + second, color) == if print_to(console, first, color).1 {
            print_to(print_to(console, first, color).0, second, color)
        } else {
            print_to(console, first, color)
        },
{
    if let Some(state) = console {
        lemma_put_str_concat(state, first, second, color);
    }
}

/// How many lines below the cursor's can hold a glyph.
pub open spec fn lines_below(s: ConsoleState) -> int {
    (s.info.height - CHAR_RASTER_HEIGHT - BORDER_PADDING - 1 - s.y) / line_height()
}

/// How many glyphs can be drawn before the console is erased: those that
/// still fit on the cursor's line and those of the full lines below it, or
/// none where the cursor's line itself is too low for a glyph.
pub open spec fn room(s: ConsoleState) -> int {
    if s.at_bottom() {
        0
    } else {
        glyphs_left(s.info.width as int, s.x) + glyphs_left(
            s.info.width as int,
            BORDER_PADDING as int,
        ) * lines_below(s)
    }
}

/// While there is room, a glyph erases nothing: it is drawn over what the
/// buffer holds, at the cursor or, where the line is full, at the start of
/// the next line, and it takes up the room of one glyph.
pub proof fn lemma_glyph_with_room(s: ConsoleState, c: char, color: [u8; 3])
    requires
        s.wf(),
        draws_glyph(c),
        !(s.info.pixel_format is Unknown),
        room(s) > 0,
    ensures
        s.placed() == if s.at_line_end() {
            ConsoleState { x: BORDER_PADDING as int, y: s.y + line_height(), ..s }
        } else {
            s
        },
        s.put_char(c, color) == (
            ConsoleState {
                buffer: blit_glyph(
                    s.buffer,
                    s.info,
                    s.placed().x,
                    s.placed().y,
                    glyph_of(c),
                    color,
                ),
                x: s.placed().x + glyph_advance(),
                ..s.placed()
            },
            true,
        ),
        room(s.put_char(c, color).0) == room(s) - 1,
{
    let width = s.info.width as int;
    let height = s.info.height as int;
    let per_line = glyphs_left(width, BORDER_PADDING as int);
    let below = lines_below(s);
    lemma_fundamental_div_mod(width - 1 - s.x, 9);
    lemma_fundamental_div_mod(width - 2, 9);
    lemma_fundamental_div_mod(height - 18 - s.y, 18);
    assert(per_line >= 1);
    if s.at_line_end() {
        assert(glyphs_left(width, s.x) == 0);
        assert(below >= 1) by (nonlinear_arith)
            requires
                per_line * below > 0,
                per_line >= 1,
        ;
        let down = ConsoleState { x: BORDER_PADDING as int, y: s.y + line_height(), ..s };
        assert(s.newline() == down);
        lemma_fundamental_div_mod_converse(
            height - 18 - down.y,
            18,
            below - 1,
            (height - 18 - s.y) % 18,
        );
        assert(lines_below(down) == below - 1);
        assert(!down.at_bottom());
        lemma_fundamental_div_mod_converse(width - 1 - 10, 9, per_line - 1, (width - 2) % 9);
        assert(per_line - 1 + per_line * (below - 1) == per_line * below - 1)
            by (nonlinear_arith);
    } else {
        lemma_fundamental_div_mod_converse(
            width - 1 - (s.x + 9),
            9,
            glyphs_left(width, s.x) - 1,
            (width - 1 - s.x) % 9,
        );
    }
}

/// Where there is no room, a glyph erases the console: it is drawn on a
/// buffer of zeros at the top left, and the next one goes beside it.
pub proof fn lemma_glyph_without_room(s: ConsoleState, c: char, color: [u8; 3])
    requires
        s.wf(),
        draws_glyph(c),
        !(s.info.pixel_format is Unknown),
        room(s) == 0,
    ensures
        s.placed() == s.cleared(),
        s.put_char(c, color) == (
            ConsoleState {
                buffer: blit_glyph(
                    zeroed(s.buffer.len()),
                    s.info,
                    BORDER_PADDING as int,
                    BORDER_PADDING as int,
                    glyph_of(c),
                    color,
                ),
                info: s.info,
                x: BORDER_PADDING + glyph_advance(),
                y: BORDER_PADDING as int,
            },
            true,
        ),
{
    let width = s.info.width as int;
    let height = s.info.height as int;
    let per_line = glyphs_left(width, BORDER_PADDING as int);
    let below = lines_below(s);
    lemma_fundamental_div_mod(width - 1 - s.x, 9);
    lemma_fundamental_div_mod(width - 2, 9);
    if !s.at_bottom() {
        lemma_fundamental_div_mod(height - 18 - s.y, 18);
        assert(per_line >= 1);
        assert(glyphs_left(width, s.x) >= 0);
        assert(below >= 0);
        assert(glyphs_left(width, s.x) == 0 && below == 0) by (nonlinear_arith)
            requires
                glyphs_left(width, s.x) + per_line * below == 0,
                glyphs_left(width, s.x) >= 0,
                below >= 0,
                per_line >= 1,
        ;
        assert(s.at_line_end());
    }
}

/// A text without control characters that is no longer than there is room
/// takes up the room of one glyph for each of its characters.
pub proof fn lemma_glyphs_take_up_room(s: ConsoleState, text: Seq<char>, color: [u8; 3])
    requires
        s.wf(),
        !(s.info.pixel_format is Unknown),
        forall|i: int| 0 <= i < text.len() ==> draws_glyph(#[trigger] text[i]),
        text.len() <= room(s),
    ensures
        s.put_str(text, color).1,
        s.put_str(text, color).0.wf(),
        s.put_str(text, color).0.info == s.info,
        room(s.put_str(text, color).0) == room(s) - text.len(),
    decreases text.len(),
{
    if text.len() > 0 {
        let next = s.put_char(text[0], color).0;
        let rest = text.drop_first();
        lemma_put_char_keeps_wf(s, text[0], color);
        lemma_glyph_with_room(s, text[0], color);
        assert forall|i: int| 0 <= i < rest.len() implies draws_glyph(#[trigger] rest[i]) by {
            assert(rest[i] == text[i + 1]);
        }
        lemma_glyphs_take_up_room(next, rest, color);
    }
}

/// Enough glyphs erase the console: after as many as there is room for, the
/// next one is drawn alone on a buffer of zeros at the top left.
pub proof fn lemma_enough_glyphs_restart(
    s: ConsoleState,
    text: Seq<char>,
    c: char,
    color: [u8; 3],
)
    requires
        s.wf(),
        !(s.info.pixel_format is Unknown),
        forall|i: int| 0 <= i < text.len() ==> draws_glyph(#[trigger] text[i]),
        draws_glyph(c),
        text.len() == room(s),
    ensures
        s.put_str(text.push(c), color) == (
            ConsoleState {
                buffer: blit_glyph(
                    zeroed(s.buffer.len()),
                    s.info,
                    BORDER_PADDING as int,
                    BORDER_PADDING as int,
                    glyph_of(c),
                    color,
                ),
                info: s.info,
                x: BORDER_PADDING + glyph_advance(),
                y: BORDER_PADDING as int,
            },
            true,
        ),
{
    let full = s.put_str(text, color).0;
    let last = seq![c];
    lemma_glyphs_take_up_room(s, text, color);
    lemma_put_str_keeps_wf(s, text, color);
    lemma_put_str_concat(s, text, last, color);
    assert(text.push(c) =~= text + last);
    lemma_glyph_without_room(full, c, color);
    assert(full.put_str(last, color) == full.put_char(c, color)) by {
        reveal_with_fuel(ConsoleState::put_str, 2);
        assert(last.drop_first() =~= Seq::<char>::empty());
    }
}

/// One glyph moves the cursor's `x` one advance to the right, or to one
/// advance from the left border where it had to wrap.
pub proof fn lemma_cursor_x_after_glyph(s: ConsoleState, c: char, color: [u8; 3])
    requires
        s.wf(),
        draws_glyph(c),
        !(s.info.pixel_format is Unknown),
    ensures
        s.put_char(c, color).0.x == wrapped_x(s.info.width as int, s.x, 1),
        s.put_char(c, color).0.x == if s.at_line_end() {
            BORDER_PADDING + glyph_advance()
        } else {
            s.x + glyph_advance()
        },
{
    let width = s.info.width as int;
    let here = glyphs_left(width, s.x);
    let per_line = glyphs_left(width, BORDER_PADDING as int);
    lemma_fundamental_div_mod(width - 1 - s.x, 9);
    lemma_fundamental_div_mod(width - 2, 9);
    if s.at_line_end() {
        assert(here == 0);
        assert(per_line >= 1);
        assert(0int % per_line == 0) by {
            lemma_fundamental_div_mod_converse(0, per_line, 0, 0);
        }
    } else {
        assert(here >= 1);
    }
}

/// Going one glyph further and then `n` more is going `n + 1` glyphs.
proof fn lemma_wrapped_x_step(width: int, x: int, n: int)
    requires
        BORDER_PADDING + glyph_advance() < width,
        BORDER_PADDING <= x < width,
        0 <= n,
    ensures
        wrapped_x(width, wrapped_x(width, x, 1), n) == wrapped_x(width, x, n + 1),
        BORDER_PADDING <= wrapped_x(width, x, 1) < width,
{
    let here = glyphs_left(width, x);
    let per_line = glyphs_left(width, BORDER_PADDING as int);
    lemma_fundamental_div_mod(width - 1 - x, 9);
    lemma_fundamental_div_mod(width - 2, 9);
    assert(per_line >= 1);
    assert(0int % per_line == 0) by {
        lemma_fundamental_div_mod_converse(0, per_line, 0, 0);
    }
    if here >= 1 {
        let next = x + 9;
        assert(wrapped_x(width, x, 1) == next);
        lemma_fundamental_div_mod_converse(width - 1 - next, 9, here - 1, (width - 1 - x) % 9);
        assert(glyphs_left(width, next) == here - 1);
        if n + 1 <= here {
            assert(n * 9 + 9 == (n + 1) * 9);
        }
    } else {
        let next = 10int;
        assert(wrapped_x(width, x, 1) == next);
        lemma_fundamental_div_mod_converse(width - 1 - next, 9, per_line - 1, (width - 2) % 9);
        assert(glyphs_left(width, next) == per_line - 1);
        if n <= per_line - 1 {
            lemma_fundamental_div_mod_converse(n, per_line, 0, n);
            assert((n + 1) * 9 == n * 9 + 9);
        } else {
            let m = n - per_line;
            lemma_fundamental_div_mod(m, per_line);
            assert(n == (m / per_line + 1) * per_line + m % per_line) by (nonlinear_arith)
                requires
                    m == per_line * (m / per_line) + m % per_line,
                    n == m + per_line,
            ;
            vstd::arithmetic::div_mod::lemma_mod_pos_bound(m, per_line);
            lemma_fundamental_div_mod_converse(n, per_line, m / per_line + 1, m % per_line);
        }
    }
}

/// A text without control characters moves the cursor's `x` by one advance
/// for each of its characters, wrapping at the console's width: it ends at
/// `wrapped_x` of where it began and the number of characters.
pub proof fn lemma_cursor_x_after_glyphs(s: ConsoleState, text: Seq<char>, color: [u8; 3])
    requires
        s.wf(),
        !(s.info.pixel_format is Unknown),
        forall|i: int| 0 <= i < text.len() ==> draws_glyph(#[trigger] text[i]),
    ensures
        s.put_str(text, color).1,
        s.put_str(text, color).0.x == wrapped_x(s.info.width as int, s.x, text.len() as int),
    decreases text.len(),
{
    let width = s.info.width as int;
    if text.len() == 0 {
        lemma_fundamental_div_mod(width - 1 - s.x, 9);
    } else {
        let next = s.put_char(text[0], color).0;
        let rest = text.drop_first();
        lemma_put_char_keeps_wf(s, text[0], color);
        lemma_cursor_x_after_glyph(s, text[0], color);
        assert forall|i: int| 0 <= i < rest.len() implies draws_glyph(#[trigger] rest[i]) by {
            assert(rest[i] == text[i + 1]);
        }
        lemma_cursor_x_after_glyphs(next, rest, color);
        lemma_wrapped_x_step(width, s.x, rest.len() as int);
    }
}

/// While the glyphs of a text without control characters fit on the line,
/// the cursor's `x` ends at where it began plus the sum of their advances.
pub proof fn lemma_cursor_x_without_wrap(s: ConsoleState, text: Seq<char>, color: [u8; 3])
    requires
        s.wf(),
        !(s.info.pixel_format is Unknown),
        forall|i: int| 0 <= i < text.len() ==> draws_glyph(#[trigger] text[i]),
        s.x + text.len() * glyph_advance() < s.info.width,
    ensures
        s.put_str(text, color).0.x == s.x + text.len() * glyph_advance(),
{
    let width = s.info.width as int;
    let n = text.len() as int;
    lemma_cursor_x_after_glyphs(s, text, color);
    lemma_fundamental_div_mod(width - 1 - s.x, 9);
    assert(n <= glyphs_left(width, s.x)) by (nonlinear_arith)
        requires
            width - 1 - s.x == 9 * ((width - 1 - s.x) / 9) + (width - 1 - s.x) % 9,
            0 <= (width - 1 - s.x) % 9 < 9,
            s.x + n * 9 < width,
            glyphs_left(width, s.x) == (width - 1 - s.x) / 9,
    ;
}

/// In the red, green, blue format a pixel's bytes are its three scaled
/// channels in that order; in the blue, green, red format they are the same
/// three with the first and the third exchanged. The fourth byte is zero in
/// both.
pub proof fn lemma_rgb_bgr_swapped(color: [u8; 3], intensity: u8)
    ensures
        pixel_bytes(PixelFormat::Rgb, color, intensity) == Some(
            seq![
                scale_channel(color[0], intensity),
                scale_channel(color[1], intensity),
                scale_channel(color[2], intensity),
                0u8,
            ],
        ),
        pixel_bytes(PixelFormat::Bgr, color, intensity) == Some(
            seq![
                scale_channel(color[2], intensity),
                scale_channel(color[1], intensity),
                scale_channel(color[0], intensity),
                0u8,
            ],
        ),
        pixel_bytes(PixelFormat::Rgb, color, intensity)->Some_0[0] == pixel_bytes(
            PixelFormat::Bgr,
            color,
            intensity,
        )->Some_0[2],
        pixel_bytes(PixelFormat::Rgb, color, intensity)->Some_0[1] == pixel_bytes(
            PixelFormat::Bgr,
            color,
            intensity,
        )->Some_0[1],
        pixel_bytes(PixelFormat::Rgb, color, intensity)->Some_0[2] == pixel_bytes(
            PixelFormat::Bgr,
            color,
            intensity,
        )->Some_0[0],
{
}

/// Two consoles that differ in their pixel format alone, red, green, blue
/// here and blue, green, red there, draw a pixel at the same place in the
/// buffer: its first three bytes here are its first three bytes there in
/// reverse, and every byte that is not the pixel's is left as it was by both.
pub proof fn lemma_rgb_bgr_swapped_in_buffer(
    s: ConsoleState,
    x: int,
    y: int,
    intensity: u8,
    color: [u8; 3],
)
    requires
        s.info.pixel_format is Rgb,
        3 <= s.info.bytes_per_pixel,
        0 <= s.info.byte_offset(x, y),
        s.info.byte_offset(x, y) + s.info.bytes_per_pixel <= s.buffer.len(),
    ensures
        ({
            let t = ConsoleState {
                info: FrameBufferInfo { pixel_format: PixelFormat::Bgr, ..s.info },
                ..s
            };
            let start = s.info.byte_offset(x, y);
            let here = s.draw_pixel(x, y, intensity, color).0.buffer;
            let there = t.draw_pixel(x, y, intensity, color).0.buffer;
            &&& t.info.byte_offset(x, y) == start
            &&& here.len() == s.buffer.len() && there.len() == s.buffer.len()
            &&& here[start] == there[start + 2] == scale_channel(color[0], intensity)
            &&& here[start + 1] == there[start + 1] == scale_channel(color[1], intensity)
            &&& here[start + 2] == there[start] == scale_channel(color[2], intensity)
            &&& forall|i: int|
                0 <= i < s.buffer.len() && !(start <= i < start + s.info.bytes_per_pixel)
                    ==> here[i] == s.buffer[i] && there[i] == s.buffer[i]
        }),
{
}

/// In the single-channel format a pixel's first byte is one of two values:
/// 15 where the intensity is above 200, 0 where it is not. The colour plays
/// no part, and the other bytes are zero.
pub proof fn lemma_single_channel_threshold(color: [u8; 3], intensity: u8)
    ensures
        intensity > 200 ==> pixel_bytes(PixelFormat::U8, color, intensity) == Some(
            seq![15u8, 0u8, 0u8, 0u8],
        ),
        intensity <= 200 ==> pixel_bytes(PixelFormat::U8, color, intensity) == Some(
            seq![0u8, 0u8, 0u8, 0u8],
        ),
{
}

/// In the single-channel format the byte at a pixel's place is 15 where the
/// intensity is above 200 and 0 where it is not, whatever the colour.
pub proof fn lemma_single_channel_in_buffer(
    s: ConsoleState,
    x: int,
    y: int,
    intensity: u8,
    color: [u8; 3],
)
    requires
        s.info.pixel_format is U8,
        1 <= s.info.bytes_per_pixel,
        0 <= s.info.byte_offset(x, y),
        s.info.byte_offset(x, y) + s.info.bytes_per_pixel <= s.buffer.len(),
    ensures
        s.draw_pixel(x, y, intensity, color).1,
        s.draw_pixel(x, y, intensity, color).0.buffer[s.info.byte_offset(x, y)] == if intensity
            > 200 {
            15u8
        } else {
            0u8
        },
{
}

/// The bytes of a drawn glyph: byte `k` of the pixel in column `col` of the
/// glyph's line `row` is byte `k` of that pixel's colour at the glyph's
/// intensity there, and it lies `k` bytes after `((y + row) * stride + x + col)
/// * bytes_per_pixel`.
pub proof fn lemma_glyph_pixel_in_buffer(
    buffer: Seq<u8>,
    info: FrameBufferInfo,
    x: int,
    y: int,
    glyph: Seq<Seq<u8>>,
    color: [u8; 3],
    row: int,
    col: int,
    k: int,
)
    requires
        0 <= x,
        0 <= y,
        x + CHAR_RASTER_WIDTH <= info.stride,
        0 <= row < CHAR_RASTER_HEIGHT,
        0 <= col < CHAR_RASTER_WIDTH,
        0 <= k < info.bytes_per_pixel,
        info.byte_offset(x + col, y + row) + k < buffer.len(),
    ensures
        info.byte_offset(x + col, y + row) == ((y + row) * info.stride + x + col)
            * info.bytes_per_pixel,
        blit_glyph(buffer, info, x, y, glyph, color)[info.byte_offset(x + col, y + row) + k]
            == pixel_bytes(info.pixel_format, color, glyph[row][col])->Some_0[k],
{
    let at = info.byte_offset(x + col, y + row) + k;
    assert(0 <= info.byte_offset(x + col, y + row)) by (nonlinear_arith)
        requires
            info.byte_offset(x + col, y + row) == ((y + row) * info.stride + (x + col))
                * info.bytes_per_pixel,
            0 <= y + row,
            0 <= x + col,
            0 <= info.stride,
            0 <= info.bytes_per_pixel,
    ;
    lemma_pixel_of_byte(info, at, x + col, y + row);
}

/// A drawn glyph leaves every byte as it was that belongs to none of its
/// pixels.
pub proof fn lemma_glyph_leaves_the_rest(
    buffer: Seq<u8>,
    info: FrameBufferInfo,
    x: int,
    y: int,
    glyph: Seq<Seq<u8>>,
    color: [u8; 3],
    i: int,
)
    requires
        0 < info.bytes_per_pixel,
        0 <= x,
        0 <= y,
        x + CHAR_RASTER_WIDTH <= info.stride,
        0 <= i < buffer.len(),
        forall|row: int, col: int|
            0 <= row < CHAR_RASTER_HEIGHT && 0 <= col < CHAR_RASTER_WIDTH ==> !(
            #[trigger] info.byte_offset(x + col, y + row) <= i < info.byte_offset(x + col, y + row)
                + info.bytes_per_pixel),
    ensures
        blit_glyph(buffer, info, x, y, glyph, color)[i] == buffer[i],
{
    let pixel = i / (info.bytes_per_pixel as int);
    let col = pixel % (info.stride as int) - x;
    let row = pixel / (info.stride as int) - y;
    if 0 <= row < CHAR_RASTER_HEIGHT && 0 <= col < CHAR_RASTER_WIDTH {
        lemma_pixel_of_byte(info, i, x + col, y + row);
        assert(info.byte_offset(x + col, y + row) <= i < info.byte_offset(x + col, y + row)
            + info.bytes_per_pixel);
    }
}

/// White leaves an intensity as it is, and no colour shows at intensity 0.
pub proof fn lemma_scale_channel_ends(channel: u8, intensity: u8)
    ensures
        scale_channel(255, intensity) == intensity,
        scale_channel(channel, 255) == channel,
        scale_channel(channel, 0) == 0,
        scale_channel(0, intensity) == 0,
        scale_channel(channel, intensity) <= channel,
        scale_channel(channel, intensity) <= intensity,
{
    let c = channel as int;
    let i = intensity as int;
    assert(255 * i / 255 == i) by (nonlinear_arith);
    assert(c * 255 / 255 == c) by (nonlinear_arith);
    assert(c * 0 == 0 && 0 * i == 0) by (nonlinear_arith);
    assert(0 <= c * i / 255 <= c && c * i / 255 <= i) by (nonlinear_arith)
        requires
            0 <= c <= 255,
            0 <= i <= 255,
    ;
}

} // verus!
