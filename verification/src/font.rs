//! The glyph rasterizer: one fixed-size intensity bitmap per character, with a
//! replacement glyph for characters the font does not cover.
use noto_sans_mono_bitmap::{get_raster, FontWeight, RasterHeight};
use vstd::prelude::*;

verus! {

/// Height in pixels of every glyph bitmap.
pub const CHAR_RASTER_HEIGHT: usize = 16;

/// Width in pixels of every glyph bitmap; the font is monospaced.
pub const CHAR_RASTER_WIDTH: usize = 9;

/// The character whose glyph stands in for any character the font lacks.
pub const BACKUP_CHAR: char = '\u{FFFD}';

/// Whether `rows` has the one shape every glyph bitmap has:
/// `CHAR_RASTER_HEIGHT` rows of `CHAR_RASTER_WIDTH` intensities each.
pub open spec fn glyph_shape(rows: Seq<Seq<u8>>) -> bool {
    &&& rows.len() == CHAR_RASTER_HEIGHT
    &&& forall|r: int| 0 <= r < rows.len() ==> (#[trigger] rows[r]).len() == CHAR_RASTER_WIDTH
}

/// The intensity grid of one character: row by row, top to bottom, each
/// intensity between 0 (background) and 255 (full colour).
#[derive(Clone, Copy, Debug)]
pub struct GlyphBitmap {
    rows: &'static [&'static [u8]],
}

impl View for GlyphBitmap {
    type V = Seq<Seq<u8>>;

    closed spec fn view(&self) -> Seq<Seq<u8>> {
        Seq::new(self.rows@.len(), |r: int| self.rows@[r]@)
    }
}

impl GlyphBitmap {
    #[verifier::type_invariant]
    spec fn shaped(&self) -> bool {
        glyph_shape(self@)
    }

    /// Wraps `rows` as a glyph if they have the glyph shape, and refuses them
    /// otherwise.
    pub fn from_rows(rows: &'static [&'static [u8]]) -> (glyph: Option<GlyphBitmap>)
        ensures
            glyph is Some <==> glyph_shape(Seq::new(rows@.len(), |r: int| rows@[r]@)),
            glyph matches Some(g) ==> g@ == Seq::new(rows@.len(), |r: int| rows@[r]@),
    {
        let ghost grid = Seq::new(rows@.len(), |r: int| rows@[r]@);
        if rows.len() != CHAR_RASTER_HEIGHT {
            return None;
        }
        let mut r: usize = 0;
        while r < CHAR_RASTER_HEIGHT
            invariant
                r <= CHAR_RASTER_HEIGHT,
                rows@.len() == CHAR_RASTER_HEIGHT,
                grid == Seq::new(rows@.len(), |r: int| rows@[r]@),
                forall|k: int| 0 <= k < r ==> (#[trigger] grid[k]).len() == CHAR_RASTER_WIDTH,
            decreases CHAR_RASTER_HEIGHT - r,
        {
            if rows[r].len() != CHAR_RASTER_WIDTH {
                assert(grid[r as int].len() != CHAR_RASTER_WIDTH);
                return None;
            }
            r += 1;
        }
        Some(GlyphBitmap { rows })
    }

    /// The rows of the bitmap.
    pub fn raster(&self) -> (rows: &'static [&'static [u8]])
        ensures
            self@ == Seq::new(rows@.len(), |r: int| rows@[r]@),
            glyph_shape(self@),
    {
        proof {
            use_type_invariant(self);
        }
        self.rows
    }

    /// The number of rows.
    pub fn height(&self) -> (h: usize)
        ensures
            h == CHAR_RASTER_HEIGHT,
            h == self@.len(),
    {
        proof {
            use_type_invariant(self);
        }
        self.rows.len()
    }

    /// The number of intensities in each row.
    pub fn width(&self) -> (w: usize)
        ensures
            w == CHAR_RASTER_WIDTH,
            forall|r: int| 0 <= r < self@.len() ==> (#[trigger] self@[r]).len() == w,
    {
        proof {
            use_type_invariant(self);
        }
        CHAR_RASTER_WIDTH
    }

    /// The intensity at `row`, `col`.
    pub fn intensity(&self, row: usize, col: usize) -> (v: u8)
        requires
            row < CHAR_RASTER_HEIGHT,
            col < CHAR_RASTER_WIDTH,
        ensures
            v == self@[row as int][col as int],
    {
        proof {
            use_type_invariant(self);
            assert(self@[row as int].len() == CHAR_RASTER_WIDTH);
        }
        self.rows[row][col]
    }
}

/// What the font holds for `c` in its regular weight at 16 pixel height: the
/// intensity rows of the glyph, or nothing where the font has no such glyph.
pub uninterp spec fn regular_raster(c: char) -> Option<Seq<Seq<u8>>>;

/// Looks `c` up in the font.
///
/// Calls `noto_sans_mono_bitmap::get_raster` for the regular weight at 16
/// pixel height. Not proved, but taken from that crate's tables: the lookup
/// depends on `c` alone; every glyph it has is 16 rows of 9 intensities; and
/// it has a glyph for U+FFFD, which the crate includes under its feature
/// `unicode-specials`.
#[verifier::external_body]
fn lookup_raster(c: char) -> (found: Option<GlyphBitmap>)
    ensures
        found matches Some(g) ==> regular_raster(c) == Some(g@) && glyph_shape(g@),
        found is None ==> regular_raster(c) is None,
        c == BACKUP_CHAR ==> found is Some,
{
    match get_raster(c, FontWeight::Regular, RasterHeight::Size16) {
        Some(rasterized) => Some(GlyphBitmap { rows: rasterized.raster() }),
        None => None,
    }
}

/// The glyph drawn for `c`: the font's own where it has one, the replacement
/// glyph otherwise.
pub open spec fn glyph_of(c: char) -> Seq<Seq<u8>> {
    match regular_raster(c) {
        Some(rows) => rows,
        None => regular_raster(BACKUP_CHAR)->Some_0,
    }
}

/// Returns the raster of the given char, or the raster of `BACKUP_CHAR` where
/// the font has none for it.
pub fn get_char_raster(c: char) -> (glyph: GlyphBitmap)
    ensures
        glyph@ == glyph_of(c),
        glyph_shape(glyph@),
{
    match lookup_raster(c) {
        Some(glyph) => glyph,
        None => {
            let backup = lookup_raster(BACKUP_CHAR);
            backup.unwrap()
        },
    }
}

} // verus!
