//! Character rendering: a pixel for every set bit of a five-column glyph,
//! drawn mirrored — decreasing x for increasing column and decreasing y for
//! increasing row — exactly as the controller protocol expects it.

use vstd::prelude::*;
use crate::{DriverError, ST7734};
use crate::color::Color;
use crate::fonts::Font;
use crate::raster::pixel_events;
use crate::transport::{lemma_concat_assoc, EventModel, Transport};

verus! {

/// Whether the glyph bit at `(row, col)` is set.
pub open spec fn glyph_bit(glyph: Seq<u8>, row: int, col: int) -> bool {
    glyph[col] & (0x01u8 << (row as u8)) != 0
}

/// Whether every set glyph bit plots inside the coordinate range: column
/// offsets run left from `x` and row offsets up from `y`.
pub open spec fn glyph_fits(glyph: Seq<u8>, x: u16, y: u16) -> bool {
    forall|row: int, col: int|
        0 <= row < 7 && 0 <= col < 5 && #[trigger] glyph_bit(glyph, row, col) ==> col <= x && row
            <= y
}

/// The events of one glyph cell: a pixel at `(x - col, y - row)` when the
/// bit is set, nothing otherwise.
pub open spec fn glyph_cell_events(
    t: Transport,
    glyph: Seq<u8>,
    x: u16,
    y: u16,
    hex: u16,
    row: int,
    col: int,
) -> Seq<EventModel> {
    if glyph_bit(glyph, row, col) {
        pixel_events(t, (x - col) as u16, (y - row) as u16, hex)
    } else {
        Seq::empty()
    }
}

/// The events of the first `ncols` cells of one glyph row.
pub open spec fn glyph_row_events(
    t: Transport,
    glyph: Seq<u8>,
    x: u16,
    y: u16,
    hex: u16,
    row: int,
    ncols: int,
) -> Seq<EventModel>
    decreases ncols,
{
    if ncols <= 0 {
        Seq::empty()
    } else {
        glyph_row_events(t, glyph, x, y, hex, row, ncols - 1) + glyph_cell_events(
            t,
            glyph,
            x,
            y,
            hex,
            row,
            ncols - 1,
        )
    }
}

/// The events of the first `nrows` glyph rows, each of five cells.
pub open spec fn glyph_rows_events(
    t: Transport,
    glyph: Seq<u8>,
    x: u16,
    y: u16,
    hex: u16,
    nrows: int,
) -> Seq<EventModel>
    decreases nrows,
{
    if nrows <= 0 {
        Seq::empty()
    } else {
        glyph_rows_events(t, glyph, x, y, hex, nrows - 1) + glyph_row_events(
            t,
            glyph,
            x,
            y,
            hex,
            nrows - 1,
            5,
        )
    }
}

/// The events of one character: rows `0..7` and columns `0..5` in order,
/// one pixel for each set bit, at `(x - col, y - row)`.
pub open spec fn character_events(
    t: Transport,
    glyph: Seq<u8>,
    x: u16,
    y: u16,
    hex: u16,
) -> Seq<EventModel> {
    glyph_rows_events(t, glyph, x, y, hex, 7)
}

impl ST7734 {
    /// Draws the character `c` in the given font and `color`, anchored at
    /// `(x, y)` and extending toward smaller coordinates: the glyph cell
    /// `(row, col)` plots at `(x - col, y - row)`. A glyph whose set bits
    /// would cross the panel origin is rejected before anything is emitted.
    pub fn draw_character<F: Font>(&mut self, c: char, x: u16, y: u16, color: &Color, _font: F)
        -> (r: Result<(), DriverError>)
        ensures
            final(self).transport() == old(self).transport(),
            glyph_fits(F::glyph(c), x, y) ==> r is Ok && final(self).emitted() == old(
                self,
            ).emitted() + character_events(old(self).transport(), F::glyph(c), x, y, color.hex),
            !glyph_fits(F::glyph(c), x, y) ==> r == Err::<(), DriverError>(
                DriverError::CharacterOutOfBounds,
            ) && final(self).emitted() == old(self).emitted(),
    {
        let character_data = F::get_char(c);
        let ghost g = F::glyph(c);

        let mut row: usize = 0;
        while row < 7
            invariant
                row <= 7,
                g == F::glyph(c),
                character_data@ == g,
                g.len() == 5,
                forall|r2: int, c2: int|
                    0 <= r2 < row && 0 <= c2 < 5 && #[trigger] glyph_bit(g, r2, c2) ==> c2 <= x
                        && r2 <= y,
            decreases 7 - row,
        {
            let mut col: usize = 0;
            while col < 5
                invariant
                    row < 7,
                    col <= 5,
                    g == F::glyph(c),
                    character_data@ == g,
                    g.len() == 5,
                    forall|r2: int, c2: int|
                        0 <= r2 < row && 0 <= c2 < 5 && #[trigger] glyph_bit(g, r2, c2) ==> c2 <= x
                            && r2 <= y,
                    forall|c2: int|
                        0 <= c2 < col && #[trigger] glyph_bit(g, row as int, c2) ==> c2 <= x
                            && row as int <= y,
                decreases 5 - col,
            {
                let bit = character_data[col] & (0x01u8 << (row as u8));
                if bit != 0 && (col as u16 > x || row as u16 > y) {
                    proof {
                        assert(glyph_bit(g, row as int, col as int));
                        assert(!glyph_fits(g, x, y));
                    }
                    return Err(DriverError::CharacterOutOfBounds);
                }
                col = col + 1;
            }
            row = row + 1;
        }
        assert(glyph_fits(g, x, y));

        let ghost t = self.transport();
        let ghost e0 = self.emitted();
        let mut row: usize = 0;
        while row < 7
            invariant
                row <= 7,
                g == F::glyph(c),
                character_data@ == g,
                g.len() == 5,
                glyph_fits(g, x, y),
                self.transport() == t,
                self.emitted() == e0 + glyph_rows_events(t, g, x, y, color.hex, row as int),
            decreases 7 - row,
        {
            let mut col: usize = 0;
            while col < 5
                invariant
                    row < 7,
                    col <= 5,
                    g == F::glyph(c),
                    character_data@ == g,
                    g.len() == 5,
                    glyph_fits(g, x, y),
                    self.transport() == t,
                    self.emitted() == e0 + glyph_rows_events(t, g, x, y, color.hex, row as int)
                        + glyph_row_events(t, g, x, y, color.hex, row as int, col as int),
                decreases 5 - col,
            {
                let ghost rows_done = glyph_rows_events(t, g, x, y, color.hex, row as int);
                let ghost row_done = glyph_row_events(t, g, x, y, color.hex, row as int, col as int);
                let bit = character_data[col] & (0x01u8 << (row as u8));
                if bit != 0 {
                    proof {
                        assert(glyph_bit(g, row as int, col as int));
                    }
                    self.draw_pixel(x - (col as u16), y - (row as u16), color);
                    proof {
                        lemma_concat_assoc(
                            e0 + rows_done,
                            row_done,
                            glyph_cell_events(t, g, x, y, color.hex, row as int, col as int),
                        );
                    }
                } else {
                    proof {
                        assert(!glyph_bit(g, row as int, col as int));
                        assert(row_done + glyph_cell_events(
                            t,
                            g,
                            x,
                            y,
                            color.hex,
                            row as int,
                            col as int,
                        ) =~= row_done);
                    }
                }
                col = col + 1;
            }
            proof {
                let rows_done = glyph_rows_events(t, g, x, y, color.hex, row as int);
                let row_done = glyph_row_events(t, g, x, y, color.hex, row as int, 5);
                lemma_concat_assoc(e0, rows_done, row_done);
            }
            row = row + 1;
        }
        Ok(())
    }
}

} // verus!
