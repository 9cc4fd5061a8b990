//! The raster engine: pixels, lines, rectangles and full-screen fills,
//! expressed purely in terms of the addressing and color-streaming events.

use vstd::prelude::*;
use crate::{DriverError, ST7734};
use crate::addressing::{stream_events, window_events};
use crate::color::{Color, DefaultColor};
use crate::command::Instruction;
use crate::transport::{
    byte_events, color_events, color_payload, lemma_concat_assoc, EventModel, Transport,
};

verus! {

/// The events of one pixel write: a one-by-one window at `(x, y)`, the
/// memory-write opcode, then the color word.
pub open spec fn pixel_events(t: Transport, x: u16, y: u16, hex: u16) -> Seq<EventModel> {
    window_events(t, x, y, x, y) + byte_events(t, Instruction::RAMWR.spec_opcode(), false)
        + color_events(t, hex)
}

/// The events of a horizontal line: a one-pixel-tall window from `x0` to
/// `x1` at `y`, then `x1 - x0 + 1` streamed colors.
pub open spec fn hline_events(t: Transport, x0: u16, x1: u16, y: u16, hex: u16) -> Seq<
    EventModel,
> {
    window_events(t, x0, y, x1, y) + stream_events(t, hex, (x1 - x0 + 1) as nat)
}

/// The events of a vertical line: a one-pixel-wide window from `y0` to `y1`
/// at `x`, then `y1 - y0 + 1` streamed colors.
pub open spec fn vline_events(t: Transport, x: u16, y0: u16, y1: u16, hex: u16) -> Seq<
    EventModel,
> {
    window_events(t, x, y0, x, y1) + stream_events(t, hex, (y1 - y0 + 1) as nat)
}

/// The events of a filled rectangle: its window, then one streamed color
/// per covered pixel.
pub open spec fn filled_rect_events(
    t: Transport,
    x0: u16,
    y0: u16,
    x1: u16,
    y1: u16,
    hex: u16,
) -> Seq<EventModel> {
    window_events(t, x0, y0, x1, y1) + stream_events(
        t,
        hex,
        ((x1 - x0 + 1) * (y1 - y0 + 1)) as nat,
    )
}

/// The events of a rectangle outline: its two horizontal then its two
/// vertical edges; the corners are covered twice, which is harmless because
/// pixel writes are idempotent.
pub open spec fn rect_events(t: Transport, x0: u16, y0: u16, x1: u16, y1: u16, hex: u16) -> Seq<
    EventModel,
> {
    hline_events(t, x0, x1, y0, hex) + hline_events(t, x0, x1, y1, hex) + vline_events(
        t,
        x0,
        y0,
        y1,
        hex,
    ) + vline_events(t, x1, y0, y1, hex)
}

impl ST7734 {
    /// Draws a single pixel of `color` at `(x, y)`.
    pub fn draw_pixel(&mut self, x: u16, y: u16, color: &Color)
        ensures
            final(self).transport() == old(self).transport(),
            final(self).emitted() == old(self).emitted() + pixel_events(
                old(self).transport(),
                x,
                y,
                color.hex,
            ),
    {
        let ghost t = self.transport();
        let ghost e0 = self.emitted();
        self.set_window(x, y, x, y);
        self.write_byte(Instruction::RAMWR.opcode(), false);
        self.write_color(color);
        proof {
            let w = window_events(t, x, y, x, y);
            let op = byte_events(t, Instruction::RAMWR.spec_opcode(), false);
            let cw = color_events(t, color.hex);
            lemma_concat_assoc(e0, w, op);
            lemma_concat_assoc(e0, w + op, cw);
        }
    }

    /// Draws a horizontal line; callers establish `x0 <= x1`.
    pub(crate) fn hline_raw(&mut self, x0: u16, x1: u16, y: u16, color: &Color)
        requires
            x0 <= x1,
        ensures
            final(self).transport() == old(self).transport(),
            final(self).emitted() == old(self).emitted() + hline_events(
                old(self).transport(),
                x0,
                x1,
                y,
                color.hex,
            ),
    {
        let ghost t = self.transport();
        let ghost e0 = self.emitted();
        let length: u64 = (x1 - x0) as u64 + 1;
        self.set_window(x0, y, x1, y);
        self.stream_color(color, length);
        proof {
            lemma_concat_assoc(
                e0,
                window_events(t, x0, y, x1, y),
                stream_events(t, color.hex, length as nat),
            );
        }
    }

    /// Draws a vertical line; callers establish `y0 <= y1`.
    pub(crate) fn vline_raw(&mut self, x: u16, y0: u16, y1: u16, color: &Color)
        requires
            y0 <= y1,
        ensures
            final(self).transport() == old(self).transport(),
            final(self).emitted() == old(self).emitted() + vline_events(
                old(self).transport(),
                x,
                y0,
                y1,
                color.hex,
            ),
    {
        let ghost t = self.transport();
        let ghost e0 = self.emitted();
        let length: u64 = (y1 - y0) as u64 + 1;
        self.set_window(x, y0, x, y1);
        self.stream_color(color, length);
        proof {
            lemma_concat_assoc(
                e0,
                window_events(t, x, y0, x, y1),
                stream_events(t, color.hex, length as nat),
            );
        }
    }

    /// Draws a horizontal line of `color` from `x0` to `x1` at `y`, both
    /// endpoints included; reversed bounds are rejected.
    pub fn draw_horizontal_line(&mut self, x0: u16, x1: u16, y: u16, color: &Color) -> (r: Result<
        (),
        DriverError,
    >)
        ensures
            final(self).transport() == old(self).transport(),
            x0 <= x1 ==> r is Ok && final(self).emitted() == old(self).emitted() + hline_events(
                old(self).transport(),
                x0,
                x1,
                y,
                color.hex,
            ),
            x0 > x1 ==> r == Err::<(), DriverError>(DriverError::InvalidWindow)
                && final(self).emitted() == old(self).emitted(),
    {
        if x0 > x1 {
            return Err(DriverError::InvalidWindow);
        }
        self.hline_raw(x0, x1, y, color);
        Ok(())
    }

    /// Draws a vertical line of `color` from `y0` to `y1` at `x`, both
    /// endpoints included; reversed bounds are rejected.
    pub fn draw_vertical_line(&mut self, x: u16, y0: u16, y1: u16, color: &Color) -> (r: Result<
        (),
        DriverError,
    >)
        ensures
            final(self).transport() == old(self).transport(),
            y0 <= y1 ==> r is Ok && final(self).emitted() == old(self).emitted() + vline_events(
                old(self).transport(),
                x,
                y0,
                y1,
                color.hex,
            ),
            y0 > y1 ==> r == Err::<(), DriverError>(DriverError::InvalidWindow)
                && final(self).emitted() == old(self).emitted(),
    {
        if y0 > y1 {
            return Err(DriverError::InvalidWindow);
        }
        self.vline_raw(x, y0, y1, color);
        Ok(())
    }

    /// Fills the rectangle from `(x0, y0)` to `(x1, y1)` with `color` in one
    /// bulk stream of exactly `(x1-x0+1) * (y1-y0+1)` pixels; reversed
    /// bounds are rejected.
    pub fn draw_filled_rect(&mut self, x0: u16, y0: u16, x1: u16, y1: u16, color: &Color) -> (r:
        Result<(), DriverError>)
        ensures
            final(self).transport() == old(self).transport(),
            x0 <= x1 && y0 <= y1 ==> r is Ok && final(self).emitted() == old(self).emitted()
                + filled_rect_events(old(self).transport(), x0, y0, x1, y1, color.hex),
            !(x0 <= x1 && y0 <= y1) ==> r == Err::<(), DriverError>(DriverError::InvalidWindow)
                && final(self).emitted() == old(self).emitted(),
    {
        if x0 > x1 || y0 > y1 {
            return Err(DriverError::InvalidWindow);
        }
        let ghost t = self.transport();
        let ghost e0 = self.emitted();
        let width: u64 = (x1 - x0) as u64 + 1;
        let height: u64 = (y1 - y0) as u64 + 1;
        assert(width * height <= 0x10000 * 0x10000) by (nonlinear_arith)
            requires
                width <= 0x10000,
                height <= 0x10000,
        ;
        self.set_window(x0, y0, x1, y1);
        self.stream_color(color, width * height);
        proof {
            lemma_concat_assoc(
                e0,
                window_events(t, x0, y0, x1, y1),
                stream_events(t, color.hex, (width * height) as nat),
            );
        }
        Ok(())
    }

    /// Draws the outline of the rectangle from `(x0, y0)` to `(x1, y1)`:
    /// both horizontal edges, then both vertical edges; reversed bounds are
    /// rejected.
    pub fn draw_rect(&mut self, x0: u16, y0: u16, x1: u16, y1: u16, color: &Color) -> (r: Result<
        (),
        DriverError,
    >)
        ensures
            final(self).transport() == old(self).transport(),
            x0 <= x1 && y0 <= y1 ==> r is Ok && final(self).emitted() == old(self).emitted()
                + rect_events(old(self).transport(), x0, y0, x1, y1, color.hex),
            !(x0 <= x1 && y0 <= y1) ==> r == Err::<(), DriverError>(DriverError::InvalidWindow)
                && final(self).emitted() == old(self).emitted(),
    {
        if x0 > x1 || y0 > y1 {
            return Err(DriverError::InvalidWindow);
        }
        let ghost t = self.transport();
        let ghost e0 = self.emitted();
        let ghost h0 = hline_events(t, x0, x1, y0, color.hex);
        let ghost h1 = hline_events(t, x0, x1, y1, color.hex);
        let ghost v0 = vline_events(t, x0, y0, y1, color.hex);
        let ghost v1 = vline_events(t, x1, y0, y1, color.hex);
        self.hline_raw(x0, x1, y0, color);
        self.hline_raw(x0, x1, y1, color);
        proof {
            lemma_concat_assoc(e0, h0, h1);
        }
        self.vline_raw(x0, y0, y1, color);
        proof {
            lemma_concat_assoc(e0, h0 + h1, v0);
        }
        self.vline_raw(x1, y0, y1, color);
        proof {
            lemma_concat_assoc(e0, (h0 + h1) + v0, v1);
        }
        Ok(())
    }

    /// Fills the entire 128 by 160 panel with `color`.
    pub fn fill_screen(&mut self, color: &Color)
        ensures
            final(self).transport() == old(self).transport(),
            final(self).emitted() == old(self).emitted() + filled_rect_events(
                old(self).transport(),
                0,
                0,
                127,
                159,
                color.hex,
            ),
    {
        let r = self.draw_filled_rect(0, 0, 127, 159, color);
        proof {
            assert(r is Ok);
        }
    }

    /// Fills the entire panel black.
    pub fn clear_screen(&mut self)
        ensures
            final(self).transport() == old(self).transport(),
            final(self).emitted() == old(self).emitted() + filled_rect_events(
                old(self).transport(),
                0,
                0,
                127,
                159,
                DefaultColor::Black.spec_hex(),
            ),
    {
        let black = Color::from_default(DefaultColor::Black);
        self.fill_screen(&black);
    }
}

/// The absolute difference of two coordinates.
pub open spec fn axis_delta(a: u16, b: u16) -> int {
    if a >= b {
        a - b
    } else {
        b - a
    }
}

/// The y coordinate the shallow-slope step plots for column offset `i`:
/// `y0 + (i * dy) / dx` truncated toward zero, saturated at the top of the
/// coordinate range as the conversion from the slope intermediate saturates.
pub open spec fn shallow_y(y0: u16, i: int, dy: int, dx: int) -> u16 {
    let y = y0 + (i * dy) / dx;
    if y > 0xFFFF {
        0xFFFF as u16
    } else {
        y as u16
    }
}

/// The x coordinate the steep-slope step plots for row offset `i`:
/// `x0 + (i * dx) / dy` truncated toward zero, saturated at the top of the
/// coordinate range.
pub open spec fn steep_x(x0: u16, i: int, dy: int, dx: int) -> u16 {
    let x = x0 + (i * dx) / dy;
    if x > 0xFFFF {
        0xFFFF as u16
    } else {
        x as u16
    }
}

/// The pixel events of the first `n` columns of a shallow-slope line
/// starting at `(x0, y0)`: one pixel per column, stepping right.
pub open spec fn shallow_line_events(
    t: Transport,
    x0: u16,
    y0: u16,
    hex: u16,
    dy: int,
    dx: int,
    n: int,
) -> Seq<EventModel>
    decreases n,
{
    if n <= 0 {
        Seq::empty()
    } else {
        shallow_line_events(t, x0, y0, hex, dy, dx, n - 1) + pixel_events(
            t,
            (x0 + n - 1) as u16,
            shallow_y(y0, n - 1, dy, dx),
            hex,
        )
    }
}

/// The pixel events of the first `n` rows of a steep-slope line starting at
/// `(x0, y0)`: one pixel per row, stepping down.
pub open spec fn steep_line_events(
    t: Transport,
    x0: u16,
    y0: u16,
    hex: u16,
    dy: int,
    dx: int,
    n: int,
) -> Seq<EventModel>
    decreases n,
{
    if n <= 0 {
        Seq::empty()
    } else {
        steep_line_events(t, x0, y0, hex, dy, dx, n - 1) + pixel_events(
            t,
            steep_x(x0, n - 1, dy, dx),
            (y0 + n - 1) as u16,
            hex,
        )
    }
}

impl ST7734 {
    /// Draws a line of `color` from `(x0, y0)` to `(x1, y1)`. Vertical and
    /// horizontal lines delegate to the dedicated primitives, which reject
    /// reversed bounds; any other slope steps one pixel per column when the
    /// run exceeds the rise and one pixel per row otherwise, with the
    /// crossing coordinate truncated toward zero.
    pub fn draw_line(&mut self, x0: u16, y0: u16, x1: u16, y1: u16, color: &Color) -> (r: Result<
        (),
        DriverError,
    >)
        ensures
            final(self).transport() == old(self).transport(),
            x0 == x1 && y0 <= y1 ==> r is Ok && final(self).emitted() == old(self).emitted()
                + vline_events(old(self).transport(), x0, y0, y1, color.hex),
            x0 == x1 && y0 > y1 ==> r == Err::<(), DriverError>(DriverError::InvalidWindow)
                && final(self).emitted() == old(self).emitted(),
            x0 != x1 && y0 == y1 && x0 <= x1 ==> r is Ok && final(self).emitted()
                == old(self).emitted() + hline_events(old(self).transport(), x0, x1, y1, color.hex),
            x0 != x1 && y0 == y1 && x0 > x1 ==> r == Err::<(), DriverError>(
                DriverError::InvalidWindow,
            ) && final(self).emitted() == old(self).emitted(),
            x0 != x1 && y0 != y1 && axis_delta(y1, y0) < axis_delta(x1, x0) ==> r is Ok
                && final(self).emitted() == old(self).emitted() + shallow_line_events(
                old(self).transport(),
                x0,
                y0,
                color.hex,
                axis_delta(y1, y0),
                axis_delta(x1, x0),
                if x0 <= x1 {
                    x1 - x0 + 1
                } else {
                    0
                },
            ),
            x0 != x1 && y0 != y1 && axis_delta(y1, y0) >= axis_delta(x1, x0) ==> r is Ok
                && final(self).emitted() == old(self).emitted() + steep_line_events(
                old(self).transport(),
                x0,
                y0,
                color.hex,
                axis_delta(y1, y0),
                axis_delta(x1, x0),
                if y0 <= y1 {
                    y1 - y0 + 1
                } else {
                    0
                },
            ),
    {
        if x0 == x1 {
            return self.draw_vertical_line(x0, y0, y1, color);
        }
        if y0 == y1 {
            return self.draw_horizontal_line(x0, x1, y1, color);
        }
        let ghost t = self.transport();
        let ghost e0 = self.emitted();
        let dx16: u16 = if x1 >= x0 {
            x1 - x0
        } else {
            x0 - x1
        };
        let dy16: u16 = if y1 >= y0 {
            y1 - y0
        } else {
            y0 - y1
        };
        if dy16 < dx16 {
            if x0 <= x1 {
                let count: u32 = (x1 - x0) as u32 + 1;
                let mut i: u32 = 0;
                while i < count
                    invariant
                        i <= count,
                        count == x1 - x0 + 1,
                        x0 <= x1,
                        dy16 == axis_delta(y1, y0),
                        dx16 == axis_delta(x1, x0),
                        dy16 < dx16,
                        self.transport() == t,
                        self.emitted() == e0 + shallow_line_events(
                            t,
                            x0,
                            y0,
                            color.hex,
                            dy16 as int,
                            dx16 as int,
                            i as int,
                        ),
                    decreases count - i,
                {
                    assert((i as u64) * (dy16 as u64) <= 0xFFFF * 0xFFFF) by (nonlinear_arith)
                        requires
                            i <= 0xFFFF,
                            dy16 <= 0xFFFF,
                    ;
                    let num: u64 = (i as u64) * (dy16 as u64);
                    let q: u64 = num / (dx16 as u64);
                    let sum: u64 = (y0 as u64) + q;
                    let ypix: u16 = if sum > 0xFFFF {
                        0xFFFF
                    } else {
                        sum as u16
                    };
                    let xpix: u16 = x0 + (i as u16);
                    self.draw_pixel(xpix, ypix, color);
                    proof {
                        assert(ypix == shallow_y(y0, i as int, dy16 as int, dx16 as int));
                        lemma_concat_assoc(
                            e0,
                            shallow_line_events(
                                t,
                                x0,
                                y0,
                                color.hex,
                                dy16 as int,
                                dx16 as int,
                                i as int,
                            ),
                            pixel_events(t, xpix, ypix, color.hex),
                        );
                    }
                    i = i + 1;
                }
            } else {
                assert(e0 + shallow_line_events(
                    t,
                    x0,
                    y0,
                    color.hex,
                    dy16 as int,
                    dx16 as int,
                    0,
                ) =~= e0);
            }
            Ok(())
        } else {
            if y0 <= y1 {
                let count: u32 = (y1 - y0) as u32 + 1;
                let mut i: u32 = 0;
                while i < count
                    invariant
                        i <= count,
                        count == y1 - y0 + 1,
                        y0 <= y1,
                        dy16 == axis_delta(y1, y0),
                        dx16 == axis_delta(x1, x0),
                        dy16 >= dx16,
                        dy16 >= 1,
                        self.transport() == t,
                        self.emitted() == e0 + steep_line_events(
                            t,
                            x0,
                            y0,
                            color.hex,
                            dy16 as int,
                            dx16 as int,
                            i as int,
                        ),
                    decreases count - i,
                {
                    assert((i as u64) * (dx16 as u64) <= 0xFFFF * 0xFFFF) by (nonlinear_arith)
                        requires
                            i <= 0xFFFF,
                            dx16 <= 0xFFFF,
                    ;
                    let num: u64 = (i as u64) * (dx16 as u64);
                    let q: u64 = num / (dy16 as u64);
                    let sum: u64 = (x0 as u64) + q;
                    let xpix: u16 = if sum > 0xFFFF {
                        0xFFFF
                    } else {
                        sum as u16
                    };
                    let ypix: u16 = y0 + (i as u16);
                    self.draw_pixel(xpix, ypix, color);
                    proof {
                        assert(xpix == steep_x(x0, i as int, dy16 as int, dx16 as int));
                        lemma_concat_assoc(
                            e0,
                            steep_line_events(
                                t,
                                x0,
                                y0,
                                color.hex,
                                dy16 as int,
                                dx16 as int,
                                i as int,
                            ),
                            pixel_events(t, xpix, ypix, color.hex),
                        );
                    }
                    i = i + 1;
                }
            } else {
                assert(e0 + steep_line_events(t, x0, y0, color.hex, dy16 as int, dx16 as int, 0)
                    =~= e0);
            }
            Ok(())
        }
    }
}

/// A filled rectangle with ordered bounds streams, after its window, exactly
/// `(x1-x0+1) * (y1-y0+1)` copies of the requested color: on the hardware
/// transport a single payload of two bytes per pixel, on the bit-banged
/// transport that many independent color writes.
pub proof fn lemma_filled_rect_exact_pixels(
    t: Transport,
    x0: u16,
    y0: u16,
    x1: u16,
    y1: u16,
    hex: u16,
)
    requires
        x0 <= x1,
        y0 <= y1,
    ensures
        filled_rect_events(t, x0, y0, x1, y1, hex) == window_events(t, x0, y0, x1, y1)
            + stream_events(t, hex, ((x1 - x0 + 1) * (y1 - y0 + 1)) as nat),
        color_payload(hex, ((x1 - x0 + 1) * (y1 - y0 + 1)) as nat).len() == 2 * ((x1 - x0 + 1) * (
        y1 - y0 + 1)),
        forall|i: int|
            0 <= i < 2 * ((x1 - x0 + 1) * (y1 - y0 + 1)) ==> #[trigger] color_payload(
                hex,
                ((x1 - x0 + 1) * (y1 - y0 + 1)) as nat,
            )[i] == if i % 2 == 0 {
                crate::transport::hi_byte(hex)
            } else {
                crate::transport::lo_byte(hex)
            },
        crate::transport::repeated_color_events(
            t,
            hex,
            ((x1 - x0 + 1) * (y1 - y0 + 1)) as nat,
        ).len() == ((x1 - x0 + 1) * (y1 - y0 + 1)) * color_events(t, hex).len(),
{
    let n = ((x1 - x0 + 1) * (y1 - y0 + 1)) as nat;
    crate::transport::lemma_color_payload(hex, n);
    crate::transport::lemma_repeated_color_events_len(t, hex, n);
}

} // verus!
