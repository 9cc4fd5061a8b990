//! Circles: the midpoint-style outline over eight-way symmetry and the
//! filled circle as mirrored vertical lines, both built on an integer
//! square root.

use vstd::prelude::*;
use crate::{DriverError, ST7734};
use crate::color::Color;
use crate::raster::{pixel_events, vline_events};
use crate::transport::{lemma_concat_assoc, EventModel, Transport};

verus! {

/// The greatest integer whose square does not exceed `n`.
pub open spec fn floor_sqrt(n: nat) -> nat
    decreases n,
{
    if n == 0 {
        0
    } else {
        let s = floor_sqrt((n - 1) as nat);
        if (s + 1) * (s + 1) <= n {
            s + 1
        } else {
            s
        }
    }
}

/// `floor_sqrt(n)` is squeezed between the adjacent squares.
pub proof fn lemma_floor_sqrt_bounds(n: nat)
    ensures
        floor_sqrt(n) * floor_sqrt(n) <= n,
        n < (floor_sqrt(n) + 1) * (floor_sqrt(n) + 1),
    decreases n,
{
    if n == 0 {
        assert(floor_sqrt(0) == 0);
        assert(0 * 0 == 0) by (nonlinear_arith);
        assert(0 < (0 + 1) * (0 + 1)) by (nonlinear_arith);
    } else {
        lemma_floor_sqrt_bounds((n - 1) as nat);
        let s = floor_sqrt((n - 1) as nat);
        if (s + 1) * (s + 1) <= n {
            assert(floor_sqrt(n) == s + 1);
            assert(n < (s + 2) * (s + 2)) by (nonlinear_arith)
                requires
                    s >= 0,
                    n <= (s + 1) * (s + 1),
            ;
        } else {
            assert(floor_sqrt(n) == s);
        }
    }
}

/// Any `r` squeezed between adjacent squares is `floor_sqrt(n)`.
pub proof fn lemma_floor_sqrt_unique(n: nat, r: nat)
    requires
        r * r <= n,
        n < (r + 1) * (r + 1),
    ensures
        r == floor_sqrt(n),
{
    lemma_floor_sqrt_bounds(n);
    let s = floor_sqrt(n);
    if r < s {
        assert((r + 1) * (r + 1) <= s * s) by (nonlinear_arith)
            requires
                r >= 0,
                r + 1 <= s,
        ;
    } else if r > s {
        assert((s + 1) * (s + 1) <= r * r) by (nonlinear_arith)
            requires
                s >= 0,
                s + 1 <= r,
        ;
    }
}

/// `floor_sqrt` is monotonic.
pub proof fn lemma_floor_sqrt_le(m: nat, n: nat)
    requires
        m <= n,
    ensures
        floor_sqrt(m) <= floor_sqrt(n),
{
    lemma_floor_sqrt_bounds(m);
    lemma_floor_sqrt_bounds(n);
    if floor_sqrt(m) > floor_sqrt(n) {
        assert((floor_sqrt(n) + 1) * (floor_sqrt(n) + 1) <= floor_sqrt(m) * floor_sqrt(m))
            by (nonlinear_arith)
            requires
                floor_sqrt(n) >= 0,
                floor_sqrt(n) + 1 <= floor_sqrt(m),
        ;
    }
}

/// Relies on num::integer::sqrt: it returns the truncated principal square
/// root of its argument.
#[verifier::external_body]
fn isqrt(n: u32) -> (r: u32)
    ensures
        (r as int) * (r as int) <= n as int,
        (n as int) < ((r as int) + 1) * ((r as int) + 1),
{
    num::integer::sqrt(n)
}

/// Returns the floor of the square root, pinned to `floor_sqrt` by the
/// squeeze bounds of the library call.
fn isqrt_floor(n: u32) -> (r: u32)
    ensures
        r as nat == floor_sqrt(n as nat),
{
    let r = isqrt(n);
    proof {
        lemma_floor_sqrt_unique(n as nat, r as nat);
    }
    r
}

/// The inputs on which a circle can be drawn: the squared radius fits the
/// 16-bit range the controller arithmetic works in, and all plotted points
/// stay inside the coordinate range.
pub open spec fn circle_in_bounds(xc: u16, yc: u16, r: u16) -> bool {
    r * r <= 0xFFFF && r <= xc && r <= yc && xc + r <= 0xFFFF && yc + r <= 0xFFFF
}

/// The octant iteration stops after ⌊r/√2⌋ + 1 columns.
pub open spec fn circle_x_end(r: u16) -> int {
    floor_sqrt(((r * r) / 2) as nat) as int + 1
}

/// The y extent of a circle of radius `r` at column offset `x`:
/// ⌊√(r² − x²)⌋.
pub open spec fn circle_y(r: u16, x: int) -> nat {
    floor_sqrt((r * r - x * x) as nat)
}

/// The eight symmetric pixels plotted around `(xc, yc)` for offsets
/// `(x, y)`, in the fixed plotting order.
pub open spec fn octant_events(
    t: Transport,
    xc: u16,
    yc: u16,
    x: int,
    y: int,
    hex: u16,
) -> Seq<EventModel> {
    pixel_events(t, (xc + x) as u16, (yc + y) as u16, hex) + pixel_events(
        t,
        (xc + x) as u16,
        (yc - y) as u16,
        hex,
    ) + pixel_events(t, (xc - x) as u16, (yc + y) as u16, hex) + pixel_events(
        t,
        (xc - x) as u16,
        (yc - y) as u16,
        hex,
    ) + pixel_events(t, (xc + y) as u16, (yc + x) as u16, hex) + pixel_events(
        t,
        (xc + y) as u16,
        (yc - x) as u16,
        hex,
    ) + pixel_events(t, (xc - y) as u16, (yc + x) as u16, hex) + pixel_events(
        t,
        (xc - y) as u16,
        (yc - x) as u16,
        hex,
    )
}

/// The circle-outline events of the first `n` columns: for each column
/// offset `x`, the eight symmetric points at extent `circle_y(r, x)`.
pub open spec fn circle_events_upto(
    t: Transport,
    xc: u16,
    yc: u16,
    r: u16,
    hex: u16,
    n: int,
) -> Seq<EventModel>
    decreases n,
{
    if n <= 0 {
        Seq::empty()
    } else {
        circle_events_upto(t, xc, yc, r, hex, n - 1) + octant_events(
            t,
            xc,
            yc,
            n - 1,
            circle_y(r, n - 1) as int,
            hex,
        )
    }
}

/// The events of a circle outline around `(xc, yc)` with radius `r`.
pub open spec fn circle_events(t: Transport, xc: u16, yc: u16, r: u16, hex: u16) -> Seq<
    EventModel,
> {
    circle_events_upto(t, xc, yc, r, hex, circle_x_end(r))
}

/// One filled-circle column pair: the vertical line at `xc + x` and its
/// mirror at `xc - x`, both spanning `yc ± circle_y(r, x)`.
pub open spec fn filled_circle_step(
    t: Transport,
    xc: u16,
    yc: u16,
    r: u16,
    hex: u16,
    x: int,
) -> Seq<EventModel> {
    let y = circle_y(r, x) as int;
    vline_events(t, (xc + x) as u16, (yc - y) as u16, (yc + y) as u16, hex) + vline_events(
        t,
        (xc - x) as u16,
        (yc - y) as u16,
        (yc + y) as u16,
        hex,
    )
}

/// The filled-circle events of the first `n` column pairs.
pub open spec fn filled_circle_events_upto(
    t: Transport,
    xc: u16,
    yc: u16,
    r: u16,
    hex: u16,
    n: int,
) -> Seq<EventModel>
    decreases n,
{
    if n <= 0 {
        Seq::empty()
    } else {
        filled_circle_events_upto(t, xc, yc, r, hex, n - 1) + filled_circle_step(
            t,
            xc,
            yc,
            r,
            hex,
            n - 1,
        )
    }
}

/// The events of a filled circle around `(xc, yc)` with radius `r`: one
/// mirrored column pair for each offset in `[0, r)`.
pub open spec fn filled_circle_events(t: Transport, xc: u16, yc: u16, r: u16, hex: u16) -> Seq<
    EventModel,
> {
    filled_circle_events_upto(t, xc, yc, r, hex, r as int)
}

impl ST7734 {
    /// Plots the eight symmetric circle points for offsets `(x, y)` around
    /// `(xc, yc)`.
    fn plot_octant(&mut self, xc: u16, yc: u16, x: u16, y: u16, color: &Color)
        requires
            x <= xc,
            y <= xc,
            x <= yc,
            y <= yc,
            xc + x <= 0xFFFF,
            xc + y <= 0xFFFF,
            yc + x <= 0xFFFF,
            yc + y <= 0xFFFF,
        ensures
            final(self).transport() == old(self).transport(),
            final(self).emitted() == old(self).emitted() + octant_events(
                old(self).transport(),
                xc,
                yc,
                x as int,
                y as int,
                color.hex,
            ),
    {
        let ghost t = self.transport();
        let ghost e0 = self.emitted();
        let ghost p1 = pixel_events(t, (xc + x) as u16, (yc + y) as u16, color.hex);
        let ghost p2 = pixel_events(t, (xc + x) as u16, (yc - y) as u16, color.hex);
        let ghost p3 = pixel_events(t, (xc - x) as u16, (yc + y) as u16, color.hex);
        let ghost p4 = pixel_events(t, (xc - x) as u16, (yc - y) as u16, color.hex);
        let ghost p5 = pixel_events(t, (xc + y) as u16, (yc + x) as u16, color.hex);
        let ghost p6 = pixel_events(t, (xc + y) as u16, (yc - x) as u16, color.hex);
        let ghost p7 = pixel_events(t, (xc - y) as u16, (yc + x) as u16, color.hex);
        let ghost p8 = pixel_events(t, (xc - y) as u16, (yc - x) as u16, color.hex);
        self.draw_pixel(xc + x, yc + y, color);
        self.draw_pixel(xc + x, yc - y, color);
        proof {
            lemma_concat_assoc(e0, p1, p2);
        }
        self.draw_pixel(xc - x, yc + y, color);
        proof {
            lemma_concat_assoc(e0, p1 + p2, p3);
        }
        self.draw_pixel(xc - x, yc - y, color);
        proof {
            lemma_concat_assoc(e0, (p1 + p2) + p3, p4);
        }
        self.draw_pixel(xc + y, yc + x, color);
        proof {
            lemma_concat_assoc(e0, ((p1 + p2) + p3) + p4, p5);
        }
        self.draw_pixel(xc + y, yc - x, color);
        proof {
            lemma_concat_assoc(e0, (((p1 + p2) + p3) + p4) + p5, p6);
        }
        self.draw_pixel(xc - y, yc + x, color);
        proof {
            lemma_concat_assoc(e0, ((((p1 + p2) + p3) + p4) + p5) + p6, p7);
        }
        self.draw_pixel(xc - y, yc - x, color);
        proof {
            lemma_concat_assoc(e0, (((((p1 + p2) + p3) + p4) + p5) + p6) + p7, p8);
        }
    }

    /// Draws the outline of a circle of `color` around `(x_pos, y_pos)`:
    /// for each column offset below ⌊radius/√2⌋ + 1 the eight symmetric
    /// points at extent ⌊√(radius² − x²)⌋ are each plotted once. Inputs
    /// whose squared radius leaves the 16-bit range or whose points would
    /// leave the coordinate range are rejected.
    pub fn draw_circle(&mut self, x_pos: u16, y_pos: u16, radius: u16, color: &Color) -> (r:
        Result<(), DriverError>)
        ensures
            final(self).transport() == old(self).transport(),
            circle_in_bounds(x_pos, y_pos, radius) ==> r is Ok && final(self).emitted() == old(
                self,
            ).emitted() + circle_events(old(self).transport(), x_pos, y_pos, radius, color.hex),
            !circle_in_bounds(x_pos, y_pos, radius) ==> r == Err::<(), DriverError>(
                DriverError::RadiusOutOfBounds,
            ) && final(self).emitted() == old(self).emitted(),
    {
        if radius > 255 || radius > x_pos || radius > y_pos || x_pos > 0xFFFF - radius || y_pos
            > 0xFFFF - radius {
            proof {
                if radius > 255 {
                    assert(radius * radius > 0xFFFF) by (nonlinear_arith)
                        requires
                            radius > 255,
                    ;
                }
            }
            return Err(DriverError::RadiusOutOfBounds);
        }
        proof {
            assert(radius * radius <= 0xFFFF) by (nonlinear_arith)
                requires
                    radius <= 255,
            ;
        }
        let ghost t = self.transport();
        let ghost e0 = self.emitted();
        let r2: u32 = (radius as u32) * (radius as u32);
        proof {
            assert(radius * radius < (radius + 1) * (radius + 1)) by (nonlinear_arith);
            lemma_floor_sqrt_unique(r2 as nat, radius as nat);
            lemma_floor_sqrt_le((r2 / 2) as nat, r2 as nat);
            lemma_floor_sqrt_bounds((r2 / 2) as nat);
        }
        let x_end: u32 = isqrt_floor(r2 / 2) + 1;
        let mut x: u32 = 0;
        while x < x_end
            invariant
                x <= x_end,
                x_end == circle_x_end(radius),
                x_end - 1 == floor_sqrt((r2 / 2) as nat),
                floor_sqrt((r2 / 2) as nat) <= radius,
                r2 == radius * radius,
                radius == floor_sqrt(r2 as nat),
                circle_in_bounds(x_pos, y_pos, radius),
                self.transport() == t,
                self.emitted() == e0 + circle_events_upto(
                    t,
                    x_pos,
                    y_pos,
                    radius,
                    color.hex,
                    x as int,
                ),
            decreases x_end - x,
        {
            proof {
                lemma_floor_sqrt_bounds((r2 / 2) as nat);
                assert(x * x <= (x_end - 1) * (x_end - 1)) by (nonlinear_arith)
                    requires
                        x <= x_end - 1,
                ;
            }
            let y32: u32 = isqrt_floor(r2 - x * x);
            proof {
                lemma_floor_sqrt_le((r2 - x * x) as nat, r2 as nat);
            }
            let ux: u16 = x as u16;
            let uy: u16 = y32 as u16;
            self.plot_octant(x_pos, y_pos, ux, uy, color);
            proof {
                lemma_concat_assoc(
                    e0,
                    circle_events_upto(t, x_pos, y_pos, radius, color.hex, x as int),
                    octant_events(
                        t,
                        x_pos,
                        y_pos,
                        x as int,
                        circle_y(radius, x as int) as int,
                        color.hex,
                    ),
                );
            }
            x = x + 1;
        }
        Ok(())
    }

    /// Draws a filled circle of `color` around `(x_pos, y_pos)`: for each
    /// column offset in `[0, radius)`, vertical lines spanning
    /// `y_pos ± ⌊√(radius² − x²)⌋` at `x_pos + x` and `x_pos - x`. The same
    /// inputs are rejected as for the outline.
    pub fn draw_filled_circle(&mut self, x_pos: u16, y_pos: u16, radius: u16, color: &Color) -> (r:
        Result<(), DriverError>)
        ensures
            final(self).transport() == old(self).transport(),
            circle_in_bounds(x_pos, y_pos, radius) ==> r is Ok && final(self).emitted() == old(
                self,
            ).emitted() + filled_circle_events(
                old(self).transport(),
                x_pos,
                y_pos,
                radius,
                color.hex,
            ),
            !circle_in_bounds(x_pos, y_pos, radius) ==> r == Err::<(), DriverError>(
                DriverError::RadiusOutOfBounds,
            ) && final(self).emitted() == old(self).emitted(),
    {
        if radius > 255 || radius > x_pos || radius > y_pos || x_pos > 0xFFFF - radius || y_pos
            > 0xFFFF - radius {
            proof {
                if radius > 255 {
                    assert(radius * radius > 0xFFFF) by (nonlinear_arith)
                        requires
                            radius > 255,
                    ;
                }
            }
            return Err(DriverError::RadiusOutOfBounds);
        }
        proof {
            assert(radius * radius <= 0xFFFF) by (nonlinear_arith)
                requires
                    radius <= 255,
            ;
        }
        let ghost t = self.transport();
        let ghost e0 = self.emitted();
        let r2: u32 = (radius as u32) * (radius as u32);
        proof {
            assert(radius * radius < (radius + 1) * (radius + 1)) by (nonlinear_arith);
            lemma_floor_sqrt_unique(r2 as nat, radius as nat);
        }
        let mut x: u32 = 0;
        while x < radius as u32
            invariant
                x <= radius,
                r2 == radius * radius,
                radius == floor_sqrt(r2 as nat),
                circle_in_bounds(x_pos, y_pos, radius),
                self.transport() == t,
                self.emitted() == e0 + filled_circle_events_upto(
                    t,
                    x_pos,
                    y_pos,
                    radius,
                    color.hex,
                    x as int,
                ),
            decreases radius - x,
        {
            proof {
                assert(x * x <= radius * radius) by (nonlinear_arith)
                    requires
                        x <= radius,
                ;
            }
            let y32: u32 = isqrt_floor(r2 - x * x);
            proof {
                lemma_floor_sqrt_le((r2 - x * x) as nat, r2 as nat);
            }
            let ux: u16 = x as u16;
            let uy: u16 = y32 as u16;
            self.vline_raw(x_pos + ux, y_pos - uy, y_pos + uy, color);
            let ghost v1 = vline_events(
                t,
                (x_pos + ux) as u16,
                (y_pos - uy) as u16,
                (y_pos + uy) as u16,
                color.hex,
            );
            self.vline_raw(x_pos - ux, y_pos - uy, y_pos + uy, color);
            let ghost v2 = vline_events(
                t,
                (x_pos - ux) as u16,
                (y_pos - uy) as u16,
                (y_pos + uy) as u16,
                color.hex,
            );
            proof {
                lemma_concat_assoc(
                    e0 + filled_circle_events_upto(t, x_pos, y_pos, radius, color.hex, x as int),
                    v1,
                    v2,
                );
                lemma_concat_assoc(
                    e0,
                    filled_circle_events_upto(t, x_pos, y_pos, radius, color.hex, x as int),
                    v1 + v2,
                );
            }
            x = x + 1;
        }
        Ok(())
    }
}

/// A circle of radius zero plots exactly the center point: its event stream
/// is the one octant step, eight writes of the pixel at `(xc, yc)`.
pub proof fn lemma_circle_radius_zero(t: Transport, xc: u16, yc: u16, hex: u16)
    ensures
        circle_events(t, xc, yc, 0, hex) == pixel_events(t, xc, yc, hex) + pixel_events(
            t,
            xc,
            yc,
            hex,
        ) + pixel_events(t, xc, yc, hex) + pixel_events(t, xc, yc, hex) + pixel_events(
            t,
            xc,
            yc,
            hex,
        ) + pixel_events(t, xc, yc, hex) + pixel_events(t, xc, yc, hex) + pixel_events(
            t,
            xc,
            yc,
            hex,
        ),
{
    assert(floor_sqrt(0) == 0);
    assert(circle_x_end(0) == 1);
    assert(circle_y(0, 0) == 0);
    assert(circle_events_upto(t, xc, yc, 0, hex, 0) =~= Seq::<EventModel>::empty());
    assert(circle_events(t, xc, yc, 0, hex) =~= octant_events(t, xc, yc, 0, 0, hex));
}

/// Filled-circle symmetry: for every column offset the two vertical lines
/// at `xc + x` and `xc - x` share the same vertical extent
/// `yc ± circle_y(r, x)`.
pub proof fn lemma_filled_circle_symmetric(
    t: Transport,
    xc: u16,
    yc: u16,
    r: u16,
    hex: u16,
    x: int,
)
    requires
        0 <= x < r,
        circle_in_bounds(xc, yc, r),
    ensures
        filled_circle_step(t, xc, yc, r, hex, x) == vline_events(
            t,
            (xc + x) as u16,
            (yc - circle_y(r, x)) as u16,
            (yc + circle_y(r, x)) as u16,
            hex,
        ) + vline_events(
            t,
            (xc - x) as u16,
            (yc - circle_y(r, x)) as u16,
            (yc + circle_y(r, x)) as u16,
            hex,
        ),
{
}

} // verus!
