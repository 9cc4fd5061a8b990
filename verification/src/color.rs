use vstd::prelude::*;

verus! {

/// Packs red, green and blue components into a 16-bit 565 value: the low
/// 5 bits of `red`, the low 6 of `green` and the low 5 of `blue`, laid out
/// red-green-blue from the most significant end.
pub open spec fn rgb565(red: u16, green: u16, blue: u16) -> u16 {
    (((red & 0x1F) << 11) + ((green & 0x3F) << 5) + (blue & 0x1F)) as u16
}

/// A pixel color, stored as its 16-bit 565 packed value.
#[derive(Clone, Copy, PartialEq, Eq, Structural, Debug)]
pub struct Color {
    pub hex: u16,
}

impl Color {
    /// Wraps an already-packed 565 value.
    pub fn from_hex(hex: u16) -> (c: Color)
        ensures
            c.hex == hex,
    {
        Color { hex }
    }

    /// Looks up the packed value of a named color.
    pub fn from_default(default_color: DefaultColor) -> (c: Color)
        ensures
            c.hex == default_color.spec_hex(),
    {
        Color { hex: default_color.hex_value() }
    }

    /// Packs the masked components `red & 0x1F`, `green & 0x3F`, `blue & 0x1F`.
    pub fn from_rgb(red: u16, green: u16, blue: u16) -> (c: Color)
        ensures
            c.hex == rgb565(red, green, blue),
    {
        let r = red & 0x1F;
        let g = green & 0x3F;
        let b = blue & 0x1F;
        assert(((red & 0x1F) << 11) + ((green & 0x3F) << 5) + (blue & 0x1F) <= 0xFFFF)
            by (bit_vector);
        Color { hex: (r << 11) + (g << 5) + b }
    }
}

/// Extracting the three packed fields of a 565 value built by `rgb565`
/// recovers exactly the masked inputs.
pub proof fn lemma_rgb565_round_trip(red: u16, green: u16, blue: u16)
    ensures
        (rgb565(red, green, blue) >> 11) & 0x1F == red & 0x1F,
        (rgb565(red, green, blue) >> 5) & 0x3F == green & 0x3F,
        rgb565(red, green, blue) & 0x1F == blue & 0x1F,
{
    assert((rgb565(red, green, blue) >> 11) & 0x1F == red & 0x1F) by (bit_vector);
    assert((rgb565(red, green, blue) >> 5) & 0x3F == green & 0x3F) by (bit_vector);
    assert(rgb565(red, green, blue) & 0x1F == blue & 0x1F) by (bit_vector);
}

/// The named colors and their fixed 565 packed values.
#[derive(Clone, Copy, PartialEq, Eq, Structural, Debug)]
pub enum DefaultColor {
    Black,
    White,
    Red,
    Green,
    Blue,
    Lime,
    Cyan,
    Magenta,
    Yellow,
    Purple,
    Navy,
    Teal,
    Olive,
    Gray,
}

impl DefaultColor {
    /// The packed 565 value of this named color.
    pub open spec fn spec_hex(self) -> u16 {
        match self {
            DefaultColor::Black => 0x0000,
            DefaultColor::White => 0xFFFF,
            DefaultColor::Red => 0xF800,
            DefaultColor::Green => 0x0400,
            DefaultColor::Blue => 0x001F,
            DefaultColor::Lime => 0x07E0,
            DefaultColor::Cyan => 0x07FF,
            DefaultColor::Magenta => 0xF81F,
            DefaultColor::Yellow => 0xFFE0,
            DefaultColor::Purple => 0x8010,
            DefaultColor::Navy => 0x0010,
            DefaultColor::Teal => 0x0410,
            DefaultColor::Olive => 0x8400,
            DefaultColor::Gray => 0x8410,
        }
    }

    /// Returns the packed 565 value of this named color.
    pub fn hex_value(self) -> (v: u16)
        ensures
            v == self.spec_hex(),
    {
        match self {
            DefaultColor::Black => 0x0000,
            DefaultColor::White => 0xFFFF,
            DefaultColor::Red => 0xF800,
            DefaultColor::Green => 0x0400,
            DefaultColor::Blue => 0x001F,
            DefaultColor::Lime => 0x07E0,
            DefaultColor::Cyan => 0x07FF,
            DefaultColor::Magenta => 0xF81F,
            DefaultColor::Yellow => 0xFFE0,
            DefaultColor::Purple => 0x8010,
            DefaultColor::Navy => 0x0010,
            DefaultColor::Teal => 0x0410,
            DefaultColor::Olive => 0x8400,
            DefaultColor::Gray => 0x8410,
        }
    }
}

} // verus!
