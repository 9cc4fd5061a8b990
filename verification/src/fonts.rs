//! The font capability: a function from a character to its fixed
//! five-column bitmap. The driver never hard-codes a glyph table; callers
//! supply one through this trait.

use vstd::prelude::*;

verus! {

/// A font that can render characters on the display. A glyph is five column
/// bytes; bit `row` of column `col` set means the glyph covers that cell,
/// for rows `0..7`.
pub trait Font {
    /// The five column bytes of the bitmap for `c`.
    spec fn glyph(c: char) -> Seq<u8>;

    /// Returns the column bitmap of `c`.
    fn get_char(c: char) -> (r: Vec<u8>)
        ensures
            r@ == Self::glyph(c),
            r@.len() == 5,
    ;
}

} // verus!
