//! Layer colours and the palette that new layers draw from.

use vstd::prelude::*;

verus! {

/// An opaque colour with 8-bit red, green and blue channels.
#[derive(Clone, Copy, Debug, PartialEq, Eq, Structural)]
pub struct Color {
    pub r: u8,
    pub g: u8,
    pub b: u8,
}

/// The number of colours in the palette.
pub const PALETTE_SIZE: u64 = 10;

/// The palette: the ten colours of the "category 10" scheme, in order.
/// Positions outside the palette give black.
pub open spec fn palette_color(index: int) -> Color {
    if index == 0 {
        Color { r: 0x1f, g: 0x77, b: 0xb4 }
    } else if index == 1 {
        Color { r: 0xff, g: 0x7f, b: 0x0e }
    } else if index == 2 {
        Color { r: 0x2c, g: 0xa0, b: 0x2c }
    } else if index == 3 {
        Color { r: 0xd6, g: 0x27, b: 0x28 }
    } else if index == 4 {
        Color { r: 0x94, g: 0x67, b: 0xbd }
    } else if index == 5 {
        Color { r: 0x8c, g: 0x56, b: 0x4b }
    } else if index == 6 {
        Color { r: 0xe3, g: 0x77, b: 0xc2 }
    } else if index == 7 {
        Color { r: 0x7f, g: 0x7f, b: 0x7f }
    } else if index == 8 {
        Color { r: 0xbc, g: 0xbd, b: 0x22 }
    } else if index == 9 {
        Color { r: 0x17, g: 0xbe, b: 0xcf }
    } else {
        Color { r: 0, g: 0, b: 0 }
    }
}

/// The colour that the layer with the given creation number receives: the
/// palette is walked in order and starts over after its last colour.
pub open spec fn cyclic_color(created_before: nat) -> Color {
    palette_color((created_before % 10) as int)
}

/// Reads one entry of `colorous::CATEGORY10`. The contract repeats the ten
/// entries as that crate's source lists them; it is not proved.
#[verifier::external_body]
fn category10(index: usize) -> (color: Color)
    requires
        index < 10,
    ensures
        color == palette_color(index as int),
{
    let entry = colorous::CATEGORY10[index];
    Color { r: entry.r, g: entry.g, b: entry.b }
}

/// The colour for the layer that is created after `created_before` others.
pub fn next_colorous_color(created_before: u64) -> (color: Color)
    ensures
        color == cyclic_color(created_before as nat),
{
    category10(next_color_index(created_before))
}

/// The palette position for the layer that is created after
/// `created_before` others.
pub fn next_color_index(created_before: u64) -> (index: usize)
    ensures
        index == created_before % 10,
        index < 10,
{
    let position: u64 = created_before % PALETTE_SIZE;
    position as usize
}

} // verus!
