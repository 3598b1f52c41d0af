//! Colours of the text-mode display and of the framebuffer.

use vstd::prelude::*;

verus! {

/// The sixteen colours of a VGA text-mode cell.
#[derive(Clone, Copy, Debug, PartialEq, Eq, Structural)]
pub enum Color {
    Black,
    Blue,
    Green,
    Cyan,
    Red,
    Magenta,
    Brown,
    LightGray,
    DarkGray,
    LightBlue,
    LightGreen,
    LightCyan,
    LightRed,
    Pink,
    Yellow,
    White,
}

/// The four-bit hardware number of a colour.
pub open spec fn color_number(c: Color) -> u8 {
    match c {
        Color::Black => 0,
        Color::Blue => 1,
        Color::Green => 2,
        Color::Cyan => 3,
        Color::Red => 4,
        Color::Magenta => 5,
        Color::Brown => 6,
        Color::LightGray => 7,
        Color::DarkGray => 8,
        Color::LightBlue => 9,
        Color::LightGreen => 10,
        Color::LightCyan => 11,
        Color::LightRed => 12,
        Color::Pink => 13,
        Color::Yellow => 14,
        Color::White => 15,
    }
}

impl Color {
    /// The four-bit hardware number of this colour.
    pub fn number(self) -> (r: u8)
        ensures
            r == color_number(self),
            r < 16,
    {
        match self {
            Color::Black => 0,
            Color::Blue => 1,
            Color::Green => 2,
            Color::Cyan => 3,
            Color::Red => 4,
            Color::Magenta => 5,
            Color::Brown => 6,
            Color::LightGray => 7,
            Color::DarkGray => 8,
            Color::LightBlue => 9,
            Color::LightGreen => 10,
            Color::LightCyan => 11,
            Color::LightRed => 12,
            Color::Pink => 13,
            Color::Yellow => 14,
            Color::White => 15,
        }
    }
}

/// The attribute byte of a text-mode cell: background in the high nibble,
/// foreground in the low one.
#[derive(Clone, Copy, Debug, PartialEq, Eq, Structural)]
pub struct ColorCode(pub u8);

impl ColorCode {
    pub fn new(fg: Color, bg: Color) -> (r: ColorCode)
        ensures
            r.0 == color_number(bg) * 16 + color_number(fg),
    {
        let f = fg.number();
        let b = bg.number();
        let v: u8 = (b << 4u8) | f;
        assert(v == b * 16 + f) by (bit_vector)
            requires
                v == (b << 4u8) | f,
                f < 16,
                b < 16,
        ;
        ColorCode(v)
    }
}

/// Packs red, green and blue into a 0x00RRGGBB framebuffer pixel.
pub fn to_color(r: u8, g: u8, b: u8) -> (c: u32)
    ensures
        c == r as u32 * 65536 + g as u32 * 256 + b as u32,
{
    let rr = r as u32;
    let gg = g as u32;
    let bb = b as u32;
    let c: u32 = (rr << 16u32) | (gg << 8u32) | bb;
    assert(c == rr * 65536 + gg * 256 + bb) by (bit_vector)
        requires
            c == (rr << 16u32) | (gg << 8u32) | bb,
            rr < 256,
            gg < 256,
            bb < 256,
    ;
    c
}

} // verus!
