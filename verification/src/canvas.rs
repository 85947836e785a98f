//! Colors and rectangles shared by the drawing state and the renderers.

use vstd::prelude::*;
use vstd::string::StrSliceExecFns;

use crate::text::same_text;

verus! {

/// A color with an alpha channel, one byte per channel.
#[derive(Debug, Clone, Copy, PartialEq, Eq, Structural)]
pub struct Color {
    pub a: u8,
    pub r: u8,
    pub g: u8,
    pub b: u8,
}

impl Color {
    /// An opaque color.
    pub fn rgb(r: u8, g: u8, b: u8) -> (res: Self)
        ensures
            res == (Color { a: 255, r, g, b }),
    {
        Self { a: 255, r, g, b }
    }

    /// Opaque red.
    #[verifier::allow_in_spec]
    pub fn red() -> Self
        returns
            (Color { a: 255, r: 255, g: 0, b: 0 }),
    {
        Color { a: 255, r: 255, g: 0, b: 0 }
    }

    /// Opaque green.
    #[verifier::allow_in_spec]
    pub fn green() -> Self
        returns
            (Color { a: 255, r: 0, g: 255, b: 0 }),
    {
        Color { a: 255, r: 0, g: 255, b: 0 }
    }

    /// Opaque blue.
    #[verifier::allow_in_spec]
    pub fn blue() -> Self
        returns
            (Color { a: 255, r: 0, g: 0, b: 255 }),
    {
        Color { a: 255, r: 0, g: 0, b: 255 }
    }

    /// Opaque yellow.
    #[verifier::allow_in_spec]
    pub fn yellow() -> Self
        returns
            (Color { a: 255, r: 255, g: 255, b: 0 }),
    {
        Color { a: 255, r: 255, g: 255, b: 0 }
    }

    /// Opaque magenta.
    #[verifier::allow_in_spec]
    pub fn magenta() -> Self
        returns
            (Color { a: 255, r: 255, g: 0, b: 255 }),
    {
        Color { a: 255, r: 255, g: 0, b: 255 }
    }

    /// Opaque cyan.
    #[verifier::allow_in_spec]
    pub fn cyan() -> Self
        returns
            (Color { a: 255, r: 0, g: 255, b: 255 }),
    {
        Color { a: 255, r: 0, g: 255, b: 255 }
    }

    /// Opaque black.
    #[verifier::allow_in_spec]
    pub fn black() -> Self
        returns
            (Color { a: 255, r: 0, g: 0, b: 0 }),
    {
        Color { a: 255, r: 0, g: 0, b: 0 }
    }

    /// Opaque white.
    #[verifier::allow_in_spec]
    pub fn white() -> Self
        returns
            (Color { a: 255, r: 255, g: 255, b: 255 }),
    {
        Color { a: 255, r: 255, g: 255, b: 255 }
    }

    /// Fully transparent black.
    #[verifier::allow_in_spec]
    pub fn transparent() -> Self
        returns
            (Color { a: 0, r: 0, g: 0, b: 0 }),
    {
        Color { a: 0, r: 0, g: 0, b: 0 }
    }
}

/// The value of a hexadecimal digit, of either case.
pub open spec fn hex_value(c: char) -> Option<u8> {
    let v = c as u32;
    if 0x30 <= v <= 0x39 {
        Some((v - 0x30) as u8)
    } else if 0x61 <= v <= 0x66 {
        Some((v - 0x61 + 10) as u8)
    } else if 0x41 <= v <= 0x46 {
        Some((v - 0x41 + 10) as u8)
    } else {
        None
    }
}

/// The byte written by two hexadecimal digits, high one first.
pub open spec fn hex_byte(hi: char, lo: char) -> Option<u8> {
    match (hex_value(hi), hex_value(lo)) {
        (Some(h), Some(l)) => Some((h * 16 + l) as u8),
        _ => None,
    }
}

/// The color a configuration names: one of the named colors (red, green,
/// blue, yellow, magenta, cyan, black, white, transparent) or an opaque
/// `#rrggbb`.
pub open spec fn color_named(name: Seq<char>) -> Option<Color> {
    if name == "red"@ {
        Some(Color::red())
    } else if name == "green"@ {
        Some(Color::green())
    } else if name == "blue"@ {
        Some(Color::blue())
    } else if name == "yellow"@ {
        Some(Color::yellow())
    } else if name == "magenta"@ {
        Some(Color::magenta())
    } else if name == "cyan"@ {
        Some(Color::cyan())
    } else if name == "black"@ {
        Some(Color::black())
    } else if name == "white"@ {
        Some(Color::white())
    } else if name == "transparent"@ {
        Some(Color::transparent())
    } else if name.len() == 7 && name[0] == '#' {
        match (hex_byte(name[1], name[2]), hex_byte(name[3], name[4]), hex_byte(name[5], name[6])) {
            (Some(r), Some(g), Some(b)) => Some(Color { a: 255, r, g, b }),
            _ => None,
        }
    } else {
        None
    }
}

fn hex_digit(c: char) -> (res: Option<u8>)
    ensures
        res == hex_value(c),
{
    let v = c as u32;
    if 0x30 <= v && v <= 0x39 {
        Some((v - 0x30) as u8)
    } else if 0x61 <= v && v <= 0x66 {
        Some((v - 0x61 + 10) as u8)
    } else if 0x41 <= v && v <= 0x46 {
        Some((v - 0x41 + 10) as u8)
    } else {
        None
    }
}

fn hex_pair(hi: char, lo: char) -> (res: Option<u8>)
    ensures
        res == hex_byte(hi, lo),
{
    match (hex_digit(hi), hex_digit(lo)) {
        (Some(h), Some(l)) => Some(h * 16 + l),
        _ => None,
    }
}

impl Color {
    /// The color that `name` names, if any: see [`color_named`].
    pub fn from_name(name: &str) -> (res: Option<Color>)
        ensures
            res == color_named(name@),
    {
        if same_text(name, "red") {
            Some(Color::red())
        } else if same_text(name, "green") {
            Some(Color::green())
        } else if same_text(name, "blue") {
            Some(Color::blue())
        } else if same_text(name, "yellow") {
            Some(Color::yellow())
        } else if same_text(name, "magenta") {
            Some(Color::magenta())
        } else if same_text(name, "cyan") {
            Some(Color::cyan())
        } else if same_text(name, "black") {
            Some(Color::black())
        } else if same_text(name, "white") {
            Some(Color::white())
        } else if same_text(name, "transparent") {
            Some(Color::transparent())
        } else if name.unicode_len() == 7 && name.get_char(0) == '#' {
            let r = hex_pair(name.get_char(1), name.get_char(2));
            let g = hex_pair(name.get_char(3), name.get_char(4));
            let b = hex_pair(name.get_char(5), name.get_char(6));
            match (r, g, b) {
                (Some(r), Some(g), Some(b)) => Some(Color { a: 255, r, g, b }),
                _ => None,
            }
        } else {
            None
        }
    }
}

/// A rectangle in pixels.
#[derive(Debug, Clone, Copy, PartialEq, Eq, Structural)]
pub struct Rect {
    pub x: i32,
    pub y: i32,
    pub width: i32,
    pub height: i32,
}

impl Rect {
    /// A rectangle from its origin and size.
    pub fn new(x: i32, y: i32, width: i32, height: i32) -> (res: Self)
        ensures
            res == (Rect { x, y, width, height }),
    {
        Rect { x, y, width, height }
    }
}


/// A position on the surface, in units of 1/256 pixel: the fixed-point
/// format in which Wayland reports pointer and stylus positions.
#[derive(Debug, Clone, Copy, PartialEq, Eq, Structural)]
pub struct Point {
    pub x: i32,
    pub y: i32,
}

/// Division by 256 rounding toward zero, as a cast of a float to an integer
/// does.
pub open spec fn to_pixel(v: int) -> int {
    if v >= 0 {
        v / 256
    } else {
        -((-v) / 256)
    }
}

fn to_pixel_exec(v: i32) -> (res: i32)
    ensures
        res == to_pixel(v as int),
        -8_388_608 <= res <= 8_388_607,
{
    let w = v as i64;
    if w >= 0 {
        (w / 256) as i32
    } else {
        (-((-w) / 256)) as i32
    }
}

impl Point {
    /// The whole pixel the point lies in, each coordinate rounded toward
    /// zero.
    pub open spec fn spec_pixel(self) -> PixelPos {
        PixelPos { x: to_pixel(self.x as int) as i32, y: to_pixel(self.y as int) as i32 }
    }

    /// The whole pixel the point lies in, each coordinate rounded toward
    /// zero.
    pub fn pixel(self) -> (res: PixelPos)
        ensures
            res == self.spec_pixel(),
            res.bounded(),
    {
        PixelPos { x: to_pixel_exec(self.x), y: to_pixel_exec(self.y) }
    }
}

/// A pixel position on the surface.
#[derive(Debug, Clone, Copy, PartialEq, Eq, Structural)]
pub struct PixelPos {
    pub x: i32,
    pub y: i32,
}

impl PixelPos {
    /// Whether the position comes from a [`Point`]: each coordinate lies
    /// within 2^23 of the origin.
    pub open spec fn bounded(self) -> bool {
        -8_388_608 <= self.x <= 8_388_607 && -8_388_608 <= self.y <= 8_388_607
    }
}

} // verus!
