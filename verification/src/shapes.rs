//! The annotation shapes and their colours.
//!
//! Coordinates are whole pixels of the image, stroke widths and font sizes
//! whole units. Rectangles and blur regions are normalised: `(x, y)` is the
//! corner with the smallest coordinates.

use vstd::prelude::*;
use vstd::string::*;
use crate::hex::{digit_value, hex_digit};

verus! {

/// A colour, eight bits per channel; `a == 255` is opaque.
#[derive(Debug, Clone, Copy, PartialEq, Eq, Structural)]
pub struct Color {
    pub r: u8,
    pub g: u8,
    pub b: u8,
    pub a: u8,
}

/// The byte `#`.
pub const HASH: u8 = 0x23;

/// The byte `+`.
pub const PLUS: u8 = 0x2b;

/// Value of two bytes read as a hexadecimal number: two digits, or a plus
/// sign and one digit.
pub open spec fn hex_pair(hi: u8, lo: u8) -> Option<u8> {
    match hex_digit(lo) {
        None => None,
        Some(l) => if hi == PLUS {
            Some(l)
        } else {
            match hex_digit(hi) {
                None => None,
                Some(h) => Some((h * 16 + l) as u8),
            }
        },
    }
}

/// Index of the first byte at or after `from` that is not `#`.
pub open spec fn after_hashes(bytes: Seq<u8>, from: int) -> int
    decreases bytes.len() - from,
{
    if 0 <= from < bytes.len() && bytes[from] == HASH {
        after_hashes(bytes, from + 1)
    } else {
        from
    }
}

/// The channel written at `bytes[at]` and `bytes[at + 1]`, or `fallback`
/// where those two bytes are missing or no hexadecimal number.
pub open spec fn channel_at(bytes: Seq<u8>, at: int, fallback: u8) -> u8 {
    if 0 <= at && at + 2 <= bytes.len() {
        match hex_pair(bytes[at], bytes[at + 1]) {
            Some(v) => v,
            None => fallback,
        }
    } else {
        fallback
    }
}

/// The colour that a hex string such as `#rrggbb` stands for. Leading `#`
/// are skipped; a channel that cannot be read is 255 for red and 0 for
/// green and blue. The colour is opaque.
pub open spec fn color_of_hex(bytes: Seq<u8>) -> Color {
    let at = after_hashes(bytes, 0);
    Color {
        r: channel_at(bytes, at, 255),
        g: channel_at(bytes, at + 2, 0),
        b: channel_at(bytes, at + 4, 0),
        a: 255,
    }
}

fn read_channel(bytes: &[u8], at: usize, fallback: u8) -> (value: u8)
    ensures
        value == channel_at(bytes@, at as int, fallback),
{
    if at >= bytes.len() || bytes.len() - at < 2 {
        return fallback;
    }
    let hi: u8 = bytes[at];
    let lo: u8 = bytes[at + 1];
    match digit_value(lo) {
        None => fallback,
        Some(l) => if hi == PLUS {
            l
        } else {
            match digit_value(hi) {
                None => fallback,
                Some(h) => h * 16 + l,
            }
        },
    }
}

impl Color {
    /// Reads a colour from a hex string; see [`color_of_hex`].
    pub fn from_hex(hex: &str) -> (color: Color)
        ensures
            color == color_of_hex(hex.spec_bytes()),
    {
        let bytes = hex.as_bytes();
        let mut at: usize = 0;
        while at < bytes.len() && bytes[at] == HASH
            invariant
                at <= bytes@.len(),
                after_hashes(bytes@, 0) == after_hashes(bytes@, at as int),
            decreases bytes@.len() - at,
        {
            at = at + 1;
        }
        let r: u8 = read_channel(bytes, at, 255);
        let g: u8 = if bytes.len() - at >= 2 {
            read_channel(bytes, at + 2, 0)
        } else {
            0
        };
        let b: u8 = if bytes.len() - at >= 4 {
            read_channel(bytes, at + 4, 0)
        } else {
            0
        };
        Color { r, g, b, a: 255 }
    }
}

/// A straight line from `start` to `end` with a head at `end`.
#[derive(Debug, Clone, Copy, PartialEq, Eq)]
pub struct ArrowShape {
    pub start: (i32, i32),
    pub end: (i32, i32),
    pub color: Color,
    pub line_width: u32,
}

/// The outline of a rectangle.
#[derive(Debug, Clone, Copy, PartialEq, Eq, Structural)]
pub struct RectShape {
    pub x: i32,
    pub y: i32,
    pub width: u32,
    pub height: u32,
    pub color: Color,
    pub line_width: u32,
}

/// A line of text anchored at `(x, y)`.
#[derive(Debug, Clone, PartialEq, Eq)]
pub struct TextShape {
    pub x: i32,
    pub y: i32,
    pub text: String,
    pub color: Color,
    pub font_size: u32,
}

/// A stroke through `points`, in the order they were recorded.
#[derive(Debug, Clone, PartialEq, Eq)]
pub struct FreehandShape {
    pub points: Vec<(i32, i32)>,
    pub color: Color,
    pub line_width: u32,
}

/// A region to pixelate with blocks of edge `block_size`.
#[derive(Debug, Clone, Copy, PartialEq, Eq, Structural)]
pub struct BlurShape {
    pub x: i32,
    pub y: i32,
    pub width: u32,
    pub height: u32,
    pub block_size: u32,
}

/// One annotation.
#[derive(Debug, Clone, PartialEq, Eq)]
pub enum Shape {
    Arrow(ArrowShape),
    Rectangle(RectShape),
    Text(TextShape),
    Freehand(FreehandShape),
    Blur(BlurShape),
}

/// What a [`TextShape`] holds, as mathematical values.
pub struct TextModel {
    pub x: i32,
    pub y: i32,
    pub text: Seq<char>,
    pub color: Color,
    pub font_size: u32,
}

/// What a [`FreehandShape`] holds, as mathematical values.
pub struct FreehandModel {
    pub points: Seq<(i32, i32)>,
    pub color: Color,
    pub line_width: u32,
}

/// What a [`Shape`] holds, as mathematical values.
pub enum ShapeModel {
    Arrow(ArrowShape),
    Rectangle(RectShape),
    Text(TextModel),
    Freehand(FreehandModel),
    Blur(BlurShape),
}

impl View for TextShape {
    type V = TextModel;

    open spec fn view(&self) -> TextModel {
        TextModel {
            x: self.x,
            y: self.y,
            text: self.text@,
            color: self.color,
            font_size: self.font_size,
        }
    }
}

impl View for FreehandShape {
    type V = FreehandModel;

    open spec fn view(&self) -> FreehandModel {
        FreehandModel { points: self.points@, color: self.color, line_width: self.line_width }
    }
}

impl View for Shape {
    type V = ShapeModel;

    open spec fn view(&self) -> ShapeModel {
        match self {
            Shape::Arrow(a) => ShapeModel::Arrow(*a),
            Shape::Rectangle(r) => ShapeModel::Rectangle(*r),
            Shape::Text(t) => ShapeModel::Text(t@),
            Shape::Freehand(f) => ShapeModel::Freehand(f@),
            Shape::Blur(b) => ShapeModel::Blur(*b),
        }
    }
}

impl Shape {
    /// Whether this is a blur region.
    pub fn is_blur(&self) -> (blur: bool)
        ensures
            blur == (self is Blur),
    {
        match self {
            Shape::Blur(_) => true,
            _ => false,
        }
    }
}

/// The views of some optional shape.
pub open spec fn view_of(shape: Option<Shape>) -> Option<ShapeModel> {
    match shape {
        Some(s) => Some(s@),
        None => None,
    }
}

} // verus!
