//! Paint attributes of a surface. Each is optional on the surface and set
//! independently of the others.

use vstd::prelude::*;
use crate::geometry::LayoutVector2D;

verus! {

/// Red, green, blue and alpha, eight bits each.
#[derive(Clone, Copy, Debug, PartialEq, Eq, Structural)]
pub struct Color(pub u8, pub u8, pub u8, pub u8);

/// How one side of a border is drawn.
#[derive(Clone, Copy, Debug, PartialEq, Eq, Structural)]
pub enum BorderStyle {
    /// Nothing is drawn for the side.
    Blank,
    Solid,
}

/// One side of a border.
#[derive(Clone, Copy, Debug, PartialEq, Eq, Structural)]
pub struct BorderSide {
    pub width: i32,
    pub color: Color,
    pub style: BorderStyle,
}

/// The four sides of a border.
#[derive(Clone, Copy, Debug, PartialEq, Eq, Structural)]
pub struct Border {
    pub top: BorderSide,
    pub right: BorderSide,
    pub bottom: BorderSide,
    pub left: BorderSide,
}

/// Corner radii in the order top left, top right, bottom right, bottom left.
#[derive(Clone, Copy, Debug, PartialEq, Eq, Structural)]
pub struct BorderRadius(pub i32, pub i32, pub i32, pub i32);

/// A shadow cast by the box of a surface.
#[derive(Clone, Copy, Debug, PartialEq, Eq, Structural)]
pub struct BoxShadow {
    pub offset: LayoutVector2D,
    pub blur: i32,
    pub spread: i32,
    pub color: Color,
}

/// A reference to an image, by the location of its payload.
#[derive(Clone, Debug)]
pub struct Image {
    pub url: String,
}

/// A run of text.
#[derive(Clone, Debug)]
pub struct Text {
    pub text: String,
    pub font_size: u32,
    pub line_height: u32,
    pub color: Color,
}

impl BorderRadius {
    /// Square corners.
    pub fn zero() -> (radius: Self)
        ensures
            radius == BorderRadius(0, 0, 0, 0),
    {
        BorderRadius(0, 0, 0, 0)
    }

    /// The same radius on every corner.
    pub fn uniform(radius: i32) -> (all: Self)
        ensures
            all == BorderRadius(radius, radius, radius, radius),
    {
        BorderRadius(radius, radius, radius, radius)
    }
}

impl Border {
    /// The same side on all four edges.
    pub fn uniform(side: BorderSide) -> (border: Self)
        ensures
            border == (Border { top: side, right: side, bottom: side, left: side }),
    {
        Border { top: side, right: side, bottom: side, left: side }
    }
}

} // verus!
