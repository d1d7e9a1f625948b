//! How the charts look: colours, strokes and the size of the plot box.

use vstd::prelude::*;

verus! {

/// A colour, by its red, green, blue and alpha parts.
#[derive(Clone, Copy, Debug, PartialEq, Eq, Structural)]
pub struct Color {
    /// The red part.
    pub r: u8,
    /// The green part.
    pub g: u8,
    /// The blue part.
    pub b: u8,
    /// The alpha part; `255` is opaque.
    pub a: u8,
}

impl Color {
    /// Opaque white.
    pub open spec fn spec_white() -> Color {
        Color { r: 255, g: 255, b: 255, a: 255 }
    }

    /// Opaque white.
    #[verifier::when_used_as_spec(spec_white)]
    pub fn white() -> (color: Color)
        ensures
            color == Color::spec_white(),
    {
        Color { r: 255, g: 255, b: 255, a: 255 }
    }
}

/// A stroke: the width of the line in pixels, and its colour.
#[derive(Clone, Copy, Debug, PartialEq, Eq, Structural)]
pub struct Stroke {
    /// The width of the line, in pixels.
    pub width: u32,
    /// The colour of the line.
    pub color: Color,
}

/// The look that all charts share.
#[derive(Clone, Copy, Debug, PartialEq, Eq, Structural)]
pub struct Style {
    /// The colour of the labels.
    pub text_color: Color,
    /// The stroke of the border of the plot box.
    pub rectangle_stroke: Stroke,
    /// The stroke of the line through the measurements.
    pub line_stroke: Stroke,
    /// The width of the plot box, in pixels.
    pub width: u32,
    /// The height of the plot box, in pixels.
    pub height: u32,
}

impl Style {
    /// The look that is used where none was asked for: white labels, white
    /// strokes one pixel wide, a plot box of 200 by 100 pixels.
    pub open spec fn spec_default() -> Style {
        Style {
            text_color: Color::spec_white(),
            rectangle_stroke: Stroke { width: 1, color: Color::spec_white() },
            line_stroke: Stroke { width: 1, color: Color::spec_white() },
            width: 200,
            height: 100,
        }
    }
}

impl Default for Style {
    fn default() -> (style: Style)
        ensures
            style == Style::spec_default(),
    {
        Style {
            text_color: Color::white(),
            rectangle_stroke: Stroke { width: 1, color: Color::white() },
            line_stroke: Stroke { width: 1, color: Color::white() },
            width: 200,
            height: 100,
        }
    }
}

} // verus!
