//! What the reduction hands to a renderer.

use vstd::prelude::*;

verus! {

/// A colour as red, green and blue intensities.
#[derive(Clone, Copy, Debug, PartialEq, Eq, Structural)]
pub struct Color {
    pub red: u8,
    pub green: u8,
    pub blue: u8,
}

impl Color {
    /// Pure green.
    pub open spec fn spec_green() -> Color {
        Color { red: 0, green: 255, blue: 0 }
    }

    /// Pure red.
    pub open spec fn spec_red() -> Color {
        Color { red: 255, green: 0, blue: 0 }
    }

    /// The colour of a circle that covers the first two circles of an
    /// ordering.
    #[verifier::when_used_as_spec(spec_green)]
    pub fn green() -> (c: Color)
        ensures
            c == Self::spec_green(),
    {
        Color { red: 0, green: 255, blue: 0 }
    }

    /// The colour of a circle that covers all three circles of an ordering.
    #[verifier::when_used_as_spec(spec_red)]
    pub fn red() -> (c: Color)
        ensures
            c == Self::spec_red(),
    {
        Color { red: 255, green: 0, blue: 0 }
    }
}

/// A request to draw the outline of `circle` in `color`.
#[derive(Clone, Copy, Debug, PartialEq)]
pub struct DrawCommand<C> {
    pub circle: C,
    pub color: Color,
}

} // verus!
