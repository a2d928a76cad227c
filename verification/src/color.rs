//! Player colours: four hues, each in a dark and a light shade.

use vstd::prelude::*;

verus! {

/// One of four hues in its dark (plain) or light shade.
#[derive(Debug, Clone, Copy, PartialEq, Eq, Hash, Structural)]
pub enum Color {
    Red,
    Green,
    Blue,
    Yellow,
    LightRed,
    LightGreen,
    LightBlue,
    LightYellow,
}

impl Color {
    /// Whether this is the light shade of its hue.
    pub open spec fn is_light(self) -> bool {
        self is LightRed || self is LightGreen || self is LightBlue || self is LightYellow
    }

    /// The light shade of this colour's hue.
    pub open spec fn lightened(self) -> Color {
        match self {
            Color::Red | Color::LightRed => Color::LightRed,
            Color::Green | Color::LightGreen => Color::LightGreen,
            Color::Blue | Color::LightBlue => Color::LightBlue,
            Color::Yellow | Color::LightYellow => Color::LightYellow,
        }
    }

    /// The dark shade of this colour's hue.
    pub open spec fn darkened(self) -> Color {
        match self {
            Color::Red | Color::LightRed => Color::Red,
            Color::Green | Color::LightGreen => Color::Green,
            Color::Blue | Color::LightBlue => Color::Blue,
            Color::Yellow | Color::LightYellow => Color::Yellow,
        }
    }

    /// The following hue in the cycle red, green, blue, yellow, in the same shade.
    pub open spec fn successor(self) -> Color {
        match self {
            Color::Red => Color::Green,
            Color::Green => Color::Blue,
            Color::Blue => Color::Yellow,
            Color::Yellow => Color::Red,
            Color::LightRed => Color::LightGreen,
            Color::LightGreen => Color::LightBlue,
            Color::LightBlue => Color::LightYellow,
            Color::LightYellow => Color::LightRed,
        }
    }

    /// The colour as a hexadecimal colour code: `#` and six digits.
    pub open spec fn hex_code(self) -> Seq<char> {
        match self {
            Color::Red => "#e5614a"@,
            Color::Green => "#5cd074"@,
            Color::Blue => "#4aa3e3"@,
            Color::Yellow => "#f5ca1a"@,
            Color::LightRed => "#e69d91"@,
            Color::LightGreen => "#99d1a4"@,
            Color::LightBlue => "#91c1e3"@,
            Color::LightYellow => "#f5de84"@,
        }
    }

    /// The colour's hexadecimal colour code, as a style sheet takes it.
    pub fn to_string(&self) -> (code: String)
        ensures
            code@ == self.hex_code(),
    {
        let code: &str = match self {
            Color::Red => "#e5614a",
            Color::Green => "#5cd074",
            Color::Blue => "#4aa3e3",
            Color::Yellow => "#f5ca1a",
            Color::LightRed => "#e69d91",
            Color::LightGreen => "#99d1a4",
            Color::LightBlue => "#91c1e3",
            Color::LightYellow => "#f5de84",
        };
        code.to_owned()
    }

    /// The light shade of the same hue; a light colour is returned as it is.
    pub fn to_light(&self) -> (out: Color)
        ensures
            out == self.lightened(),
    {
        match self {
            Color::Red => Color::LightRed,
            Color::Green => Color::LightGreen,
            Color::Blue => Color::LightBlue,
            Color::Yellow => Color::LightYellow,
            Color::LightRed => Color::LightRed,
            Color::LightGreen => Color::LightGreen,
            Color::LightBlue => Color::LightBlue,
            Color::LightYellow => Color::LightYellow,
        }
    }

    /// The dark shade of the same hue; a dark colour is returned as it is.
    pub fn to_dark(&self) -> (out: Color)
        ensures
            out == self.darkened(),
    {
        match self {
            Color::Red => Color::Red,
            Color::Green => Color::Green,
            Color::Blue => Color::Blue,
            Color::Yellow => Color::Yellow,
            Color::LightRed => Color::Red,
            Color::LightGreen => Color::Green,
            Color::LightBlue => Color::Blue,
            Color::LightYellow => Color::Yellow,
        }
    }

    /// The next hue in the cycle, keeping the shade.
    pub fn next(&self) -> (out: Color)
        ensures
            out == self.successor(),
    {
        match self {
            Color::Red => Color::Green,
            Color::Green => Color::Blue,
            Color::Blue => Color::Yellow,
            Color::Yellow => Color::Red,
            Color::LightRed => Color::LightGreen,
            Color::LightGreen => Color::LightBlue,
            Color::LightBlue => Color::LightYellow,
            Color::LightYellow => Color::LightRed,
        }
    }
}

/// Lightening and then darkening a dark colour gives it back, and so does
/// darkening and then lightening a light one.
pub proof fn lemma_shade_round_trip(c: Color)
    ensures
        !c.is_light() ==> c.lightened().darkened() == c,
        c.is_light() ==> c.darkened().lightened() == c,
{
}

/// Lightening twice is lightening once, and darkening twice is darkening
/// once: a colour that has the shade already is left as it is.
pub proof fn lemma_shade_idempotent(c: Color)
    ensures
        c.lightened().lightened() == c.lightened(),
        c.darkened().darkened() == c.darkened(),
        c.is_light() ==> c.lightened() == c,
        !c.is_light() ==> c.darkened() == c,
        c.lightened().is_light(),
        !c.darkened().is_light(),
{
}

/// Four steps round the cycle of hues lead back to the colour they began
/// with, and no step changes the shade.
pub proof fn lemma_next_has_period_four(c: Color)
    ensures
        c.successor().successor().successor().successor() == c,
        c.successor().is_light() == c.is_light(),
        c.successor() != c,
        c.successor().successor() != c,
        c.successor().successor().successor() != c,
{
}

} // verus!
