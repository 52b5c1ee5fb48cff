//! The octagon overlay's options: the line colour palette, and the state with its range clamp.
use crate::single::{Single, clamp_finite, clamped, in_range, is_finite};
use vstd::prelude::*;

verus! {

/// Bits of `0.0`, `0.25` and `1.0`.
pub const ZERO: u32 = 0;
pub const QUARTER: u32 = 0x3e80_0000;
pub const ONE: u32 = 0x3f80_0000;

/// Bits of the crop factor's bounds and default: `0.0` is the full quad, `0.5` the diamond.
pub const CROP_MIN: u32 = 0;
pub const CROP_MAX: u32 = 0x3f00_0000;
pub const CROP_DEFAULT: u32 = 0x3e80_0000;

/// The overlay's line colour, a fixed palette.
#[derive(Debug, Clone, Copy, PartialEq, Eq, Structural)]
pub enum LineColor {
    Red,
    Green,
    Blue,
    White,
    Black,
}

impl Default for LineColor {
    fn default() -> (r: Self)
        ensures
            r == LineColor::Red,
    {
        LineColor::Red
    }
}

/// The palette in the order the options show it.
pub open spec fn line_colors() -> Seq<LineColor> {
    seq![LineColor::Red, LineColor::Green, LineColor::Blue, LineColor::White, LineColor::Black]
}

/// Every palette entry, in the order the options show them.
pub fn line_color_list() -> (v: Vec<LineColor>)
    ensures
        v@ == line_colors(),
{
    let v = vec![LineColor::Red, LineColor::Green, LineColor::Blue, LineColor::White, LineColor::Black];
    assert(v@ =~= line_colors());
    v
}

/// The drawn colour as sRGB red, green, blue and alpha, by the bits of each.
pub open spec fn line_rgba_bits(c: LineColor) -> (u32, u32, u32, u32) {
    match c {
        LineColor::Red => (ONE, 0x3e23_d70a, 0x3e23_d70a, ONE),
        LineColor::Green => (0x3e38_51ec, 0x3f59_999a, QUARTER, ONE),
        LineColor::Blue => (QUARTER, 0x3f0c_cccd, ONE, ONE),
        LineColor::White => (ONE, ONE, ONE, ONE),
        LineColor::Black => (ZERO, ZERO, ZERO, ONE),
    }
}

/// The name of a palette entry.
pub open spec fn line_label(c: LineColor) -> Seq<char> {
    match c {
        LineColor::Red => "Red"@,
        LineColor::Green => "Green"@,
        LineColor::Blue => "Blue"@,
        LineColor::White => "White"@,
        LineColor::Black => "Black"@,
    }
}

impl LineColor {
    /// The drawn colour, as the bits of its sRGB components.
    pub fn rgba(self) -> (r: (u32, u32, u32, u32))
        ensures
            r == line_rgba_bits(self),
    {
        match self {
            LineColor::Red => (ONE, 0x3e23_d70a, 0x3e23_d70a, ONE),
            LineColor::Green => (0x3e38_51ec, 0x3f59_999a, QUARTER, ONE),
            LineColor::Blue => (QUARTER, 0x3f0c_cccd, ONE, ONE),
            LineColor::White => (ONE, ONE, ONE, ONE),
            LineColor::Black => (ZERO, ZERO, ZERO, ONE),
        }
    }

    /// The name shown for the entry.
    pub fn label(self) -> (s: &'static str)
        ensures
            s@ == line_label(self),
    {
        match self {
            LineColor::Red => "Red",
            LineColor::Green => "Green",
            LineColor::Blue => "Blue",
            LineColor::White => "White",
            LineColor::Black => "Black",
        }
    }
}

/// The whole of the overlay's state.
#[derive(Debug, Clone, Copy, PartialEq, Eq, Structural)]
pub struct OctagonState {
    /// The toolbar toggle. Always starts off; never kept over a restart.
    pub enabled: bool,
    pub color: LineColor,
    /// The line's opacity, `0.0` to `1.0`.
    pub line_opacity: Single,
    pub crop: Single,
    /// How far the image outside the octagon fades toward the backdrop, `0.0` to `1.0`.
    pub hide: Single,
}

/// The state of a fresh overlay.
pub open spec fn fresh_octagon() -> OctagonState {
    OctagonState {
        enabled: false,
        color: LineColor::Red,
        line_opacity: Single { bits: ONE },
        crop: Single { bits: CROP_DEFAULT },
        hide: Single { bits: ZERO },
    }
}

/// `s` with its numbers in range, and its defaults in place of what is no number.
pub open spec fn clamped_octagon(s: OctagonState) -> OctagonState {
    OctagonState {
        enabled: s.enabled,
        color: s.color,
        line_opacity: clamped(s.line_opacity, Single { bits: ONE }, Single { bits: ZERO }, Single { bits: ONE }),
        crop: clamped(
            s.crop,
            Single { bits: CROP_DEFAULT },
            Single { bits: CROP_MIN },
            Single { bits: CROP_MAX },
        ),
        hide: clamped(s.hide, Single { bits: ZERO }, Single { bits: ZERO }, Single { bits: ONE }),
    }
}

impl Default for OctagonState {
    fn default() -> (r: Self)
        ensures
            r == fresh_octagon(),
    {
        OctagonState {
            enabled: false,
            color: LineColor::Red,
            line_opacity: Single { bits: ONE },
            crop: Single { bits: CROP_DEFAULT },
            hide: Single { bits: ZERO },
        }
    }
}

impl OctagonState {
    /// Clamp the numbers into range.
    pub fn clamp(&mut self)
        ensures
            *final(self) == clamped_octagon(*old(self)),
    {
        let (zero, one) = (Single { bits: ZERO }, Single { bits: ONE });
        self.crop = clamp_finite(
            self.crop,
            Single { bits: CROP_DEFAULT },
            Single { bits: CROP_MIN },
            Single { bits: CROP_MAX },
        );
        self.hide = clamp_finite(self.hide, zero, zero, one);
        self.line_opacity = clamp_finite(self.line_opacity, one, zero, one);
    }
}

/// Clamping twice changes nothing more, and a fresh overlay is in range.
pub proof fn law_octagon_clamp_settles(s: OctagonState)
    ensures
        clamped_octagon(clamped_octagon(s)) == clamped_octagon(s),
        clamped_octagon(fresh_octagon()) == fresh_octagon(),
{
}

/// Clamping never switches the overlay or its colour, leaves every value that lies in range, and
/// falls back to the value that a fresh overlay has.
pub proof fn law_octagon_clamp_keeps_what_fits(s: OctagonState)
    ensures
        ({
            let c = clamped_octagon(s);
            let zero = Single { bits: ZERO };
            let half = Single { bits: 0x3f00_0000 };
            let one = Single { bits: ONE };
            &&& c.enabled == s.enabled
            &&& c.color == s.color
            &&& in_range(c.line_opacity, zero, one)
            &&& in_range(c.hide, zero, one)
            &&& in_range(c.crop, zero, half)
            &&& in_range(s.line_opacity, zero, one) ==> c.line_opacity == s.line_opacity
            &&& in_range(s.hide, zero, one) ==> c.hide == s.hide
            &&& in_range(s.crop, zero, half) ==> c.crop == s.crop
            &&& !is_finite(s.line_opacity) ==> c.line_opacity == fresh_octagon().line_opacity
            &&& !is_finite(s.hide) ==> c.hide == fresh_octagon().hide
            &&& !is_finite(s.crop) ==> c.crop == fresh_octagon().crop
        }),
{
}

/// A fresh overlay is off; its lines are solid and nothing of the picture is hidden.
pub proof fn law_fresh_octagon_hides_nothing()
    ensures
        !fresh_octagon().enabled,
        fresh_octagon().hide == (Single { bits: ZERO }),
        fresh_octagon().line_opacity == (Single { bits: ONE }),
        fresh_octagon().color == line_colors()[0],
        crate::single::rank(fresh_octagon().crop) > 0,
        fresh_octagon().crop.bits == QUARTER,
{
}

/// Every colour can be chosen, each once. All are opaque; white is full in every channel, black
/// in none, and each of the others is strongest in the channel it is named for.
pub proof fn law_line_colors(c: LineColor)
    ensures
        line_colors().contains(c),
        line_colors().len() == 5,
        line_colors().no_duplicates(),
        line_rgba_bits(c).3 == ONE,
        ({
            let (r, g, b, a) = line_rgba_bits(c);
            &&& c == LineColor::Red <==> r > g && r > b
            &&& c == LineColor::Green <==> g > r && g > b
            &&& c == LineColor::Blue <==> b > r && b > g
            &&& c == LineColor::White <==> r == ONE && g == ONE && b == ONE
            &&& c == LineColor::Black <==> r == ZERO && g == ZERO && b == ZERO
        }),
{
    let s = line_colors();
    assert(s[0] == LineColor::Red && s[1] == LineColor::Green && s[2] == LineColor::Blue && s[3]
        == LineColor::White && s[4] == LineColor::Black);
}

/// The colours are called by their names.
pub proof fn law_line_labels(c: LineColor)
    ensures
        line_label(c)[0] == 'R' <==> c == LineColor::Red,
        line_label(c)[0] == 'G' <==> c == LineColor::Green,
        line_label(c)[0] == 'W' <==> c == LineColor::White,
        line_label(c)[0] == 'B' && line_label(c)[2] == 'u' <==> c == LineColor::Blue,
        line_label(c)[0] == 'B' && line_label(c)[2] == 'a' <==> c == LineColor::Black,
{
    reveal_strlit("Red");
    reveal_strlit("Green");
    reveal_strlit("Blue");
    reveal_strlit("White");
    reveal_strlit("Black");
}

} // verus!
