//! What is shown of an image besides its geometry: channel isolation, tone mapping and backdrop.
use vstd::prelude::*;

verus! {

/// Channel-isolation mode. The two composites show every channel: `Rgba` over the backdrop by
/// alpha, `Rgb` with alpha left out.
#[derive(Clone, Copy, Debug, PartialEq, Eq, Structural)]
pub enum Channel {
    Rgba,
    Rgb,
    R,
    G,
    B,
    A,
}

/// HDR tonemap operator, for float sources only.
#[derive(Clone, Copy, Debug, PartialEq, Eq, Structural)]
pub enum Tonemap {
    Reinhard,
    Aces,
}

/// Viewport backdrop: fills the letterbox around the image and shows through transparent pixels.
#[derive(Clone, Copy, Debug, PartialEq, Eq, Structural)]
pub enum Background {
    Black,
    White,
    /// Neutral 40% grey (sRGB).
    Grey,
    /// Light and dark checkerboard, the transparency indicator.
    Checker,
}

/// The mode that an image opens in: alpha is honoured wherever there is one.
pub open spec fn composite(has_alpha: bool) -> Channel {
    if has_alpha {
        Channel::Rgba
    } else {
        Channel::Rgb
    }
}

/// The mode after the button of `pressed` on an image showing `showing`: a solo of the channel, or
/// back to the composite where that channel is already soloed.
pub open spec fn toggled_channel(showing: Channel, pressed: Channel, has_alpha: bool) -> Channel {
    if showing == pressed {
        composite(has_alpha)
    } else {
        pressed
    }
}

/// The mode after the composite button: `Rgba` gives way to `Rgb`, anything else to the composite
/// the image opened in.
pub open spec fn toggled_composite(showing: Channel, has_alpha: bool) -> Channel {
    if showing == Channel::Rgba {
        Channel::Rgb
    } else {
        composite(has_alpha)
    }
}

/// The mode that stays after a re-export: one that needs an alpha channel falls back where the new
/// file has none.
pub open spec fn kept_channel(showing: Channel, has_alpha: bool) -> Channel {
    if !has_alpha && (showing == Channel::Rgba || showing == Channel::A) {
        Channel::Rgb
    } else {
        showing
    }
}

/// The other tonemap operator.
pub open spec fn other_tonemap(t: Tonemap) -> Tonemap {
    match t {
        Tonemap::Reinhard => Tonemap::Aces,
        Tonemap::Aces => Tonemap::Reinhard,
    }
}

/// The next backdrop of the cycle black, white, grey, checker.
pub open spec fn next_background(bg: Background) -> Background {
    match bg {
        Background::Black => Background::White,
        Background::White => Background::Grey,
        Background::Grey => Background::Checker,
        Background::Checker => Background::Black,
    }
}

/// The shader's number for a channel mode.
pub open spec fn channel_number(ch: Channel) -> i32 {
    match ch {
        Channel::Rgba => 0,
        Channel::R => 1,
        Channel::G => 2,
        Channel::B => 3,
        Channel::A => 4,
        Channel::Rgb => 5,
    }
}

/// The shader's number for a backdrop.
pub open spec fn background_number(bg: Background) -> i32 {
    match bg {
        Background::Black => 0,
        Background::White => 1,
        Background::Grey => 2,
        Background::Checker => 3,
    }
}

impl Channel {
    /// The composite mode of an image with or without alpha.
    pub fn composite(has_alpha: bool) -> (r: Channel)
        ensures
            r == composite(has_alpha),
    {
        if has_alpha {
            Channel::Rgba
        } else {
            Channel::Rgb
        }
    }
}

impl Background {
    /// The next backdrop of the cycle.
    pub fn next(self) -> (r: Background)
        ensures
            r == next_background(self),
    {
        match self {
            Background::Black => Background::White,
            Background::White => Background::Grey,
            Background::Grey => Background::Checker,
            Background::Checker => Background::Black,
        }
    }
}

impl Tonemap {
    /// The other operator.
    pub fn other(self) -> (r: Tonemap)
        ensures
            r == other_tonemap(self),
    {
        match self {
            Tonemap::Reinhard => Tonemap::Aces,
            Tonemap::Aces => Tonemap::Reinhard,
        }
    }
}

/// The channel mode as the shader reads it.
pub fn channel_code(ch: Channel) -> (r: i32)
    ensures
        r == channel_number(ch),
{
    match ch {
        Channel::Rgba => 0,
        Channel::R => 1,
        Channel::G => 2,
        Channel::B => 3,
        Channel::A => 4,
        Channel::Rgb => 5,
    }
}

/// The backdrop as the shader reads it.
pub fn background_code(bg: Background) -> (r: i32)
    ensures
        r == background_number(bg),
{
    match bg {
        Background::Black => 0,
        Background::White => 1,
        Background::Grey => 2,
        Background::Checker => 3,
    }
}

/// The shader tells every channel mode and every backdrop apart.
pub proof fn law_codes_are_distinct(a: Channel, b: Channel, x: Background, y: Background)
    ensures
        channel_number(a) == channel_number(b) ==> a == b,
        background_number(x) == background_number(y) ==> x == y,
{
}

/// Pressing a channel's button twice lands on the image's composite, whatever was showing.
pub proof fn law_channel_twice_is_composite(showing: Channel, pressed: Channel, has_alpha: bool)
    requires
        showing != pressed,
    ensures
        toggled_channel(toggled_channel(showing, pressed, has_alpha), pressed, has_alpha)
            == composite(has_alpha),
{
}

/// The composite button alternates between the two composites of an image with alpha, and always
/// shows all channels of one without.
pub proof fn law_composite_alternates(showing: Channel, has_alpha: bool)
    ensures
        has_alpha ==> toggled_composite(Channel::Rgba, true) == Channel::Rgb && toggled_composite(
            Channel::Rgb,
            true,
        ) == Channel::Rgba,
        !has_alpha ==> toggled_composite(showing, false) == Channel::Rgb,
{
}

/// Four steps of the backdrop cycle come back to the start, through all four backdrops; the
/// tonemap toggle undoes itself.
pub proof fn law_cycles_return(bg: Background, t: Tonemap)
    ensures
        next_background(next_background(next_background(next_background(bg)))) == bg,
        next_background(bg) != bg,
        next_background(next_background(bg)) != bg,
        other_tonemap(other_tonemap(t)) == t,
        other_tonemap(t) != t,
{
}

/// Pressing a channel that is not on display always brings it up, and what comes up in place of
/// the one on display shows every colour, with alpha exactly where the image has it.
pub proof fn law_pressed_channel_comes_up(showing: Channel, pressed: Channel, has_alpha: bool)
    ensures
        toggled_channel(showing, pressed, has_alpha) == pressed <==> showing != pressed || pressed
            == composite(has_alpha),
        composite(has_alpha) == Channel::Rgba <==> has_alpha,
        composite(has_alpha) == Channel::Rgb <==> !has_alpha,
        toggled_channel(pressed, pressed, has_alpha) == composite(has_alpha),
{
}

/// The composite button ends on the composite from every single channel, and drops alpha only
/// where alpha was on display.
pub proof fn law_composite_button(showing: Channel, has_alpha: bool)
    ensures
        toggled_composite(showing, has_alpha) == Channel::Rgb <==> showing == Channel::Rgba
            || !has_alpha,
        toggled_composite(showing, has_alpha) == Channel::Rgba <==> showing != Channel::Rgba
            && has_alpha,
{
}

/// Without alpha no channel on display reads it, and a channel that needs none stays as it is.
pub proof fn law_kept_channel_can_be_shown(showing: Channel, has_alpha: bool)
    ensures
        !has_alpha ==> kept_channel(showing, has_alpha) != Channel::Rgba && kept_channel(
            showing,
            has_alpha,
        ) != Channel::A,
        has_alpha ==> kept_channel(showing, has_alpha) == showing,
        showing != Channel::Rgba && showing != Channel::A ==> kept_channel(showing, has_alpha)
            == showing,
        kept_channel(showing, has_alpha) != showing ==> kept_channel(showing, has_alpha)
            == Channel::Rgb,
        kept_channel(kept_channel(showing, has_alpha), has_alpha) == kept_channel(
            showing,
            has_alpha,
        ),
{
}

/// The backdrops follow one another from dark to light to patterned: each step raises the
/// shader's number by one, and the checkerboard alone leads back to black.
pub proof fn law_backdrops_step_by_number(bg: Background)
    ensures
        background_number(next_background(bg)) == (background_number(bg) + 1) % 4,
        0 <= background_number(bg) < 4,
        next_background(bg) == Background::Black <==> bg == Background::Checker,
        next_background(bg) == Background::White <==> bg == Background::Black,
        next_background(bg) == Background::Grey <==> bg == Background::White,
        next_background(bg) == Background::Checker <==> bg == Background::Grey,
        background_number(bg) == 0 <==> bg == Background::Black,
        background_number(bg) == 3 <==> bg == Background::Checker,
{
}

/// The shader's channel numbers: none for the full composite, then the four single channels in
/// the order red, green, blue, alpha, then the composite without alpha.
pub proof fn law_single_channels_are_numbered_in_order(ch: Channel)
    ensures
        0 <= channel_number(ch) <= 5,
        channel_number(ch) == 0 <==> ch == Channel::Rgba,
        channel_number(ch) == 5 <==> ch == Channel::Rgb,
        1 <= channel_number(ch) <= 4 <==> ch != Channel::Rgba && ch != Channel::Rgb,
        0 < channel_number(Channel::R) < channel_number(Channel::G) < channel_number(Channel::B)
            < channel_number(Channel::A) < channel_number(Channel::Rgb),
{
}

} // verus!
