//! The model that the user interface renders from: the command vocabulary, the read-only snapshot
//! of a window's display state, and the colour tokens of the chrome.
use vstd::prelude::*;

use crate::icons::Icon;
use crate::keybinds::{KeyAction, ShortcutLabels};
use crate::octagon::OctagonState;
use crate::view::{Background, Channel, Tonemap};

verus! {

/// A command of the user interface.
#[derive(Debug, Clone, Copy, PartialEq, Eq, Structural)]
pub enum Action {
    /// Previous sibling image in the folder.
    Prev,
    /// Next sibling image in the folder.
    Next,
    ZoomOut,
    ZoomIn,
    /// One button for fit and 1:1; its icon shows what a click does.
    ZoomToggle,
    /// Set or toggle the channel shown.
    Channel(Channel),
    /// Reinhard or ACES, for HDR images.
    ToggleTonemap,
    ExpUp,
    ExpReset,
    ExpDown,
    /// The outline of the image boundary.
    ToggleOutline,
    /// Choose the backdrop.
    Background(Background),
    ToggleFullscreen,
    /// Sprite-sheet mode.
    ToggleFlipbook,
    /// Open the actions menu.
    OpenWithMenu,
    /// Open the settings.
    OpenSettings,
    /// Open the menu of the buttons that did not fit.
    Overflow,
}

/// A read-only view of a window's display state, built for each frame.
pub struct ViewSnapshot {
    pub channel: Channel,
    pub fit: bool,
    pub tonemap: Tonemap,
    pub is_hdr: bool,
    pub has_image: bool,
    /// Between an open request and its decode landing.
    pub loading: bool,
    /// The source carries an alpha channel.
    pub has_alpha: bool,
    pub background: Background,
    pub outline: bool,
    /// The octagon overlay's options, while it is on and an image is shown.
    pub octagon: Option<OctagonState>,
    /// The folder holds more than one image.
    pub can_navigate: bool,
    pub fullscreen: bool,
    pub flipbook: bool,
    /// The image is an animated source, for which flipbook mode is disabled.
    pub has_animation: bool,
    /// The mip level shown, and how many the image has.
    pub mip_level: u32,
    pub mip_count: u32,
    /// The live keyboard shortcuts.
    pub shortcuts: ShortcutLabels,
    pub status_left: String,
    pub status_right: String,
}

/// Whether a button is interactive.
pub open spec fn is_enabled(s: ViewSnapshot, a: Action) -> bool {
    match a {
        Action::Prev | Action::Next => s.can_navigate,
        Action::ToggleTonemap | Action::ExpUp | Action::ExpReset | Action::ExpDown => s.is_hdr,
        Action::ToggleFullscreen | Action::OpenSettings | Action::Overflow => true,
        Action::ToggleFlipbook => s.has_image && !s.has_animation,
        _ => s.has_image,
    }
}

/// Whether a toggle button is drawn as on. Momentary buttons never are.
pub open spec fn is_active(s: ViewSnapshot, a: Action) -> bool {
    match a {
        Action::Channel(c) => s.channel == c,
        Action::ToggleTonemap => s.tonemap == Tonemap::Aces,
        Action::Background(b) => s.background == b,
        Action::ToggleOutline => s.outline,
        Action::ToggleFullscreen => s.fullscreen,
        Action::ToggleFlipbook => s.flipbook,
        _ => false,
    }
}

/// What a button's tooltip says before the shortcut, and whose shortcut follows.
pub open spec fn tip(a: Action, fit: bool) -> (Seq<char>, Option<KeyAction>) {
    match a {
        Action::Prev => ("Previous image"@, Some(KeyAction::PrevImage)),
        Action::Next => ("Next image"@, Some(KeyAction::NextImage)),
        Action::ZoomOut => ("Zoom out"@, Some(KeyAction::ZoomOut)),
        Action::ZoomIn => ("Zoom in"@, Some(KeyAction::ZoomIn)),
        Action::ZoomToggle => if fit {
            ("Actual size 1:1"@, Some(KeyAction::ActualSize))
        } else {
            ("Fit to window"@, Some(KeyAction::Fit))
        },
        Action::Channel(Channel::Rgb) | Action::Channel(Channel::Rgba) => (
            "All channels"@,
            Some(KeyAction::ChannelRgb),
        ),
        Action::Channel(Channel::R) => ("Red channel"@, Some(KeyAction::ChannelR)),
        Action::Channel(Channel::G) => ("Green channel"@, Some(KeyAction::ChannelG)),
        Action::Channel(Channel::B) => ("Blue channel"@, Some(KeyAction::ChannelB)),
        Action::Channel(Channel::A) => ("Alpha channel"@, Some(KeyAction::ChannelA)),
        Action::ToggleTonemap => (
            "Tone map: Reinhard \u{2194} ACES"@,
            Some(KeyAction::ToggleTonemap),
        ),
        Action::ExpUp => ("Increase exposure"@, Some(KeyAction::ExposureUp)),
        Action::ExpReset => ("Reset exposure"@, Some(KeyAction::ExposureReset)),
        Action::ExpDown => ("Decrease exposure"@, Some(KeyAction::ExposureDown)),
        Action::ToggleOutline => ("Image boundary outline"@, Some(KeyAction::ToggleOutline)),
        Action::Background(Background::Black) => ("Black backdrop"@, None),
        Action::Background(Background::White) => ("White backdrop"@, None),
        Action::Background(Background::Grey) => ("Grey backdrop"@, None),
        Action::Background(Background::Checker) => ("Checkerboard backdrop"@, None),
        Action::OpenWithMenu => ("Copy, show in folder, or open in app\u{2026}"@, None),
        Action::ToggleFullscreen => ("Full screen"@, Some(KeyAction::ToggleFullscreen)),
        Action::ToggleFlipbook => ("Flipbook mode"@, Some(KeyAction::ToggleFlipbook)),
        Action::Overflow => ("More controls\u{2026}"@, None),
        Action::OpenSettings => ("Settings\u{2026}"@, None),
    }
}

/// The tooltip of a button: its text, and the shortcut that currently drives it.
pub open spec fn tooltip_text(s: ViewSnapshot, a: Action) -> Seq<char> {
    let (text, key) = tip(a, s.fit);
    match key {
        Some(k) => text + crate::keybinds::label_suffix(s.shortcuts.label_of(k)),
        None => text,
    }
}

/// The icon of a button; the settings entry has none.
pub open spec fn button_icon(a: Action, fit: bool, has_alpha: bool) -> Option<Icon> {
    match a {
        Action::Prev => Some(Icon::Left),
        Action::Next => Some(Icon::Right),
        Action::ZoomOut => Some(Icon::ZoomOut),
        Action::ZoomIn => Some(Icon::ZoomIn),
        Action::ZoomToggle => if fit {
            Some(Icon::OneToOne)
        } else {
            Some(Icon::Fit)
        },
        Action::Channel(Channel::Rgb) | Action::Channel(Channel::Rgba) => if has_alpha {
            Some(Icon::Rgba)
        } else {
            Some(Icon::Rgb)
        },
        Action::Channel(Channel::R) => Some(Icon::R),
        Action::Channel(Channel::G) => Some(Icon::G),
        Action::Channel(Channel::B) => Some(Icon::B),
        Action::Channel(Channel::A) => Some(Icon::A),
        Action::ToggleTonemap => Some(Icon::Aces),
        Action::ExpUp => Some(Icon::EvUp),
        Action::ExpReset => Some(Icon::EvReset),
        Action::ExpDown => Some(Icon::EvDown),
        Action::ToggleOutline => Some(Icon::Outline),
        Action::Background(Background::Black) => Some(Icon::B),
        Action::Background(Background::White) => Some(Icon::White),
        Action::Background(Background::Grey) => Some(Icon::G),
        Action::Background(Background::Checker) => Some(Icon::Checker),
        Action::OpenWithMenu => Some(Icon::OpenWith),
        Action::ToggleFullscreen => Some(Icon::Fullscreen),
        Action::ToggleFlipbook => Some(Icon::Flipbook),
        Action::OpenSettings => None,
        Action::Overflow => Some(Icon::More),
    }
}

impl ViewSnapshot {
    /// Whether a button is interactive in the current state.
    pub fn enabled(&self, a: Action) -> (r: bool)
        ensures
            r == is_enabled(*self, a),
    {
        match a {
            Action::Prev | Action::Next => self.can_navigate,
            Action::ZoomOut | Action::ZoomIn | Action::ZoomToggle => self.has_image,
            Action::Channel(_) | Action::Background(_) | Action::ToggleOutline => self.has_image,
            Action::ToggleTonemap | Action::ExpUp | Action::ExpReset | Action::ExpDown => {
                self.is_hdr
            },
            Action::OpenWithMenu => self.has_image,
            Action::ToggleFullscreen | Action::OpenSettings => true,
            Action::ToggleFlipbook => self.has_image && !self.has_animation,
            Action::Overflow => true,
        }
    }

    /// Whether a toggle button is in its "on" state.
    pub fn active(&self, a: Action) -> (r: bool)
        ensures
            r == is_active(*self, a),
    {
        match a {
            Action::Channel(c) => self.channel == c,
            Action::ToggleTonemap => self.tonemap == Tonemap::Aces,
            Action::Background(b) => self.background == b,
            Action::ToggleOutline => self.outline,
            Action::ToggleFullscreen => self.fullscreen,
            Action::ToggleFlipbook => self.flipbook,
            _ => false,
        }
    }

    /// The hover text of a button: what a click does, and the key that currently does the same. An
    /// unbound action shows no parenthetical.
    pub fn tooltip(&self, a: Action) -> (s: String)
        ensures
            s@ == tooltip_text(*self, a),
    {
        let (text, key) = self.tip_of(a);
        let mut s = String::new();
        s.append(text);
        assert(s@ =~= text@);
        match key {
            Some(k) => {
                let suffix = self.shortcuts.suffix(k);
                s.append(suffix.as_str());
                s
            },
            None => s,
        }
    }

    fn tip_of(&self, a: Action) -> (r: (&'static str, Option<KeyAction>))
        ensures
            (r.0@, r.1) == tip(a, self.fit),
    {
        match a {
            Action::Prev => ("Previous image", Some(KeyAction::PrevImage)),
            Action::Next => ("Next image", Some(KeyAction::NextImage)),
            Action::ZoomOut => ("Zoom out", Some(KeyAction::ZoomOut)),
            Action::ZoomIn => ("Zoom in", Some(KeyAction::ZoomIn)),
            Action::ZoomToggle => if self.fit {
                ("Actual size 1:1", Some(KeyAction::ActualSize))
            } else {
                ("Fit to window", Some(KeyAction::Fit))
            },
            Action::Channel(Channel::Rgb) | Action::Channel(Channel::Rgba) => (
                "All channels",
                Some(KeyAction::ChannelRgb),
            ),
            Action::Channel(Channel::R) => ("Red channel", Some(KeyAction::ChannelR)),
            Action::Channel(Channel::G) => ("Green channel", Some(KeyAction::ChannelG)),
            Action::Channel(Channel::B) => ("Blue channel", Some(KeyAction::ChannelB)),
            Action::Channel(Channel::A) => ("Alpha channel", Some(KeyAction::ChannelA)),
            Action::ToggleTonemap => (
                "Tone map: Reinhard \u{2194} ACES",
                Some(KeyAction::ToggleTonemap),
            ),
            Action::ExpUp => ("Increase exposure", Some(KeyAction::ExposureUp)),
            Action::ExpReset => ("Reset exposure", Some(KeyAction::ExposureReset)),
            Action::ExpDown => ("Decrease exposure", Some(KeyAction::ExposureDown)),
            Action::ToggleOutline => ("Image boundary outline", Some(KeyAction::ToggleOutline)),
            Action::Background(Background::Black) => ("Black backdrop", None),
            Action::Background(Background::White) => ("White backdrop", None),
            Action::Background(Background::Grey) => ("Grey backdrop", None),
            Action::Background(Background::Checker) => ("Checkerboard backdrop", None),
            Action::OpenWithMenu => ("Copy, show in folder, or open in app\u{2026}", None),
            Action::ToggleFullscreen => ("Full screen", Some(KeyAction::ToggleFullscreen)),
            Action::ToggleFlipbook => ("Flipbook mode", Some(KeyAction::ToggleFlipbook)),
            Action::Overflow => ("More controls\u{2026}", None),
            Action::OpenSettings => ("Settings\u{2026}", None),
        }
    }

    /// Whether the card of an empty window is drawn.
    pub fn shows_logo(&self) -> (r: bool)
        ensures
            r == (!self.has_image && !self.loading),
    {
        !(self.has_image || self.loading)
    }

    /// The icon of a button. The zoom toggle shows the mode that a click switches to, and the
    /// all-channels button reflects alpha.
    pub fn icon(&self, a: Action) -> (r: Option<Icon>)
        ensures
            r == button_icon(a, self.fit, self.has_alpha),
    {
        match a {
            Action::Prev => Some(Icon::Left),
            Action::Next => Some(Icon::Right),
            Action::ZoomOut => Some(Icon::ZoomOut),
            Action::ZoomIn => Some(Icon::ZoomIn),
            Action::ZoomToggle => if self.fit {
                Some(Icon::OneToOne)
            } else {
                Some(Icon::Fit)
            },
            Action::Channel(Channel::Rgb) | Action::Channel(Channel::Rgba) => if self.has_alpha {
                Some(Icon::Rgba)
            } else {
                Some(Icon::Rgb)
            },
            Action::Channel(Channel::R) => Some(Icon::R),
            Action::Channel(Channel::G) => Some(Icon::G),
            Action::Channel(Channel::B) => Some(Icon::B),
            Action::Channel(Channel::A) => Some(Icon::A),
            Action::ToggleTonemap => Some(Icon::Aces),
            Action::ExpUp => Some(Icon::EvUp),
            Action::ExpReset => Some(Icon::EvReset),
            Action::ExpDown => Some(Icon::EvDown),
            Action::ToggleOutline => Some(Icon::Outline),
            Action::Background(Background::Black) => Some(Icon::B),
            Action::Background(Background::White) => Some(Icon::White),
            Action::Background(Background::Grey) => Some(Icon::G),
            Action::Background(Background::Checker) => Some(Icon::Checker),
            Action::OpenWithMenu => Some(Icon::OpenWith),
            Action::ToggleFullscreen => Some(Icon::Fullscreen),
            Action::ToggleFlipbook => Some(Icon::Flipbook),
            Action::OpenSettings => None,
            Action::Overflow => Some(Icon::More),
        }
    }
}

/// At most one channel button is lit.
pub proof fn law_one_channel_button_is_lit(s: ViewSnapshot, a: Channel, b: Channel)
    requires
        is_active(s, Action::Channel(a)),
        is_active(s, Action::Channel(b)),
    ensures
        a == b,
{
}

/// Exactly one backdrop button is lit.
pub proof fn law_one_backdrop_is_lit(s: ViewSnapshot, a: Background, b: Background)
    ensures
        is_active(s, Action::Background(s.background)),
        is_active(s, Action::Background(a)) && is_active(s, Action::Background(b)) ==> a == b,
{
}

/// A colour as `0x00BBGGRR`.
pub open spec fn colorref(r: u8, g: u8, b: u8) -> u32 {
    (r + 256 * g + 65536 * b) as u32
}

/// A colour as `0x00BBGGRR`.
pub fn rgb(r: u8, g: u8, b: u8) -> (c: u32)
    ensures
        c == colorref(r, g, b),
        c == r + 256 * g + 65536 * b,
{
    r as u32 + 256 * g as u32 + 65536 * b as u32
}

/// The three bytes of a `0x00BBGGRR` colour in the other order, `0x00RRGGBB`.
pub open spec fn swapped(c: u32) -> u32 {
    (65536 * (c % 256) + 256 * (c / 256 % 256) + c / 65536 % 256) as u32
}

/// The blue used where the system's highlight is unusable.
pub open spec fn default_accent() -> u32 {
    colorref(0, 120, 215)
}

/// The accent: the system's highlight where its brightness lets text be read on it, else the
/// shipped blue.
pub fn system_accent(highlight: u32, usable: bool) -> (c: u32)
    ensures
        c == if usable {
            highlight
        } else {
            default_accent()
        },
{
    if usable {
        highlight
    } else {
        rgb(0, 120, 215)
    }
}

/// The colours of the chrome in one theme, each `0x00BBGGRR`.
#[derive(Debug, Clone, Copy, PartialEq, Eq, Structural)]
pub struct Palette {
    pub toolbar_bg: u32,
    pub status_bg: u32,
    pub text: u32,
    pub text_dim: u32,
    pub btn_hover: u32,
    pub btn_active: u32,
    pub separator: u32,
    pub border: u32,
    /// The backdrop where no image is.
    pub view_clear: u32,
}

/// The palette of a theme with an accent.
pub open spec fn palette(dark: bool, accent: u32) -> Palette {
    if dark {
        Palette {
            toolbar_bg: colorref(43, 43, 43),
            status_bg: colorref(30, 30, 30),
            text: colorref(224, 224, 224),
            text_dim: colorref(140, 140, 140),
            btn_hover: colorref(60, 60, 60),
            btn_active: accent,
            separator: colorref(60, 60, 60),
            border: colorref(70, 70, 70),
            view_clear: colorref(0, 0, 0),
        }
    } else {
        Palette {
            toolbar_bg: colorref(240, 240, 240),
            status_bg: colorref(230, 230, 230),
            text: colorref(20, 20, 20),
            text_dim: colorref(110, 110, 110),
            btn_hover: colorref(214, 214, 214),
            btn_active: accent,
            separator: colorref(200, 200, 200),
            border: colorref(170, 170, 170),
            view_clear: colorref(150, 150, 150),
        }
    }
}

impl Palette {
    /// The palette of the dark or light theme, highlighted with `accent`.
    pub fn for_mode(dark: bool, accent: u32) -> (p: Self)
        ensures
            p == palette(dark, accent),
    {
        if dark {
            Palette {
                toolbar_bg: rgb(43, 43, 43),
                status_bg: rgb(30, 30, 30),
                text: rgb(224, 224, 224),
                text_dim: rgb(140, 140, 140),
                btn_hover: rgb(60, 60, 60),
                btn_active: accent,
                separator: rgb(60, 60, 60),
                border: rgb(70, 70, 70),
                view_clear: rgb(0, 0, 0),
            }
        } else {
            Palette {
                toolbar_bg: rgb(240, 240, 240),
                status_bg: rgb(230, 230, 230),
                text: rgb(20, 20, 20),
                text_dim: rgb(110, 110, 110),
                btn_hover: rgb(214, 214, 214),
                btn_active: accent,
                separator: rgb(200, 200, 200),
                border: rgb(170, 170, 170),
                view_clear: rgb(150, 150, 150),
            }
        }
    }

    /// The backdrop where no image is, as `0x00RRGGBB`.
    pub fn view_clear_packed(&self) -> (c: u32)
        ensures
            c == swapped(self.view_clear),
    {
        let c = self.view_clear;
        65536 * (c % 256) + 256 * (c / 256 % 256) + c / 65536 % 256
    }
}

/// The two packings of a colour undo each other.
pub proof fn law_packings_undo(r: u8, g: u8, b: u8)
    ensures
        swapped(colorref(r, g, b)) == colorref(b, g, r),
        swapped(swapped(colorref(r, g, b))) == colorref(r, g, b),
{
    lemma_bytes(r, g, b);
    lemma_bytes(b, g, r);
}

proof fn lemma_bytes(r: u8, g: u8, b: u8)
    ensures
        swapped(colorref(r, g, b)) == colorref(b, g, r),
{
    let c = colorref(r, g, b);
    let high = (g + 256 * b) as u32;
    assert(c == r + 256 * high);
    assert(c % 256 == r && c / 256 == high);
    assert(high % 256 == g && high / 256 == b);
    assert(c / 65536 == high / 256);
}

/// Whether the system asks for the dark theme, from the "apps use light theme" value where it could
/// be read.
pub fn system_uses_dark_mode(light_theme: Option<u32>) -> (r: bool)
    ensures
        r == (light_theme == Some(0u32)),
{
    match light_theme {
        Some(v) => v == 0,
        None => false,
    }
}

/// Every button that acts on an image is dead without one, the buttons of the window itself
/// never are, and each group follows its own condition.
pub proof fn law_buttons_wait_for_what_they_need(s: ViewSnapshot, a: Action)
    ensures
        a == Action::ToggleFullscreen || a == Action::OpenSettings || a == Action::Overflow
            ==> is_enabled(s, a),
        a == Action::Prev || a == Action::Next ==> (is_enabled(s, a) <==> s.can_navigate),
        a == Action::ExpUp || a == Action::ExpDown || a == Action::ExpReset || a
            == Action::ToggleTonemap ==> (is_enabled(s, a) <==> s.is_hdr),
        is_enabled(s, Action::ToggleFlipbook) ==> s.has_image && !s.has_animation,
        s.has_image && !s.has_animation ==> is_enabled(s, Action::ToggleFlipbook),
        a == Action::ZoomIn || a == Action::ZoomOut || a == Action::ZoomToggle || a is Channel || a
            is Background || a == Action::ToggleOutline || a == Action::OpenWithMenu ==> (
        is_enabled(s, a) <==> s.has_image),
{
}

/// A switch is lit exactly while what it switches is on; a button that only does something is
/// never lit.
pub proof fn law_lit_means_on(s: ViewSnapshot, a: Action)
    ensures
        is_active(s, Action::ToggleTonemap) <==> s.tonemap != Tonemap::Reinhard,
        is_active(s, Action::ToggleOutline) <==> s.outline,
        is_active(s, Action::ToggleFullscreen) <==> s.fullscreen,
        is_active(s, Action::ToggleFlipbook) <==> s.flipbook,
        is_active(s, Action::Channel(s.channel)),
        is_active(s, a) ==> a is Channel || a is Background || a == Action::ToggleTonemap || a
            == Action::ToggleOutline || a == Action::ToggleFullscreen || a
            == Action::ToggleFlipbook,
{
}

/// The tip of each button names the key that does what the button does, and the zoom button
/// names what a press would bring.
pub proof fn law_tips_name_their_own_key(a: Action, fit: bool)
    ensures
        tip(a, fit).1 == Some(KeyAction::PrevImage) <==> a == Action::Prev,
        tip(a, fit).1 == Some(KeyAction::NextImage) <==> a == Action::Next,
        tip(a, fit).1 == Some(KeyAction::ZoomIn) <==> a == Action::ZoomIn,
        tip(a, fit).1 == Some(KeyAction::ZoomOut) <==> a == Action::ZoomOut,
        tip(a, fit).1 == Some(KeyAction::ActualSize) <==> a == Action::ZoomToggle && fit,
        tip(a, fit).1 == Some(KeyAction::Fit) <==> a == Action::ZoomToggle && !fit,
        tip(a, fit).1 == Some(KeyAction::ChannelR) <==> a == Action::Channel(Channel::R),
        tip(a, fit).1 == Some(KeyAction::ChannelG) <==> a == Action::Channel(Channel::G),
        tip(a, fit).1 == Some(KeyAction::ChannelB) <==> a == Action::Channel(Channel::B),
        tip(a, fit).1 == Some(KeyAction::ChannelA) <==> a == Action::Channel(Channel::A),
        tip(a, fit).1 == Some(KeyAction::ChannelRgb) <==> a == Action::Channel(Channel::Rgb) || a
            == Action::Channel(Channel::Rgba),
        tip(a, fit).1 == Some(KeyAction::ToggleTonemap) <==> a == Action::ToggleTonemap,
        tip(a, fit).1 == Some(KeyAction::ExposureUp) <==> a == Action::ExpUp,
        tip(a, fit).1 == Some(KeyAction::ExposureDown) <==> a == Action::ExpDown,
        tip(a, fit).1 == Some(KeyAction::ExposureReset) <==> a == Action::ExpReset,
        tip(a, fit).1 == Some(KeyAction::ToggleOutline) <==> a == Action::ToggleOutline,
        tip(a, fit).1 == Some(KeyAction::ToggleFullscreen) <==> a == Action::ToggleFullscreen,
        tip(a, fit).1 == Some(KeyAction::ToggleFlipbook) <==> a == Action::ToggleFlipbook,
        tip(a, fit).1 is None <==> a is Background || a == Action::OpenWithMenu || a
            == Action::Overflow || a == Action::OpenSettings,
{
}

/// Which icon a button wears: pairs of opposite buttons wear opposite icons, the zoom button
/// wears what a press would bring, and only the settings button wears none of the set.
pub proof fn law_icons_tell_buttons_apart(a: Action, fit: bool, alpha: bool)
    ensures
        button_icon(a, fit, alpha) is None <==> a == Action::OpenSettings,
        button_icon(a, fit, alpha) == Some(Icon::Left) <==> a == Action::Prev,
        button_icon(a, fit, alpha) == Some(Icon::Right) <==> a == Action::Next,
        button_icon(a, fit, alpha) == Some(Icon::ZoomIn) <==> a == Action::ZoomIn,
        button_icon(a, fit, alpha) == Some(Icon::ZoomOut) <==> a == Action::ZoomOut,
        button_icon(a, fit, alpha) == Some(Icon::OneToOne) <==> a == Action::ZoomToggle && fit,
        button_icon(a, fit, alpha) == Some(Icon::Fit) <==> a == Action::ZoomToggle && !fit,
        button_icon(a, fit, alpha) == Some(Icon::EvUp) <==> a == Action::ExpUp,
        button_icon(a, fit, alpha) == Some(Icon::EvDown) <==> a == Action::ExpDown,
        button_icon(a, fit, alpha) == Some(Icon::EvReset) <==> a == Action::ExpReset,
        button_icon(a, fit, alpha) == Some(Icon::Aces) <==> a == Action::ToggleTonemap,
        button_icon(a, fit, alpha) == Some(Icon::Outline) <==> a == Action::ToggleOutline,
        button_icon(a, fit, alpha) == Some(Icon::Fullscreen) <==> a == Action::ToggleFullscreen,
        button_icon(a, fit, alpha) == Some(Icon::Flipbook) <==> a == Action::ToggleFlipbook,
        button_icon(a, fit, alpha) == Some(Icon::OpenWith) <==> a == Action::OpenWithMenu,
        button_icon(a, fit, alpha) == Some(Icon::More) <==> a == Action::Overflow,
        button_icon(a, fit, alpha) == Some(Icon::White) <==> a == Action::Background(
            Background::White,
        ),
        button_icon(a, fit, alpha) == Some(Icon::Checker) <==> a == Action::Background(
            Background::Checker,
        ),
        button_icon(a, fit, alpha) == Some(Icon::R) <==> a == Action::Channel(Channel::R),
        button_icon(a, fit, alpha) == Some(Icon::A) <==> a == Action::Channel(Channel::A),
        button_icon(a, fit, alpha) == Some(Icon::B) <==> a == Action::Channel(Channel::B) || a
            == Action::Background(Background::Black),
        button_icon(a, fit, alpha) == Some(Icon::G) <==> a == Action::Channel(Channel::G) || a
            == Action::Background(Background::Grey),
        button_icon(a, fit, alpha) == Some(Icon::Rgba) <==> alpha && (a == Action::Channel(
            Channel::Rgb,
        ) || a == Action::Channel(Channel::Rgba)),
        button_icon(a, fit, alpha) == Some(Icon::Rgb) <==> !alpha && (a == Action::Channel(
            Channel::Rgb,
        ) || a == Action::Channel(Channel::Rgba)),
{
}

/// A packed colour holds red in its lowest byte, then green, then blue, and the other packing
/// holds the same three bytes the other way round.
pub proof fn law_packed_bytes(r: u8, g: u8, b: u8, c: u32)
    ensures
        colorref(r, g, b) % 256 == r,
        colorref(r, g, b) / 256 % 256 == g,
        colorref(r, g, b) / 65536 == b,
        swapped(c) % 256 == c / 65536 % 256,
        swapped(c) / 256 % 256 == c / 256 % 256,
        swapped(c) / 65536 == c % 256,
{
}

/// In either mode text stands out: light on dark or dark on light, faint text less so, a button
/// under the pointer moves towards the text, and the accent marks what is on. Every surface is
/// darker in dark mode, and the picture then lies on black.
pub proof fn law_palette_contrasts(dark: bool, accent: u32)
    ensures
        ({
            let p = palette(dark, accent);
            let light = palette(false, accent);
            let night = palette(true, accent);
            &&& p.btn_active == accent
            &&& dark <==> p.text > p.toolbar_bg
            &&& dark <==> p.text > p.status_bg
            &&& dark <==> p.text > p.text_dim
            &&& dark <==> p.text_dim > p.toolbar_bg
            &&& dark <==> p.btn_hover > p.toolbar_bg
            &&& dark <==> p.separator > p.toolbar_bg
            &&& dark <==> p.border > p.separator
            &&& p.status_bg < p.toolbar_bg
            &&& dark <==> p.view_clear == 0
            &&& night.toolbar_bg < light.toolbar_bg
            &&& night.status_bg < light.status_bg
            &&& night.text > light.text
            &&& night.btn_hover < light.btn_hover
            &&& night.separator < light.separator
            &&& night.border < light.border
            &&& night.view_clear < light.view_clear
        }),
{
}

/// A button with a key says what the list of keys says of it, but for the two whose words are
/// shorter on the button.
pub proof fn law_tips_read_like_the_key_list(a: Action, fit: bool)
    ensures
        tip(a, fit).1 matches Some(k) ==> (k == KeyAction::ActualSize || k
            == KeyAction::ChannelRgb || tip(a, fit).0 == crate::keybinds::action_label(k)),
{
}

} // verus!
