//! Keyboard bindings: the bindable actions, the chord table over them, and its form in the
//! settings.
use crate::chord::{
    chord_display, chord_text, is_reserved_key, law_chord_text_reads_back, parse_chord, plain_chord,
    KeyChord, Platform,
};
use crate::config::{chord_texts, key_text, KeyText, KeyValue, KeybindsCfg};
use crate::text::{is_blank, same_text, trim};
use vstd::prelude::*;
use winit::keyboard::KeyCode;

verus! {

/// A rebindable keyboard command, in the order the settings list them.
#[derive(Debug, Clone, Copy, PartialEq, Eq, Structural)]
pub enum KeyAction {
    OpenFile,
    CloseImage,
    Fit,
    ActualSize,
    ZoomIn,
    ZoomOut,
    ChannelRgb,
    ChannelR,
    ChannelG,
    ChannelB,
    ChannelA,
    ToggleTonemap,
    ExposureUp,
    ExposureDown,
    ExposureReset,
    ToggleOutline,
    /// Walk the four backdrops.
    CycleBackdrop,
    PrevImage,
    NextImage,
    ToggleFullscreen,
    /// Leave full screen if in it, otherwise close the window.
    CloseOrExitFullscreen,
    ToggleFlipbook,
    FlipbookPlayPause,
    FlipbookPrevFrame,
    FlipbookNextFrame,
}

/// Every action, in list order.
pub open spec fn all_actions() -> Seq<KeyAction> {
    seq![
        KeyAction::OpenFile,
        KeyAction::CloseImage,
        KeyAction::Fit,
        KeyAction::ActualSize,
        KeyAction::ZoomIn,
        KeyAction::ZoomOut,
        KeyAction::ChannelRgb,
        KeyAction::ChannelR,
        KeyAction::ChannelG,
        KeyAction::ChannelB,
        KeyAction::ChannelA,
        KeyAction::ToggleTonemap,
        KeyAction::ExposureUp,
        KeyAction::ExposureDown,
        KeyAction::ExposureReset,
        KeyAction::ToggleOutline,
        KeyAction::CycleBackdrop,
        KeyAction::PrevImage,
        KeyAction::NextImage,
        KeyAction::ToggleFullscreen,
        KeyAction::CloseOrExitFullscreen,
        KeyAction::ToggleFlipbook,
        KeyAction::FlipbookPlayPause,
        KeyAction::FlipbookPrevFrame,
        KeyAction::FlipbookNextFrame,
    ]
}

/// The place of an action in the list.
pub open spec fn action_index(a: KeyAction) -> int {
    match a {
        KeyAction::OpenFile => 0,
        KeyAction::CloseImage => 1,
        KeyAction::Fit => 2,
        KeyAction::ActualSize => 3,
        KeyAction::ZoomIn => 4,
        KeyAction::ZoomOut => 5,
        KeyAction::ChannelRgb => 6,
        KeyAction::ChannelR => 7,
        KeyAction::ChannelG => 8,
        KeyAction::ChannelB => 9,
        KeyAction::ChannelA => 10,
        KeyAction::ToggleTonemap => 11,
        KeyAction::ExposureUp => 12,
        KeyAction::ExposureDown => 13,
        KeyAction::ExposureReset => 14,
        KeyAction::ToggleOutline => 15,
        KeyAction::CycleBackdrop => 16,
        KeyAction::PrevImage => 17,
        KeyAction::NextImage => 18,
        KeyAction::ToggleFullscreen => 19,
        KeyAction::CloseOrExitFullscreen => 20,
        KeyAction::ToggleFlipbook => 21,
        KeyAction::FlipbookPlayPause => 22,
        KeyAction::FlipbookPrevFrame => 23,
        KeyAction::FlipbookNextFrame => 24,
    }
}

/// The settings name of an action.
pub open spec fn action_name(a: KeyAction) -> Seq<char> {
    match a {
        KeyAction::OpenFile => "open-file"@,
        KeyAction::CloseImage => "close-image"@,
        KeyAction::Fit => "fit"@,
        KeyAction::ActualSize => "actual-size"@,
        KeyAction::ZoomIn => "zoom-in"@,
        KeyAction::ZoomOut => "zoom-out"@,
        KeyAction::ChannelRgb => "all-channels"@,
        KeyAction::ChannelR => "red-channel"@,
        KeyAction::ChannelG => "green-channel"@,
        KeyAction::ChannelB => "blue-channel"@,
        KeyAction::ChannelA => "alpha-channel"@,
        KeyAction::ToggleTonemap => "toggle-tonemap"@,
        KeyAction::ExposureUp => "exposure-up"@,
        KeyAction::ExposureDown => "exposure-down"@,
        KeyAction::ExposureReset => "exposure-reset"@,
        KeyAction::ToggleOutline => "toggle-outline"@,
        KeyAction::CycleBackdrop => "cycle-backdrop"@,
        KeyAction::PrevImage => "previous-image"@,
        KeyAction::NextImage => "next-image"@,
        KeyAction::ToggleFullscreen => "toggle-fullscreen"@,
        KeyAction::CloseOrExitFullscreen => "close-or-exit-fullscreen"@,
        KeyAction::ToggleFlipbook => "toggle-flipbook"@,
        KeyAction::FlipbookPlayPause => "flipbook-play-pause"@,
        KeyAction::FlipbookPrevFrame => "flipbook-previous-frame"@,
        KeyAction::FlipbookNextFrame => "flipbook-next-frame"@,
    }
}

/// The label of an action in the settings list.
pub open spec fn action_label(a: KeyAction) -> Seq<char> {
    match a {
        KeyAction::OpenFile => "Open image\u{2026}"@,
        KeyAction::CloseImage => "Close image"@,
        KeyAction::Fit => "Fit to window"@,
        KeyAction::ActualSize => "Actual size (1:1)"@,
        KeyAction::ZoomIn => "Zoom in"@,
        KeyAction::ZoomOut => "Zoom out"@,
        KeyAction::ChannelRgb => "All channels: RGBA \u{2194} RGB"@,
        KeyAction::ChannelR => "Red channel"@,
        KeyAction::ChannelG => "Green channel"@,
        KeyAction::ChannelB => "Blue channel"@,
        KeyAction::ChannelA => "Alpha channel"@,
        KeyAction::ToggleTonemap => "Tone map: Reinhard \u{2194} ACES"@,
        KeyAction::ExposureUp => "Increase exposure"@,
        KeyAction::ExposureDown => "Decrease exposure"@,
        KeyAction::ExposureReset => "Reset exposure"@,
        KeyAction::ToggleOutline => "Image boundary outline"@,
        KeyAction::CycleBackdrop => "Next backdrop"@,
        KeyAction::PrevImage => "Previous image"@,
        KeyAction::NextImage => "Next image"@,
        KeyAction::ToggleFullscreen => "Full screen"@,
        KeyAction::CloseOrExitFullscreen => "Close window / leave full screen"@,
        KeyAction::ToggleFlipbook => "Flipbook mode"@,
        KeyAction::FlipbookPlayPause => "Play / pause"@,
        KeyAction::FlipbookPrevFrame => "Previous frame"@,
        KeyAction::FlipbookNextFrame => "Next frame"@,
    }
}

/// The heading under which the settings list an action.
pub open spec fn action_group(a: KeyAction) -> Seq<char> {
    match a {
        KeyAction::OpenFile => "File"@,
        KeyAction::CloseImage => "File"@,
        KeyAction::Fit => "View"@,
        KeyAction::ActualSize => "View"@,
        KeyAction::ZoomIn => "View"@,
        KeyAction::ZoomOut => "View"@,
        KeyAction::ChannelRgb => "Channels"@,
        KeyAction::ChannelR => "Channels"@,
        KeyAction::ChannelG => "Channels"@,
        KeyAction::ChannelB => "Channels"@,
        KeyAction::ChannelA => "Channels"@,
        KeyAction::ToggleTonemap => "HDR"@,
        KeyAction::ExposureUp => "HDR"@,
        KeyAction::ExposureDown => "HDR"@,
        KeyAction::ExposureReset => "HDR"@,
        KeyAction::ToggleOutline => "Appearance"@,
        KeyAction::CycleBackdrop => "Appearance"@,
        KeyAction::PrevImage => "Navigation"@,
        KeyAction::NextImage => "Navigation"@,
        KeyAction::ToggleFullscreen => "Window"@,
        KeyAction::CloseOrExitFullscreen => "Window"@,
        KeyAction::ToggleFlipbook => "Flipbook"@,
        KeyAction::FlipbookPlayPause => "Flipbook"@,
        KeyAction::FlipbookPrevFrame => "Flipbook"@,
        KeyAction::FlipbookNextFrame => "Flipbook"@,
    }
}

/// Whether an action fires only while flipbook mode is active.
pub open spec fn in_flipbook_only(a: KeyAction) -> bool {
    a is FlipbookPlayPause || a is FlipbookPrevFrame || a is FlipbookNextFrame
}

/// The action with a settings name.
pub open spec fn named_action(name: Seq<char>) -> Option<KeyAction> {
    if name == "open-file"@ {
        Some(KeyAction::OpenFile)
    } else if name == "close-image"@ {
        Some(KeyAction::CloseImage)
    } else if name == "fit"@ {
        Some(KeyAction::Fit)
    } else if name == "actual-size"@ {
        Some(KeyAction::ActualSize)
    } else if name == "zoom-in"@ {
        Some(KeyAction::ZoomIn)
    } else if name == "zoom-out"@ {
        Some(KeyAction::ZoomOut)
    } else if name == "all-channels"@ {
        Some(KeyAction::ChannelRgb)
    } else if name == "red-channel"@ {
        Some(KeyAction::ChannelR)
    } else if name == "green-channel"@ {
        Some(KeyAction::ChannelG)
    } else if name == "blue-channel"@ {
        Some(KeyAction::ChannelB)
    } else if name == "alpha-channel"@ {
        Some(KeyAction::ChannelA)
    } else if name == "toggle-tonemap"@ {
        Some(KeyAction::ToggleTonemap)
    } else if name == "exposure-up"@ {
        Some(KeyAction::ExposureUp)
    } else if name == "exposure-down"@ {
        Some(KeyAction::ExposureDown)
    } else if name == "exposure-reset"@ {
        Some(KeyAction::ExposureReset)
    } else if name == "toggle-outline"@ {
        Some(KeyAction::ToggleOutline)
    } else if name == "cycle-backdrop"@ {
        Some(KeyAction::CycleBackdrop)
    } else if name == "previous-image"@ {
        Some(KeyAction::PrevImage)
    } else if name == "next-image"@ {
        Some(KeyAction::NextImage)
    } else if name == "toggle-fullscreen"@ {
        Some(KeyAction::ToggleFullscreen)
    } else if name == "close-or-exit-fullscreen"@ {
        Some(KeyAction::CloseOrExitFullscreen)
    } else if name == "toggle-flipbook"@ {
        Some(KeyAction::ToggleFlipbook)
    } else if name == "flipbook-play-pause"@ {
        Some(KeyAction::FlipbookPlayPause)
    } else if name == "flipbook-previous-frame"@ {
        Some(KeyAction::FlipbookPrevFrame)
    } else if name == "flipbook-next-frame"@ {
        Some(KeyAction::FlipbookNextFrame)
    } else {
        None
    }
}

/// Every action, in list order; the single source of what is bindable.
pub fn all_action_list() -> (v: Vec<KeyAction>)
    ensures
        v@ == all_actions(),
{
    let v = vec![
        KeyAction::OpenFile,
        KeyAction::CloseImage,
        KeyAction::Fit,
        KeyAction::ActualSize,
        KeyAction::ZoomIn,
        KeyAction::ZoomOut,
        KeyAction::ChannelRgb,
        KeyAction::ChannelR,
        KeyAction::ChannelG,
        KeyAction::ChannelB,
        KeyAction::ChannelA,
        KeyAction::ToggleTonemap,
        KeyAction::ExposureUp,
        KeyAction::ExposureDown,
        KeyAction::ExposureReset,
        KeyAction::ToggleOutline,
        KeyAction::CycleBackdrop,
        KeyAction::PrevImage,
        KeyAction::NextImage,
        KeyAction::ToggleFullscreen,
        KeyAction::CloseOrExitFullscreen,
        KeyAction::ToggleFlipbook,
        KeyAction::FlipbookPlayPause,
        KeyAction::FlipbookPrevFrame,
        KeyAction::FlipbookNextFrame,
    ];
    assert(v@ =~= all_actions());
    v
}

impl KeyAction {
    /// The name under which the settings store this action's chords.
    pub fn name(self) -> (s: &'static str)
        ensures
            s@ == action_name(self),
    {
        match self {
            KeyAction::OpenFile => "open-file",
            KeyAction::CloseImage => "close-image",
            KeyAction::Fit => "fit",
            KeyAction::ActualSize => "actual-size",
            KeyAction::ZoomIn => "zoom-in",
            KeyAction::ZoomOut => "zoom-out",
            KeyAction::ChannelRgb => "all-channels",
            KeyAction::ChannelR => "red-channel",
            KeyAction::ChannelG => "green-channel",
            KeyAction::ChannelB => "blue-channel",
            KeyAction::ChannelA => "alpha-channel",
            KeyAction::ToggleTonemap => "toggle-tonemap",
            KeyAction::ExposureUp => "exposure-up",
            KeyAction::ExposureDown => "exposure-down",
            KeyAction::ExposureReset => "exposure-reset",
            KeyAction::ToggleOutline => "toggle-outline",
            KeyAction::CycleBackdrop => "cycle-backdrop",
            KeyAction::PrevImage => "previous-image",
            KeyAction::NextImage => "next-image",
            KeyAction::ToggleFullscreen => "toggle-fullscreen",
            KeyAction::CloseOrExitFullscreen => "close-or-exit-fullscreen",
            KeyAction::ToggleFlipbook => "toggle-flipbook",
            KeyAction::FlipbookPlayPause => "flipbook-play-pause",
            KeyAction::FlipbookPrevFrame => "flipbook-previous-frame",
            KeyAction::FlipbookNextFrame => "flipbook-next-frame",
        }
    }

    /// Human label for the settings list.
    pub fn label(self) -> (s: &'static str)
        ensures
            s@ == action_label(self),
    {
        match self {
            KeyAction::OpenFile => "Open image\u{2026}",
            KeyAction::CloseImage => "Close image",
            KeyAction::Fit => "Fit to window",
            KeyAction::ActualSize => "Actual size (1:1)",
            KeyAction::ZoomIn => "Zoom in",
            KeyAction::ZoomOut => "Zoom out",
            KeyAction::ChannelRgb => "All channels: RGBA \u{2194} RGB",
            KeyAction::ChannelR => "Red channel",
            KeyAction::ChannelG => "Green channel",
            KeyAction::ChannelB => "Blue channel",
            KeyAction::ChannelA => "Alpha channel",
            KeyAction::ToggleTonemap => "Tone map: Reinhard \u{2194} ACES",
            KeyAction::ExposureUp => "Increase exposure",
            KeyAction::ExposureDown => "Decrease exposure",
            KeyAction::ExposureReset => "Reset exposure",
            KeyAction::ToggleOutline => "Image boundary outline",
            KeyAction::CycleBackdrop => "Next backdrop",
            KeyAction::PrevImage => "Previous image",
            KeyAction::NextImage => "Next image",
            KeyAction::ToggleFullscreen => "Full screen",
            KeyAction::CloseOrExitFullscreen => "Close window / leave full screen",
            KeyAction::ToggleFlipbook => "Flipbook mode",
            KeyAction::FlipbookPlayPause => "Play / pause",
            KeyAction::FlipbookPrevFrame => "Previous frame",
            KeyAction::FlipbookNextFrame => "Next frame",
        }
    }

    /// The settings list's group heading for this action.
    pub fn group(self) -> (s: &'static str)
        ensures
            s@ == action_group(self),
    {
        match self {
            KeyAction::OpenFile
            | KeyAction::CloseImage => "File",
            KeyAction::Fit
            | KeyAction::ActualSize
            | KeyAction::ZoomIn
            | KeyAction::ZoomOut => "View",
            KeyAction::ChannelRgb
            | KeyAction::ChannelR
            | KeyAction::ChannelG
            | KeyAction::ChannelB
            | KeyAction::ChannelA => "Channels",
            KeyAction::ToggleTonemap
            | KeyAction::ExposureUp
            | KeyAction::ExposureDown
            | KeyAction::ExposureReset => "HDR",
            KeyAction::ToggleOutline
            | KeyAction::CycleBackdrop => "Appearance",
            KeyAction::PrevImage
            | KeyAction::NextImage => "Navigation",
            KeyAction::ToggleFullscreen
            | KeyAction::CloseOrExitFullscreen => "Window",
            KeyAction::ToggleFlipbook
            | KeyAction::FlipbookPlayPause
            | KeyAction::FlipbookPrevFrame
            | KeyAction::FlipbookNextFrame => "Flipbook",
        }
    }

    /// Whether this action only fires while flipbook mode is active. Such a binding is inert
    /// outside the mode, but still takes part in conflict detection.
    pub fn is_flipbook_context(self) -> (r: bool)
        ensures
            r == in_flipbook_only(self),
    {
        match self {
            KeyAction::FlipbookPlayPause
            | KeyAction::FlipbookPrevFrame
            | KeyAction::FlipbookNextFrame => true,
            _ => false,
        }
    }

    /// The action stored under `name`.
    pub fn from_name(name: &str) -> (r: Option<KeyAction>)
        ensures
            r == named_action(name@),
    {
        if same_text(name, "open-file") {
            Some(KeyAction::OpenFile)
        } else if same_text(name, "close-image") {
            Some(KeyAction::CloseImage)
        } else if same_text(name, "fit") {
            Some(KeyAction::Fit)
        } else if same_text(name, "actual-size") {
            Some(KeyAction::ActualSize)
        } else if same_text(name, "zoom-in") {
            Some(KeyAction::ZoomIn)
        } else if same_text(name, "zoom-out") {
            Some(KeyAction::ZoomOut)
        } else if same_text(name, "all-channels") {
            Some(KeyAction::ChannelRgb)
        } else if same_text(name, "red-channel") {
            Some(KeyAction::ChannelR)
        } else if same_text(name, "green-channel") {
            Some(KeyAction::ChannelG)
        } else if same_text(name, "blue-channel") {
            Some(KeyAction::ChannelB)
        } else if same_text(name, "alpha-channel") {
            Some(KeyAction::ChannelA)
        } else if same_text(name, "toggle-tonemap") {
            Some(KeyAction::ToggleTonemap)
        } else if same_text(name, "exposure-up") {
            Some(KeyAction::ExposureUp)
        } else if same_text(name, "exposure-down") {
            Some(KeyAction::ExposureDown)
        } else if same_text(name, "exposure-reset") {
            Some(KeyAction::ExposureReset)
        } else if same_text(name, "toggle-outline") {
            Some(KeyAction::ToggleOutline)
        } else if same_text(name, "cycle-backdrop") {
            Some(KeyAction::CycleBackdrop)
        } else if same_text(name, "previous-image") {
            Some(KeyAction::PrevImage)
        } else if same_text(name, "next-image") {
            Some(KeyAction::NextImage)
        } else if same_text(name, "toggle-fullscreen") {
            Some(KeyAction::ToggleFullscreen)
        } else if same_text(name, "close-or-exit-fullscreen") {
            Some(KeyAction::CloseOrExitFullscreen)
        } else if same_text(name, "toggle-flipbook") {
            Some(KeyAction::ToggleFlipbook)
        } else if same_text(name, "flipbook-play-pause") {
            Some(KeyAction::FlipbookPlayPause)
        } else if same_text(name, "flipbook-previous-frame") {
            Some(KeyAction::FlipbookPrevFrame)
        } else if same_text(name, "flipbook-next-frame") {
            Some(KeyAction::FlipbookNextFrame)
        } else {
            None
        }
    }

    /// The place of this action in the list.
    fn index(self) -> (i: usize)
        ensures
            i == action_index(self),
            i < 25,
    {
        match self {
            KeyAction::OpenFile => 0,
            KeyAction::CloseImage => 1,
            KeyAction::Fit => 2,
            KeyAction::ActualSize => 3,
            KeyAction::ZoomIn => 4,
            KeyAction::ZoomOut => 5,
            KeyAction::ChannelRgb => 6,
            KeyAction::ChannelR => 7,
            KeyAction::ChannelG => 8,
            KeyAction::ChannelB => 9,
            KeyAction::ChannelA => 10,
            KeyAction::ToggleTonemap => 11,
            KeyAction::ExposureUp => 12,
            KeyAction::ExposureDown => 13,
            KeyAction::ExposureReset => 14,
            KeyAction::ToggleOutline => 15,
            KeyAction::CycleBackdrop => 16,
            KeyAction::PrevImage => 17,
            KeyAction::NextImage => 18,
            KeyAction::ToggleFullscreen => 19,
            KeyAction::CloseOrExitFullscreen => 20,
            KeyAction::ToggleFlipbook => 21,
            KeyAction::FlipbookPlayPause => 22,
            KeyAction::FlipbookPrevFrame => 23,
            KeyAction::FlipbookNextFrame => 24,
        }
    }
}

/// A chord with the primary modifier alone.
pub open spec fn primary_chord(key: KeyCode) -> KeyChord {
    KeyChord { key, primary: true, alt: false, shift: false }
}

/// The shipped chords of an action.
pub open spec fn default_chords(a: KeyAction) -> Seq<KeyChord> {
    match a {
        KeyAction::OpenFile => seq![primary_chord(KeyCode::KeyO)],
        KeyAction::CloseImage => seq![primary_chord(KeyCode::KeyW)],
        KeyAction::Fit => seq![plain_chord(KeyCode::KeyF)],
        KeyAction::ActualSize => seq![plain_chord(KeyCode::Digit1)],
        KeyAction::ZoomIn => seq![plain_chord(KeyCode::Equal), KeyChord { key: KeyCode::Equal, primary: false, alt: false, shift: true }, plain_chord(KeyCode::NumpadAdd)],
        KeyAction::ZoomOut => seq![plain_chord(KeyCode::Minus), plain_chord(KeyCode::NumpadSubtract)],
        KeyAction::ChannelRgb => seq![plain_chord(KeyCode::KeyC)],
        KeyAction::ChannelR => seq![plain_chord(KeyCode::KeyR)],
        KeyAction::ChannelG => seq![plain_chord(KeyCode::KeyG)],
        KeyAction::ChannelB => seq![plain_chord(KeyCode::KeyB)],
        KeyAction::ChannelA => seq![plain_chord(KeyCode::KeyA)],
        KeyAction::ToggleTonemap => seq![plain_chord(KeyCode::KeyT)],
        KeyAction::ExposureUp => seq![plain_chord(KeyCode::BracketRight)],
        KeyAction::ExposureDown => seq![plain_chord(KeyCode::BracketLeft)],
        KeyAction::ExposureReset => Seq::empty(),
        KeyAction::ToggleOutline => Seq::empty(),
        KeyAction::CycleBackdrop => seq![plain_chord(KeyCode::KeyZ)],
        KeyAction::PrevImage => seq![plain_chord(KeyCode::ArrowLeft)],
        KeyAction::NextImage => seq![plain_chord(KeyCode::ArrowRight)],
        KeyAction::ToggleFullscreen => seq![plain_chord(KeyCode::F11)],
        KeyAction::CloseOrExitFullscreen => seq![plain_chord(KeyCode::Escape)],
        KeyAction::ToggleFlipbook => seq![plain_chord(KeyCode::KeyK)],
        KeyAction::FlipbookPlayPause => seq![plain_chord(KeyCode::Space)],
        KeyAction::FlipbookPrevFrame => seq![plain_chord(KeyCode::Comma)],
        KeyAction::FlipbookNextFrame => seq![plain_chord(KeyCode::Period)],
    }
}

fn default_chord_list(a: KeyAction) -> (v: Vec<KeyChord>)
    ensures
        v@ == default_chords(a),
{
    let v = match a {
        KeyAction::OpenFile => vec![KeyChord { key: KeyCode::KeyO, primary: true, alt: false, shift: false }],
        KeyAction::CloseImage => vec![KeyChord { key: KeyCode::KeyW, primary: true, alt: false, shift: false }],
        KeyAction::Fit => vec![KeyChord::plain(KeyCode::KeyF)],
        KeyAction::ActualSize => vec![KeyChord::plain(KeyCode::Digit1)],
        KeyAction::ZoomIn => vec![KeyChord::plain(KeyCode::Equal), KeyChord { key: KeyCode::Equal, primary: false, alt: false, shift: true }, KeyChord::plain(KeyCode::NumpadAdd)],
        KeyAction::ZoomOut => vec![KeyChord::plain(KeyCode::Minus), KeyChord::plain(KeyCode::NumpadSubtract)],
        KeyAction::ChannelRgb => vec![KeyChord::plain(KeyCode::KeyC)],
        KeyAction::ChannelR => vec![KeyChord::plain(KeyCode::KeyR)],
        KeyAction::ChannelG => vec![KeyChord::plain(KeyCode::KeyG)],
        KeyAction::ChannelB => vec![KeyChord::plain(KeyCode::KeyB)],
        KeyAction::ChannelA => vec![KeyChord::plain(KeyCode::KeyA)],
        KeyAction::ToggleTonemap => vec![KeyChord::plain(KeyCode::KeyT)],
        KeyAction::ExposureUp => vec![KeyChord::plain(KeyCode::BracketRight)],
        KeyAction::ExposureDown => vec![KeyChord::plain(KeyCode::BracketLeft)],
        KeyAction::ExposureReset => Vec::new(),
        KeyAction::ToggleOutline => Vec::new(),
        KeyAction::CycleBackdrop => vec![KeyChord::plain(KeyCode::KeyZ)],
        KeyAction::PrevImage => vec![KeyChord::plain(KeyCode::ArrowLeft)],
        KeyAction::NextImage => vec![KeyChord::plain(KeyCode::ArrowRight)],
        KeyAction::ToggleFullscreen => vec![KeyChord::plain(KeyCode::F11)],
        KeyAction::CloseOrExitFullscreen => vec![KeyChord::plain(KeyCode::Escape)],
        KeyAction::ToggleFlipbook => vec![KeyChord::plain(KeyCode::KeyK)],
        KeyAction::FlipbookPlayPause => vec![KeyChord::plain(KeyCode::Space)],
        KeyAction::FlipbookPrevFrame => vec![KeyChord::plain(KeyCode::Comma)],
        KeyAction::FlipbookNextFrame => vec![KeyChord::plain(KeyCode::Period)],
    };
    assert(v@ =~= default_chords(a));
    v
}


/// The chord table: every action with the chords bound to it, possibly none.
#[derive(Debug)]
pub struct Keybinds {
    bindings: Vec<(KeyAction, Vec<KeyChord>)>,
}

/// A chord table as a function from action to chords.
pub type ChordTable = spec_fn(KeyAction) -> Seq<KeyChord>;

/// The first action in list order, from place `i` on, for which `p` holds.
pub open spec fn first_action(p: spec_fn(KeyAction) -> bool, i: int) -> Option<KeyAction>
    decreases all_actions().len() - i,
{
    if i < 0 || i >= all_actions().len() {
        None
    } else if p(all_actions()[i]) {
        Some(all_actions()[i])
    } else {
        first_action(p, i + 1)
    }
}

/// The first action of the flipbook context, or outside it, that holds `chord`.
pub open spec fn holder(table: ChordTable, chord: KeyChord, flipbook_ctx: bool) -> Option<KeyAction> {
    first_action(holds_in_context(table, chord, flipbook_ctx), 0)
}

/// The test of [`holder`].
pub open spec fn holds_in_context(table: ChordTable, chord: KeyChord, flipbook_ctx: bool) -> spec_fn(
    KeyAction,
) -> bool {
    |a: KeyAction| in_flipbook_only(a) == flipbook_ctx && table(a).contains(chord)
}

/// The action that a press maps to: flipbook bindings come first while the mode is active, and are
/// inert outside it.
pub open spec fn looked_up(table: ChordTable, chord: KeyChord, in_flipbook: bool) -> Option<KeyAction> {
    if in_flipbook && holder(table, chord, true) is Some {
        holder(table, chord, true)
    } else {
        holder(table, chord, false)
    }
}

/// The first action other than `except` that holds `chord`.
pub open spec fn conflicting(table: ChordTable, chord: KeyChord, except: KeyAction) -> Option<KeyAction> {
    first_action(holds_besides(table, chord, except), 0)
}

/// The test of [`conflicting`].
pub open spec fn holds_besides(table: ChordTable, chord: KeyChord, except: KeyAction) -> spec_fn(
    KeyAction,
) -> bool {
    |a: KeyAction| a != except && table(a).contains(chord)
}

/// The chords of `chords` other than `gone`.
pub open spec fn without(chords: Seq<KeyChord>, gone: KeyChord) -> Seq<KeyChord> {
    chords.filter(is_other(gone))
}

/// The test of [`without`].
pub open spec fn is_other(gone: KeyChord) -> spec_fn(KeyChord) -> bool {
    |c: KeyChord| c != gone
}

/// The chords of `a` after `chord` is bound to `action`: the action has it alone, and every other
/// has lost just this chord.
pub open spec fn rebound(table: ChordTable, action: KeyAction, chord: KeyChord, a: KeyAction) -> Seq<
    KeyChord,
> {
    if a == action {
        seq![chord]
    } else {
        without(table(a), chord)
    }
}

/// The chords that texts read as, in order, without those that do not read or may not be bound.
pub open spec fn read_chords(texts: Seq<Seq<char>>) -> Seq<KeyChord>
    decreases texts.len(),
{
    if texts.len() == 0 {
        Seq::empty()
    } else {
        let rest = read_chords(texts.drop_last());
        match parse_chord(texts.last()) {
            Some(c) => if is_reserved_key(c.key) {
                rest
            } else {
                rest.push(c)
            },
            None => rest,
        }
    }
}

/// Whether every text is blank, which unbinds an action.
pub open spec fn all_blank(texts: Seq<Seq<char>>) -> bool {
    forall|k: int| 0 <= k < texts.len() ==> trim(#[trigger] texts[k]).len() == 0
}

/// The chords of an action under stored settings: those that its texts read as; the shipped ones
/// where nothing is stored, or where nothing stored reads and something was written.
pub open spec fn configured(stored: Map<Seq<char>, KeyText>, a: KeyAction) -> Seq<KeyChord> {
    if !stored.contains_key(action_name(a)) {
        default_chords(a)
    } else {
        let texts = chord_texts(stored[action_name(a)]);
        let chords = read_chords(texts);
        if chords.len() == 0 && !all_blank(texts) {
            default_chords(a)
        } else {
            chords
        }
    }
}

/// How chords are stored: an empty text for none, one text for one, a list for more.
pub open spec fn stored_value(chords: Seq<KeyChord>) -> KeyText {
    if chords.len() == 0 {
        KeyText::One(Seq::empty())
    } else if chords.len() == 1 {
        KeyText::One(chord_text(chords[0]))
    } else {
        KeyText::Many(chords.map_values(|c: KeyChord| chord_text(c)))
    }
}

/// `stored` holds the first `n` actions whose chords differ from the shipped ones, and no other.
pub open spec fn stores_prefix(stored: Map<Seq<char>, KeyText>, table: ChordTable, n: int) -> bool {
    &&& forall|name: Seq<char>| #[trigger]
        stored.contains_key(name) <==> exists|i: int|
            0 <= i < n && differs(table, #[trigger] all_actions()[i]) && action_name(
                all_actions()[i],
            ) == name
    &&& forall|i: int|
        0 <= i < n && differs(table, #[trigger] all_actions()[i])
            ==> stored[action_name(all_actions()[i])] == stored_value(table(all_actions()[i]))
}

/// `stored` holds exactly the actions whose chords differ from the shipped ones, with their chords.
pub open spec fn stores(stored: Map<Seq<char>, KeyText>, table: ChordTable) -> bool {
    stores_prefix(stored, table, all_actions().len() as int)
}

/// Whether an action's chords differ from the shipped ones.
pub open spec fn differs(table: ChordTable, a: KeyAction) -> bool {
    table(a) != default_chords(a)
}

/// Whether no chord is held by two actions.
pub open spec fn conflict_free(table: ChordTable) -> bool {
    forall|a: KeyAction, b: KeyAction, c: KeyChord|
        a != b && #[trigger] table(a).contains(c) ==> !#[trigger] table(b).contains(c)
}

proof fn lemma_action_index(a: KeyAction)
    ensures
        0 <= action_index(a) < all_actions().len(),
        all_actions()[action_index(a)] == a,
        all_actions().len() == 25,
        forall|i: int| 0 <= i < 25 ==> action_index(#[trigger] all_actions()[i]) == i,
{
}

/// [`first_action`] finds the earliest action with the property, and one where there is any.
proof fn lemma_first_action(p: spec_fn(KeyAction) -> bool, i: int)
    requires
        0 <= i <= all_actions().len(),
    ensures
        first_action(p, i) matches Some(a) ==> p(a) && action_index(a) >= i && forall|b: KeyAction|
            i <= action_index(b) < action_index(a) ==> !#[trigger] p(b),
        first_action(p, i) is None ==> forall|b: KeyAction| action_index(b) >= i ==> !#[trigger] p(b),
    decreases all_actions().len() - i,
{
    lemma_action_index(KeyAction::Fit);
    if i < all_actions().len() {
        if !p(all_actions()[i]) {
            lemma_first_action(p, i + 1);
            assert forall|b: KeyAction| action_index(b) == i implies !#[trigger] p(b) by {
                lemma_action_index(b);
            }
        } else {
            assert(action_index(all_actions()[i]) == i);
        }
    } else {
        assert forall|b: KeyAction| action_index(b) >= i implies !#[trigger] p(b) by {
            lemma_action_index(b);
        }
    }
}

fn holds(chords: &Vec<KeyChord>, chord: KeyChord) -> (r: bool)
    ensures
        r == chords@.contains(chord),
{
    let mut i: usize = 0;
    while i < chords.len()
        invariant
            i <= chords.len(),
            forall|k: int| 0 <= k < i ==> chords@[k] != chord,
        decreases chords.len() - i,
    {
        if chords[i] == chord {
            assert(chords@[i as int] == chord);
            return true;
        }
        i += 1;
    }
    false
}

fn same_chords(a: &Vec<KeyChord>, b: &Vec<KeyChord>) -> (r: bool)
    ensures
        r == (a@ == b@),
{
    if a.len() != b.len() {
        return false;
    }
    let mut i: usize = 0;
    while i < a.len()
        invariant
            i <= a.len(),
            a.len() == b.len(),
            forall|k: int| 0 <= k < i ==> a@[k] == b@[k],
        decreases a.len() - i,
    {
        if a[i] != b[i] {
            assert(a@[i as int] != b@[i as int]);
            return false;
        }
        i += 1;
    }
    assert(a@ =~= b@);
    true
}

fn removed(chords: &Vec<KeyChord>, gone: KeyChord) -> (r: Vec<KeyChord>)
    ensures
        r@ == without(chords@, gone),
{
    let mut r: Vec<KeyChord> = Vec::new();
    let mut i: usize = 0;
    while i < chords.len()
        invariant
            i <= chords.len(),
            r@ == without(chords@.take(i as int), gone),
        decreases chords.len() - i,
    {
        proof {
            reveal(Seq::filter);
            assert(chords@.take(i + 1).drop_last() =~= chords@.take(i as int));
            assert(chords@.take(i + 1).last() == chords@[i as int]);
        }
        if chords[i] != gone {
            r.push(chords[i]);
        }
        i += 1;
    }
    assert(chords@.take(chords.len() as int) =~= chords@);
    r
}

fn read_chord_texts(texts: &Vec<&str>) -> (r: Vec<KeyChord>)
    ensures
        r@ == read_chords(texts@.map_values(|s: &str| s@)),
{
    let ghost ts = texts@.map_values(|s: &str| s@);
    let mut r: Vec<KeyChord> = Vec::new();
    let mut i: usize = 0;
    while i < texts.len()
        invariant
            i <= texts.len(),
            ts == texts@.map_values(|s: &str| s@),
            r@ == read_chords(ts.take(i as int)),
        decreases texts.len() - i,
    {
        proof {
            assert(ts.take(i + 1).drop_last() =~= ts.take(i as int));
            assert(ts.take(i + 1).last() == texts@[i as int]@);
        }
        if let Some(c) = KeyChord::parse(texts[i]) {
            if !c.is_reserved() {
                r.push(c);
            }
        }
        i += 1;
    }
    assert(ts.take(texts.len() as int) =~= ts);
    r
}

fn all_blank_texts(texts: &Vec<&str>) -> (r: bool)
    ensures
        r == all_blank(texts@.map_values(|s: &str| s@)),
{
    let ghost ts = texts@.map_values(|s: &str| s@);
    let mut i: usize = 0;
    while i < texts.len()
        invariant
            i <= texts.len(),
            ts == texts@.map_values(|s: &str| s@),
            forall|k: int| 0 <= k < i ==> trim(#[trigger] ts[k]).len() == 0,
        decreases texts.len() - i,
    {
        assert(ts[i as int] == texts@[i as int]@);
        if !is_blank(texts[i]) {
            return false;
        }
        i += 1;
    }
    true
}

fn stored_chords(chords: &Vec<KeyChord>) -> (v: KeyValue)
    ensures
        key_text(v) == stored_value(chords@),
{
    if chords.len() == 0 {
        return KeyValue::One(String::new());
    }
    if chords.len() == 1 {
        return KeyValue::One(chords[0].format());
    }
    let mut list: Vec<String> = Vec::new();
    let mut i: usize = 0;
    while i < chords.len()
        invariant
            i <= chords.len(),
            list.len() == i,
            forall|k: int| 0 <= k < i ==> (#[trigger] list@[k])@ == chord_text(chords@[k]),
        decreases chords.len() - i,
    {
        list.push(chords[i].format());
        i += 1;
    }
    assert(list@.map_values(|s: String| s@) =~= chords@.map_values(|c: KeyChord| chord_text(c)));
    KeyValue::Many(list)
}

impl Keybinds {
    #[verifier::type_invariant]
    spec fn valid(self) -> bool {
        listed(self.bindings@)
    }

    /// The table as a function from action to chords.
    pub closed spec fn table(self) -> ChordTable {
        |a: KeyAction| self.bindings@[action_index(a)].1@
    }

    /// The shipped bindings.
    pub fn defaults() -> (r: Self)
        ensures
            forall|a: KeyAction| #[trigger] (r.table())(a) == default_chords(a),
    {
        let actions = all_action_list();
        let mut bindings: Vec<(KeyAction, Vec<KeyChord>)> = Vec::new();
        let mut i: usize = 0;
        while i < actions.len()
            invariant
                i <= actions.len(),
                actions@ == all_actions(),
                bindings.len() == i,
                forall|k: int|
                    0 <= k < i ==> (#[trigger] bindings@[k]).0 == all_actions()[k]
                        && bindings@[k].1@ == default_chords(all_actions()[k]),
            decreases actions.len() - i,
        {
            bindings.push((actions[i], default_chord_list(actions[i])));
            i += 1;
        }
        let r = Keybinds { bindings };
        proof {
            assert forall|a: KeyAction| #[trigger] (r.table())(a) == default_chords(a) by {
                lemma_action_index(a);
            }
        }
        r
    }

    /// The table of stored settings: the shipped bindings, with each action that the settings list
    /// overridden. An unknown name or an unreadable chord is skipped; a blank text unbinds.
    pub fn from_config(cfg: &KeybindsCfg) -> (r: Self)
        ensures
            forall|a: KeyAction| #[trigger] (r.table())(a) == configured(cfg.table(), a),
    {
        let actions = all_action_list();
        let mut bindings: Vec<(KeyAction, Vec<KeyChord>)> = Vec::new();
        let mut i: usize = 0;
        while i < actions.len()
            invariant
                i <= actions.len(),
                actions@ == all_actions(),
                bindings.len() == i,
                forall|k: int|
                    0 <= k < i ==> (#[trigger] bindings@[k]).0 == all_actions()[k]
                        && bindings@[k].1@ == configured(cfg.table(), all_actions()[k]),
            decreases actions.len() - i,
        {
            let action = actions[i];
            let chords = match cfg.get(action.name()) {
                Some(value) => {
                    let texts = value.as_strings();
                    let read = read_chord_texts(&texts);
                    if read.len() == 0 && !all_blank_texts(&texts) {
                        default_chord_list(action)
                    } else {
                        read
                    }
                },
                None => default_chord_list(action),
            };
            bindings.push((action, chords));
            i += 1;
        }
        let r = Keybinds { bindings };
        proof {
            assert forall|a: KeyAction| #[trigger] (r.table())(a) == configured(cfg.table(), a) by {
                lemma_action_index(a);
            }
        }
        r
    }

    /// The settings to store: only the actions whose chords differ from the shipped ones.
    pub fn to_config(&self) -> (out: KeybindsCfg)
        ensures
            stores(out.table(), self.table()),
    {
        proof {
            use_type_invariant(self);
        }
        let ghost table = self.table();
        let mut out = KeybindsCfg::new();
        let mut i: usize = 0;
        while i < self.bindings.len()
            invariant
                i <= self.bindings.len(),
                listed(self.bindings@),
                table == self.table(),
                stores_prefix(out.table(), table, i as int),
            decreases self.bindings.len() - i,
        {
            let action = self.bindings[i].0;
            let chords = &self.bindings[i].1;
            proof {
                lemma_action_index(action);
                assert(table(action) == chords@);
            }
            let ghost was = out.table();
            if !same_chords(chords, &default_chord_list(action)) {
                out.insert(action.name().to_owned(), stored_chords(chords));
                proof {
                    lemma_store_one(was, table, i as int);
                }
            } else {
                proof {
                    assert forall|name: Seq<char>| #[trigger] was.contains_key(name) <==> exists|k: int|
                        0 <= k < i + 1 && differs(table, #[trigger] all_actions()[k]) && action_name(
                            all_actions()[k],
                        ) == name by {}
                }
            }
            i += 1;
        }
        out
    }

    /// The chords bound to `action`; empty where it is unbound.
    pub fn chords(&self, action: KeyAction) -> (r: &[KeyChord])
        ensures
            r@ == (self.table())(action),
    {
        proof {
            use_type_invariant(self);
        }
        self.bindings[action.index()].1.as_slice()
    }

    /// The action that a press maps to.
    pub fn lookup(&self, chord: KeyChord, in_flipbook: bool) -> (r: Option<KeyAction>)
        ensures
            r == looked_up(self.table(), chord, in_flipbook),
    {
        if in_flipbook {
            if let Some(a) = self.find(chord, true) {
                return Some(a);
            }
        }
        self.find(chord, false)
    }

    fn find(&self, chord: KeyChord, flipbook_ctx: bool) -> (r: Option<KeyAction>)
        ensures
            r == holder(self.table(), chord, flipbook_ctx),
    {
        proof {
            use_type_invariant(self);
        }
        let ghost table = self.table();
        let ghost p = holds_in_context(table, chord, flipbook_ctx);
        let mut i: usize = 0;
        while i < self.bindings.len()
            invariant
                i <= self.bindings.len(),
                listed(self.bindings@),
                table == self.table(),
                p == holds_in_context(table, chord, flipbook_ctx),
                first_action(p, 0) == first_action(p, i as int),
            decreases self.bindings.len() - i,
        {
            let action = self.bindings[i].0;
            proof {
                lemma_action_index(action);
                assert(table(action) == self.bindings@[i as int].1@);
            }
            if action.is_flipbook_context() == flipbook_ctx && holds(&self.bindings[i].1, chord) {
                return Some(action);
            }
            i += 1;
        }
        None
    }

    /// The action that already holds `chord`, `except` aside. One flat namespace: a flipbook-only
    /// key still conflicts with a global one.
    pub fn conflict(&self, chord: KeyChord, except: KeyAction) -> (r: Option<KeyAction>)
        ensures
            r == conflicting(self.table(), chord, except),
    {
        proof {
            use_type_invariant(self);
        }
        let ghost table = self.table();
        let ghost p = holds_besides(table, chord, except);
        let mut i: usize = 0;
        while i < self.bindings.len()
            invariant
                i <= self.bindings.len(),
                listed(self.bindings@),
                table == self.table(),
                p == holds_besides(table, chord, except),
                first_action(p, 0) == first_action(p, i as int),
            decreases self.bindings.len() - i,
        {
            let action = self.bindings[i].0;
            proof {
                lemma_action_index(action);
                assert(table(action) == self.bindings@[i as int].1@);
            }
            if action != except && holds(&self.bindings[i].1, chord) {
                return Some(action);
            }
            i += 1;
        }
        None
    }

    /// Bind `chord` to `action` as its only chord, taking it from whatever held it: each other
    /// action loses just this chord. Gives the first action that it was taken from.
    pub fn rebind(&mut self, action: KeyAction, chord: KeyChord) -> (loser: Option<KeyAction>)
        ensures
            loser == conflicting(old(self).table(), chord, action),
            forall|a: KeyAction| #[trigger]
                (final(self).table())(a) == rebound(old(self).table(), action, chord, a),
            conflicting(final(self).table(), chord, action) is None,
    {
        let loser = self.conflict(chord, action);
        let actions = all_action_list();
        let mut i: usize = 0;
        while i < actions.len()
            invariant
                i <= actions.len(),
                actions@ == all_actions(),
                forall|a: KeyAction| #[trigger]
                    (self.table())(a) == if a != action && action_index(a) < i {
                        without((old(self).table())(a), chord)
                    } else {
                        (old(self).table())(a)
                    },
            decreases actions.len() - i,
        {
            let a = actions[i];
            proof {
                lemma_action_index(a);
            }
            if a != action {
                let kept = self.chords_without(a, chord);
                self.set_chords(a, kept);
            }
            proof {
                assert forall|b: KeyAction| action_index(b) == i implies b == a by {
                    lemma_action_index(b);
                }
            }
            i += 1;
        }
        let mut only: Vec<KeyChord> = Vec::new();
        only.push(chord);
        assert(only@ =~= seq![chord]);
        self.set_chords(action, only);
        proof {
            assert forall|a: KeyAction| #[trigger]
                (self.table())(a) == rebound(old(self).table(), action, chord, a) by {
                lemma_action_index(a);
            }
            law_rebind_leaves_one_holder(old(self).table(), self.table(), action, chord);
        }
        loser
    }

    fn chords_without(&self, action: KeyAction, gone: KeyChord) -> (r: Vec<KeyChord>)
        ensures
            r@ == without((self.table())(action), gone),
    {
        proof {
            use_type_invariant(self);
        }
        removed(&self.bindings[action.index()].1, gone)
    }

    /// Remove every chord from `action`.
    pub fn unbind(&mut self, action: KeyAction)
        ensures
            forall|a: KeyAction| #[trigger]
                (final(self).table())(a) == if a == action {
                    Seq::empty()
                } else {
                    (old(self).table())(a)
                },
    {
        self.set_chords(action, Vec::new());
    }

    /// Restore one action's shipped chords. This may bring a conflict back.
    pub fn reset(&mut self, action: KeyAction)
        ensures
            forall|a: KeyAction| #[trigger]
                (final(self).table())(a) == if a == action {
                    default_chords(action)
                } else {
                    (old(self).table())(a)
                },
    {
        self.set_chords(action, default_chord_list(action));
    }

    fn set_chords(&mut self, action: KeyAction, chords: Vec<KeyChord>)
        ensures
            forall|a: KeyAction| #[trigger]
                (final(self).table())(a) == if a == action {
                    chords@
                } else {
                    (old(self).table())(a)
                },
    {
        proof {
            use_type_invariant(&*self);
            lemma_action_index(action);
        }
        let mut bindings: Vec<(KeyAction, Vec<KeyChord>)> = all_empty();
        std::mem::swap(&mut bindings, &mut self.bindings);
        bindings.set(action.index(), (action, chords));
        self.bindings = bindings;
        proof {
            assert forall|a: KeyAction| #[trigger] (self.table())(a) == (if a == action {
                chords@
            } else {
                (old(self).table())(a)
            }) by {
                lemma_action_index(a);
            }
        }
    }

    /// The shortcut labels of the tooltips: each bound action's first chord as it is shown.
    pub fn labels(&self, platform: Platform) -> (r: ShortcutLabels)
        ensures
            forall|a: KeyAction| #[trigger] r.label_of(a) == shown_label(self.table(), platform, a),
    {
        proof {
            use_type_invariant(self);
        }
        let ghost table = self.table();
        let mut list: Vec<(KeyAction, String)> = Vec::new();
        let mut i: usize = 0;
        while i < self.bindings.len()
            invariant
                i <= self.bindings.len(),
                listed(self.bindings@),
                table == self.table(),
                forall|k: int|
                    0 <= k < list.len() ==> action_index((#[trigger] list@[k]).0) < i && Some(
                        list@[k].1@,
                    ) == shown_label(table, platform, list@[k].0),
                forall|a: KeyAction|
                    action_index(a) < i && #[trigger] shown_label(table, platform, a) is Some
                        ==> exists|k: int| 0 <= k < list.len() && (#[trigger] list@[k]).0 == a,
            decreases self.bindings.len() - i,
        {
            let action = self.bindings[i].0;
            let ghost was = list@;
            proof {
                lemma_action_index(action);
                assert(table(action) == self.bindings@[i as int].1@);
            }
            if self.bindings[i].1.len() > 0 {
                list.push((action, self.bindings[i].1[0].display(platform)));
                assert(list@[was.len() as int].0 == action);
            }
            proof {
                assert forall|a: KeyAction|
                    action_index(a) < i + 1 && #[trigger] shown_label(table, platform, a) is Some implies exists|
                    k: int,
                |
                    0 <= k < list.len() && (#[trigger] list@[k]).0 == a by {
                    if action_index(a) < i {
                        let k = choose|k: int| 0 <= k < was.len() && (#[trigger] was[k]).0 == a;
                        assert(list@[k] == was[k]);
                    } else {
                        lemma_action_index(a);
                        assert(a == action);
                        assert(list@[was.len() as int].0 == a);
                    }
                }
            }
            i += 1;
        }
        let r = ShortcutLabels { list };
        proof {
            assert forall|a: KeyAction| #[trigger] r.label_of(a) == shown_label(table, platform, a) by {
                lemma_action_index(a);
                lemma_label_in(list@, a);
            }
        }
        r
    }
}

/// A list of bindings has one entry per action, in list order.
spec fn listed(bindings: Seq<(KeyAction, Vec<KeyChord>)>) -> bool {
    &&& bindings.len() == all_actions().len()
    &&& forall|i: int| 0 <= i < bindings.len() ==> (#[trigger] bindings[i]).0 == all_actions()[i]
}

fn all_empty() -> (bindings: Vec<(KeyAction, Vec<KeyChord>)>)
    ensures
        listed(bindings@),
{
    let actions = all_action_list();
    let mut bindings: Vec<(KeyAction, Vec<KeyChord>)> = Vec::new();
    let mut i: usize = 0;
    while i < actions.len()
        invariant
            i <= actions.len(),
            actions@ == all_actions(),
            bindings.len() == i,
            forall|k: int| 0 <= k < i ==> (#[trigger] bindings@[k]).0 == all_actions()[k],
        decreases actions.len() - i,
    {
        bindings.push((actions[i], Vec::new()));
        i += 1;
    }
    bindings
}

impl Default for Keybinds {
    fn default() -> (r: Self)
        ensures
            forall|a: KeyAction| #[trigger] (r.table())(a) == default_chords(a),
    {
        Keybinds::defaults()
    }
}

/// What a tooltip shows for an action: its first chord, or nothing where it is unbound.
pub open spec fn shown_label(table: ChordTable, platform: Platform, a: KeyAction) -> Option<Seq<char>> {
    if table(a).len() > 0 {
        Some(chord_display(table(a)[0], platform))
    } else {
        None
    }
}

/// First-chord texts by action, so that a tooltip shows the current binding.
#[derive(Debug, Clone)]
pub struct ShortcutLabels {
    list: Vec<(KeyAction, String)>,
}

spec fn label_in(list: Seq<(KeyAction, String)>, a: KeyAction) -> Option<Seq<char>>
    decreases list.len(),
{
    if list.len() == 0 {
        None
    } else if list[0].0 == a {
        Some(list[0].1@)
    } else {
        label_in(list.skip(1), a)
    }
}

proof fn lemma_label_in(list: Seq<(KeyAction, String)>, a: KeyAction)
    ensures
        label_in(list, a) is Some <==> exists|k: int| 0 <= k < list.len() && (#[trigger] list[k]).0 == a,
        label_in(list, a) matches Some(s) ==> exists|k: int|
            0 <= k < list.len() && (#[trigger] list[k]).0 == a && list[k].1@ == s,
    decreases list.len(),
{
    if list.len() > 0 && list[0].0 != a {
        let t = list.skip(1);
        lemma_label_in(t, a);
        if label_in(t, a) is Some {
            let s = label_in(t, a)->0;
            let k = choose|k: int| 0 <= k < t.len() && (#[trigger] t[k]).0 == a && t[k].1@ == s;
            assert(list[k + 1] == t[k]);
        }
        assert forall|k: int| 0 <= k < list.len() && (#[trigger] list[k]).0 == a implies label_in(
            list,
            a,
        ) is Some by {
            assert(t[k - 1] == list[k]);
        }
    }
}

impl ShortcutLabels {
    /// The label of an action.
    pub closed spec fn label_of(self, a: KeyAction) -> Option<Seq<char>> {
        label_in(self.list@, a)
    }

    /// No labels at all.
    pub fn none() -> (r: Self)
        ensures
            forall|a: KeyAction| #[trigger] r.label_of(a) is None,
    {
        ShortcutLabels { list: Vec::new() }
    }

    /// The first chord of `action`, or `None` where it is unbound.
    pub fn get(&self, action: KeyAction) -> (r: Option<&str>)
        ensures
            r is Some <==> self.label_of(action) is Some,
            r matches Some(s) ==> Some(s@) == self.label_of(action),
    {
        let mut i: usize = 0;
        assert(self.list@.skip(0) =~= self.list@);
        while i < self.list.len()
            invariant
                i <= self.list.len(),
                label_in(self.list@, action) == label_in(self.list@.skip(i as int), action),
            decreases self.list.len() - i,
        {
            assert(self.list@.skip(i as int)[0] == self.list@[i as int]);
            assert(self.list@.skip(i as int).skip(1) =~= self.list@.skip(i + 1));
            if self.list[i].0 == action {
                return Some(self.list[i].1.as_str());
            }
            i += 1;
        }
        None
    }

    /// `"  (F)"`, the tooltip suffix of `action`, or nothing where it is unbound.
    pub fn suffix(&self, action: KeyAction) -> (s: String)
        ensures
            s@ == label_suffix(self.label_of(action)),
    {
        match self.get(action) {
            Some(k) => {
                let mut s = String::new();
                s.append("  (");
                s.append(k);
                s.append(")");
                assert(s@ =~= "  ("@ + k@ + ")"@);
                s
            },
            None => String::new(),
        }
    }
}

/// The tooltip suffix of a label.
pub open spec fn label_suffix(label: Option<Seq<char>>) -> Seq<char> {
    match label {
        Some(k) => "  ("@ + k + ")"@,
        None => Seq::empty(),
    }
}


proof fn lemma_names_distinct()
    ensures
        forall|a: KeyAction, b: KeyAction|
            #[trigger] action_name(a) == #[trigger] action_name(b) ==> a == b,
{
    reveal_strlit("open-file");
    reveal_strlit("close-image");
    reveal_strlit("fit");
    reveal_strlit("actual-size");
    reveal_strlit("zoom-in");
    reveal_strlit("zoom-out");
    reveal_strlit("all-channels");
    reveal_strlit("red-channel");
    reveal_strlit("green-channel");
    reveal_strlit("blue-channel");
    reveal_strlit("alpha-channel");
    reveal_strlit("toggle-tonemap");
    reveal_strlit("exposure-up");
    reveal_strlit("exposure-down");
    reveal_strlit("exposure-reset");
    reveal_strlit("toggle-outline");
    reveal_strlit("cycle-backdrop");
    reveal_strlit("previous-image");
    reveal_strlit("next-image");
    reveal_strlit("toggle-fullscreen");
    reveal_strlit("close-or-exit-fullscreen");
    reveal_strlit("toggle-flipbook");
    reveal_strlit("flipbook-play-pause");
    reveal_strlit("flipbook-previous-frame");
    reveal_strlit("flipbook-next-frame");
    assert("open-file"@.len() == 9);
    assert("close-image"@.len() == 11);
    assert("close-image"@[0] == 'c');
    assert("fit"@.len() == 3);
    assert("actual-size"@.len() == 11);
    assert("actual-size"@[0] == 'a');
    assert("zoom-in"@.len() == 7);
    assert("zoom-out"@.len() == 8);
    assert("all-channels"@.len() == 12);
    assert("all-channels"@[0] == 'a');
    assert("red-channel"@.len() == 11);
    assert("red-channel"@[0] == 'r');
    assert("green-channel"@.len() == 13);
    assert("green-channel"@[0] == 'g');
    assert("blue-channel"@.len() == 12);
    assert("blue-channel"@[0] == 'b');
    assert("alpha-channel"@.len() == 13);
    assert("alpha-channel"@[0] == 'a');
    assert("toggle-tonemap"@.len() == 14);
    assert("toggle-tonemap"@[0] == 't');
    assert("toggle-tonemap"@[7] == 't');
    assert("exposure-up"@.len() == 11);
    assert("exposure-up"@[0] == 'e');
    assert("exposure-down"@.len() == 13);
    assert("exposure-down"@[0] == 'e');
    assert("exposure-reset"@.len() == 14);
    assert("exposure-reset"@[0] == 'e');
    assert("toggle-outline"@.len() == 14);
    assert("toggle-outline"@[0] == 't');
    assert("toggle-outline"@[7] == 'o');
    assert("cycle-backdrop"@.len() == 14);
    assert("cycle-backdrop"@[0] == 'c');
    assert("previous-image"@.len() == 14);
    assert("previous-image"@[0] == 'p');
    assert("next-image"@.len() == 10);
    assert("toggle-fullscreen"@.len() == 17);
    assert("close-or-exit-fullscreen"@.len() == 24);
    assert("toggle-flipbook"@.len() == 15);
    assert("flipbook-play-pause"@.len() == 19);
    assert("flipbook-play-pause"@[9] == 'p');
    assert("flipbook-previous-frame"@.len() == 23);
    assert("flipbook-next-frame"@.len() == 19);
    assert("flipbook-next-frame"@[9] == 'n');
}

proof fn lemma_store_one(was: Map<Seq<char>, KeyText>, table: ChordTable, i: int)
    requires
        0 <= i < all_actions().len(),
        stores_prefix(was, table, i),
        differs(table, all_actions()[i]),
    ensures
        stores_prefix(
            was.insert(action_name(all_actions()[i]), stored_value(table(all_actions()[i]))),
            table,
            i + 1,
        ),
{
    let a = all_actions()[i];
    let now = was.insert(action_name(a), stored_value(table(a)));
    lemma_names_distinct();
    lemma_action_index(a);
    assert forall|name: Seq<char>| #[trigger] now.contains_key(name) <==> exists|k: int|
        0 <= k < i + 1 && differs(table, #[trigger] all_actions()[k]) && action_name(
            all_actions()[k],
        ) == name by {
        if name == action_name(a) {
            assert(differs(table, all_actions()[i]));
        } else {
            assert(now.contains_key(name) == was.contains_key(name));
        }
    }
    assert forall|k: int| 0 <= k < i + 1 && differs(table, #[trigger] all_actions()[k]) implies now[action_name(
        all_actions()[k],
    )] == stored_value(table(all_actions()[k])) by {
        if k < i {
            assert(action_index(all_actions()[k]) == k);
            assert(action_name(all_actions()[k]) != action_name(a));
        }
    }
}

/// Reading a name back gives the action that it names.
pub proof fn law_action_names_read_back(a: KeyAction)
    ensures
        named_action(action_name(a)) == Some(a),
{
    lemma_names_distinct();

    assert(action_name(KeyAction::OpenFile) == "open-file"@);
    assert(action_name(KeyAction::CloseImage) == "close-image"@);
    assert(action_name(KeyAction::Fit) == "fit"@);
    assert(action_name(KeyAction::ActualSize) == "actual-size"@);
    assert(action_name(KeyAction::ZoomIn) == "zoom-in"@);
    assert(action_name(KeyAction::ZoomOut) == "zoom-out"@);
    assert(action_name(KeyAction::ChannelRgb) == "all-channels"@);
    assert(action_name(KeyAction::ChannelR) == "red-channel"@);
    assert(action_name(KeyAction::ChannelG) == "green-channel"@);
    assert(action_name(KeyAction::ChannelB) == "blue-channel"@);
    assert(action_name(KeyAction::ChannelA) == "alpha-channel"@);
    assert(action_name(KeyAction::ToggleTonemap) == "toggle-tonemap"@);
    assert(action_name(KeyAction::ExposureUp) == "exposure-up"@);
    assert(action_name(KeyAction::ExposureDown) == "exposure-down"@);
    assert(action_name(KeyAction::ExposureReset) == "exposure-reset"@);
    assert(action_name(KeyAction::ToggleOutline) == "toggle-outline"@);
    assert(action_name(KeyAction::CycleBackdrop) == "cycle-backdrop"@);
    assert(action_name(KeyAction::PrevImage) == "previous-image"@);
    assert(action_name(KeyAction::NextImage) == "next-image"@);
    assert(action_name(KeyAction::ToggleFullscreen) == "toggle-fullscreen"@);
    assert(action_name(KeyAction::CloseOrExitFullscreen) == "close-or-exit-fullscreen"@);
    assert(action_name(KeyAction::ToggleFlipbook) == "toggle-flipbook"@);
    assert(action_name(KeyAction::FlipbookPlayPause) == "flipbook-play-pause"@);
    assert(action_name(KeyAction::FlipbookPrevFrame) == "flipbook-previous-frame"@);
    assert(action_name(KeyAction::FlipbookNextFrame) == "flipbook-next-frame"@);
}

/// A flipbook binding is inert outside the mode: only there can its action come out.
pub proof fn law_flipbook_keys_inert_outside(table: ChordTable, chord: KeyChord)
    ensures
        looked_up(table, chord, false) matches Some(a) ==> !in_flipbook_only(a),
{
    lemma_first_action(holds_in_context(table, chord, false), 0);
}

/// Chords match exactly: an action comes out only of a chord that it holds, and a chord that some
/// action outside the flipbook context holds always gives one.
pub proof fn law_lookup_is_exact(table: ChordTable, chord: KeyChord, in_flipbook: bool, b: KeyAction)
    ensures
        looked_up(table, chord, in_flipbook) matches Some(a) ==> table(a).contains(chord),
        table(b).contains(chord) && (in_flipbook || !in_flipbook_only(b)) ==> looked_up(
            table,
            chord,
            in_flipbook,
        ) is Some,
{
    lemma_first_action(holds_in_context(table, chord, true), 0);
    lemma_first_action(holds_in_context(table, chord, false), 0);
    lemma_action_index(b);
    if table(b).contains(chord) {
        assert(holds_in_context(table, chord, in_flipbook_only(b))(b));
    }
}

/// Rebinding leaves a chord with one holder, however many held it before.
pub proof fn law_rebind_leaves_one_holder(
    before: ChordTable,
    after: ChordTable,
    action: KeyAction,
    chord: KeyChord,
)
    requires
        forall|a: KeyAction| #[trigger] after(a) == rebound(before, action, chord, a),
    ensures
        forall|a: KeyAction| #[trigger] after(a).contains(chord) <==> a == action,
        conflicting(after, chord, action) is None,
{
    assert forall|a: KeyAction| #[trigger] after(a).contains(chord) <==> a == action by {
        lemma_rebound_contains(before, action, chord, a, chord);
        assert(seq![chord][0] == chord);
    }
    lemma_first_action(holds_besides(after, chord, action), 0);
}

/// Where no chord is held twice, rebinding keeps it so.
pub proof fn law_rebind_keeps_conflict_free(
    before: ChordTable,
    after: ChordTable,
    action: KeyAction,
    chord: KeyChord,
)
    requires
        conflict_free(before),
        forall|a: KeyAction| #[trigger] after(a) == rebound(before, action, chord, a),
    ensures
        conflict_free(after),
{
    assert forall|a: KeyAction, b: KeyAction, c: KeyChord|
        a != b && #[trigger] after(a).contains(c) implies !#[trigger] after(b).contains(c) by {
        lemma_rebound_contains(before, action, chord, a, c);
        lemma_rebound_contains(before, action, chord, b, c);
    }
}

proof fn lemma_rebound_contains(
    before: ChordTable,
    action: KeyAction,
    chord: KeyChord,
    a: KeyAction,
    c: KeyChord,
)
    ensures
        rebound(before, action, chord, a).contains(c) ==> if a == action {
            c == chord
        } else {
            before(a).contains(c) && c != chord
        },
{
    if a != action {
        broadcast use vstd::seq_lib::group_filter_ensures;
        if without(before(a), chord).contains(c) {
            let w = without(before(a), chord);
            let k = choose|k: int| 0 <= k < w.len() && w[k] == c;
            assert(w[k] != chord);
            before(a).lemma_filter_contains_rev(is_other(chord), c);
        }
    }
}

/// An untouched keyboard stores nothing, and settings that store nothing give the shipped
/// keyboard.
pub proof fn law_defaults_store_nothing(stored: Map<Seq<char>, KeyText>, table: ChordTable)
    requires
        stores(stored, table),
        forall|a: KeyAction| #[trigger] table(a) == default_chords(a),
    ensures
        stored == Map::<Seq<char>, KeyText>::empty(),
        forall|a: KeyAction| #[trigger]
            configured(Map::<Seq<char>, KeyText>::empty(), a) == default_chords(a),
{
    assert(stored =~= Map::<Seq<char>, KeyText>::empty());
}

/// Every chord of the table may be bound.
pub open spec fn is_storable(table: ChordTable) -> bool {
    forall|a: KeyAction, k: int|
        0 <= k < #[trigger] table(a).len() ==> !is_reserved_key((#[trigger] table(a)[k]).key)
}

proof fn lemma_written_chords_read(chords: Seq<KeyChord>)
    requires
        forall|k: int| 0 <= k < chords.len() ==> !is_reserved_key((#[trigger] chords[k]).key),
    ensures
        read_chords(chords.map_values(|c: KeyChord| chord_text(c))) == chords,
    decreases chords.len(),
{
    let texts = chords.map_values(|c: KeyChord| chord_text(c));
    if chords.len() > 0 {
        let t = chords.drop_last();
        assert forall|k: int| 0 <= k < t.len() implies !is_reserved_key((#[trigger] t[k]).key) by {
            assert(t[k] == chords[k]);
        }
        lemma_written_chords_read(t);
        assert(texts.drop_last() =~= t.map_values(|c: KeyChord| chord_text(c)));
        let last = chords[chords.len() - 1];
        law_chord_text_reads_back(last);
        assert(chords =~= t.push(last));
    }
}

/// Stored settings read back as the table that they were stored from, where every chord of it may
/// be bound.
pub proof fn law_settings_read_back(stored: Map<Seq<char>, KeyText>, table: ChordTable, a: KeyAction)
    requires
        stores(stored, table),
        is_storable(table),
    ensures
        configured(stored, a) == table(a),
{
    lemma_names_distinct();
    lemma_action_index(a);
    if differs(table, a) {
        assert(differs(table, all_actions()[action_index(a)]));
        assert(stored.contains_key(action_name(a)));
        let texts = chord_texts(stored[action_name(a)]);
        assert(stored[action_name(a)] == stored_value(table(a)));
        let chords = table(a);
        if chords.len() == 0 {
            assert(texts =~= seq![Seq::<char>::empty()]);
            lemma_empty_text_is_no_chord();
            assert(read_chords(texts) =~= Seq::empty()) by {
                reveal_with_fuel(read_chords, 2);
                assert(texts.drop_last() =~= Seq::empty());
            }
            assert(all_blank(texts)) by {
                assert(trim(Seq::<char>::empty()) =~= Seq::empty());
            }
        } else {
            assert forall|k: int| 0 <= k < chords.len() implies !is_reserved_key(
                (#[trigger] chords[k]).key,
            ) by {
                assert(!is_reserved_key(table(a)[k].key));
            }
            lemma_written_chords_read(chords);
            assert(texts =~= chords.map_values(|c: KeyChord| chord_text(c)));
        }
    } else {
        if stored.contains_key(action_name(a)) {
            let i = choose|i: int|
                0 <= i < all_actions().len() && differs(table, #[trigger] all_actions()[i])
                    && action_name(all_actions()[i]) == action_name(a);
            assert(all_actions()[i] == a);
        }
    }
}

proof fn lemma_empty_text_is_no_chord()
    ensures
        parse_chord(Seq::<char>::empty()) is None,
{
    crate::key_names::lemma_empty_is_no_key();
    let e = Seq::<char>::empty();
    assert(trim(e) =~= e);
    assert(crate::chord::leading_modifier(e) is None);
}

/// Every action is listed once, at its own place.
pub proof fn law_every_action_is_listed(a: KeyAction, b: KeyAction)
    ensures
        0 <= action_index(a) < all_actions().len(),
        all_actions()[action_index(a)] == a,
        action_index(a) == action_index(b) ==> a == b,
        all_actions().len() == 25,
{
}

/// The actions of one group stand together, in the order of the groups: files, the view, the
/// channels, what is for bright images, the looks, paging, the window, the flipbook.
pub proof fn law_groups_stand_together(a: KeyAction)
    ensures
        action_group(a)[0] == 'F' && action_group(a).len() == 4 <==> 0 <= action_index(a) < 2,
        action_group(a)[0] == 'V' <==> 2 <= action_index(a) < 6,
        action_group(a)[0] == 'C' <==> 6 <= action_index(a) < 11,
        action_group(a)[0] == 'H' <==> 11 <= action_index(a) < 15,
        action_group(a)[0] == 'A' <==> 15 <= action_index(a) < 17,
        action_group(a)[0] == 'N' <==> 17 <= action_index(a) < 19,
        action_group(a)[0] == 'W' <==> 19 <= action_index(a) < 21,
        action_group(a)[0] == 'F' && action_group(a).len() == 8 <==> 21 <= action_index(a) < 25,
{
    reveal_strlit("File");
    reveal_strlit("View");
    reveal_strlit("Channels");
    reveal_strlit("HDR");
    reveal_strlit("Appearance");
    reveal_strlit("Navigation");
    reveal_strlit("Window");
    reveal_strlit("Flipbook");
}

/// A text in small letters, with a hyphen for every space.
pub open spec fn hyphened(s: Seq<char>) -> Seq<char> {
    crate::text::ascii_lower_seq(s).map_values(
        |c: char|
            if c == ' ' {
                '-'
            } else {
                c
            },
    )
}

/// An action whose label is two plain words is stored under them.
pub proof fn law_plain_labels_are_names(a: KeyAction)
    requires
        a == KeyAction::CloseImage || a == KeyAction::ZoomIn || a == KeyAction::ZoomOut || a == KeyAction::ChannelR || a == KeyAction::ChannelG || a == KeyAction::ChannelB || a == KeyAction::ChannelA || a == KeyAction::PrevImage || a == KeyAction::NextImage,
    ensures
        action_name(a) == hyphened(action_label(a)),
{
    reveal_strlit("close-image");
    reveal_strlit("Close image");
    reveal_strlit("zoom-in");
    reveal_strlit("Zoom in");
    reveal_strlit("zoom-out");
    reveal_strlit("Zoom out");
    reveal_strlit("red-channel");
    reveal_strlit("Red channel");
    reveal_strlit("green-channel");
    reveal_strlit("Green channel");
    reveal_strlit("blue-channel");
    reveal_strlit("Blue channel");
    reveal_strlit("alpha-channel");
    reveal_strlit("Alpha channel");
    reveal_strlit("previous-image");
    reveal_strlit("Previous image");
    reveal_strlit("next-image");
    reveal_strlit("Next image");
    assert(hyphened("Close image"@) =~= "close-image"@);
    assert(hyphened("Zoom in"@) =~= "zoom-in"@);
    assert(hyphened("Zoom out"@) =~= "zoom-out"@);
    assert(hyphened("Red channel"@) =~= "red-channel"@);
    assert(hyphened("Green channel"@) =~= "green-channel"@);
    assert(hyphened("Blue channel"@) =~= "blue-channel"@);
    assert(hyphened("Alpha channel"@) =~= "alpha-channel"@);
    assert(hyphened("Previous image"@) =~= "previous-image"@);
    assert(hyphened("Next image"@) =~= "next-image"@);
}

/// Which action each key does out of the box: it does that one and no other.
pub proof fn law_default_keys(a: KeyAction)
    ensures
        default_chords(a).contains(primary_chord(KeyCode::KeyO)) <==> a == KeyAction::OpenFile,
        default_chords(a).contains(primary_chord(KeyCode::KeyW)) <==> a == KeyAction::CloseImage,
        default_chords(a).contains(plain_chord(KeyCode::KeyF)) <==> a == KeyAction::Fit,
        default_chords(a).contains(plain_chord(KeyCode::Digit1)) <==> a == KeyAction::ActualSize,
        default_chords(a).contains(plain_chord(KeyCode::Equal)) <==> a == KeyAction::ZoomIn,
        default_chords(a).contains(plain_chord(KeyCode::NumpadAdd)) <==> a == KeyAction::ZoomIn,
        default_chords(a).contains(plain_chord(KeyCode::Minus)) <==> a == KeyAction::ZoomOut,
        default_chords(a).contains(plain_chord(KeyCode::NumpadSubtract)) <==> a == KeyAction::ZoomOut,
        default_chords(a).contains(plain_chord(KeyCode::KeyC)) <==> a == KeyAction::ChannelRgb,
        default_chords(a).contains(plain_chord(KeyCode::KeyR)) <==> a == KeyAction::ChannelR,
        default_chords(a).contains(plain_chord(KeyCode::KeyG)) <==> a == KeyAction::ChannelG,
        default_chords(a).contains(plain_chord(KeyCode::KeyB)) <==> a == KeyAction::ChannelB,
        default_chords(a).contains(plain_chord(KeyCode::KeyA)) <==> a == KeyAction::ChannelA,
        default_chords(a).contains(plain_chord(KeyCode::KeyT)) <==> a == KeyAction::ToggleTonemap,
        default_chords(a).contains(plain_chord(KeyCode::BracketRight)) <==> a == KeyAction::ExposureUp,
        default_chords(a).contains(plain_chord(KeyCode::BracketLeft)) <==> a == KeyAction::ExposureDown,
        default_chords(a).contains(plain_chord(KeyCode::KeyZ)) <==> a == KeyAction::CycleBackdrop,
        default_chords(a).contains(plain_chord(KeyCode::ArrowLeft)) <==> a == KeyAction::PrevImage,
        default_chords(a).contains(plain_chord(KeyCode::ArrowRight)) <==> a == KeyAction::NextImage,
        default_chords(a).contains(plain_chord(KeyCode::F11)) <==> a == KeyAction::ToggleFullscreen,
        default_chords(a).contains(plain_chord(KeyCode::Escape)) <==> a == KeyAction::CloseOrExitFullscreen,
        default_chords(a).contains(plain_chord(KeyCode::KeyK)) <==> a == KeyAction::ToggleFlipbook,
        default_chords(a).contains(plain_chord(KeyCode::Space)) <==> a == KeyAction::FlipbookPlayPause,
        default_chords(a).contains(plain_chord(KeyCode::Comma)) <==> a == KeyAction::FlipbookPrevFrame,
        default_chords(a).contains(plain_chord(KeyCode::Period)) <==> a == KeyAction::FlipbookNextFrame,
{
    assert(default_chords(KeyAction::OpenFile).contains(primary_chord(KeyCode::KeyO))) by {
        assert(default_chords(KeyAction::OpenFile)[0] == primary_chord(KeyCode::KeyO));
    }
    assert(default_chords(KeyAction::CloseImage).contains(primary_chord(KeyCode::KeyW))) by {
        assert(default_chords(KeyAction::CloseImage)[0] == primary_chord(KeyCode::KeyW));
    }
    assert(default_chords(KeyAction::Fit).contains(plain_chord(KeyCode::KeyF))) by {
        assert(default_chords(KeyAction::Fit)[0] == plain_chord(KeyCode::KeyF));
    }
    assert(default_chords(KeyAction::ActualSize).contains(plain_chord(KeyCode::Digit1))) by {
        assert(default_chords(KeyAction::ActualSize)[0] == plain_chord(KeyCode::Digit1));
    }
    assert(default_chords(KeyAction::ZoomIn).contains(plain_chord(KeyCode::Equal))) by {
        assert(default_chords(KeyAction::ZoomIn)[0] == plain_chord(KeyCode::Equal));
    }
    assert(default_chords(KeyAction::ZoomIn).contains(plain_chord(KeyCode::NumpadAdd))) by {
        assert(default_chords(KeyAction::ZoomIn)[2] == plain_chord(KeyCode::NumpadAdd));
    }
    assert(default_chords(KeyAction::ZoomOut).contains(plain_chord(KeyCode::Minus))) by {
        assert(default_chords(KeyAction::ZoomOut)[0] == plain_chord(KeyCode::Minus));
    }
    assert(default_chords(KeyAction::ZoomOut).contains(plain_chord(KeyCode::NumpadSubtract))) by {
        assert(default_chords(KeyAction::ZoomOut)[1] == plain_chord(KeyCode::NumpadSubtract));
    }
    assert(default_chords(KeyAction::ChannelRgb).contains(plain_chord(KeyCode::KeyC))) by {
        assert(default_chords(KeyAction::ChannelRgb)[0] == plain_chord(KeyCode::KeyC));
    }
    assert(default_chords(KeyAction::ChannelR).contains(plain_chord(KeyCode::KeyR))) by {
        assert(default_chords(KeyAction::ChannelR)[0] == plain_chord(KeyCode::KeyR));
    }
    assert(default_chords(KeyAction::ChannelG).contains(plain_chord(KeyCode::KeyG))) by {
        assert(default_chords(KeyAction::ChannelG)[0] == plain_chord(KeyCode::KeyG));
    }
    assert(default_chords(KeyAction::ChannelB).contains(plain_chord(KeyCode::KeyB))) by {
        assert(default_chords(KeyAction::ChannelB)[0] == plain_chord(KeyCode::KeyB));
    }
    assert(default_chords(KeyAction::ChannelA).contains(plain_chord(KeyCode::KeyA))) by {
        assert(default_chords(KeyAction::ChannelA)[0] == plain_chord(KeyCode::KeyA));
    }
    assert(default_chords(KeyAction::ToggleTonemap).contains(plain_chord(KeyCode::KeyT))) by {
        assert(default_chords(KeyAction::ToggleTonemap)[0] == plain_chord(KeyCode::KeyT));
    }
    assert(default_chords(KeyAction::ExposureUp).contains(plain_chord(KeyCode::BracketRight))) by {
        assert(default_chords(KeyAction::ExposureUp)[0] == plain_chord(KeyCode::BracketRight));
    }
    assert(default_chords(KeyAction::ExposureDown).contains(plain_chord(KeyCode::BracketLeft))) by {
        assert(default_chords(KeyAction::ExposureDown)[0] == plain_chord(KeyCode::BracketLeft));
    }
    assert(default_chords(KeyAction::CycleBackdrop).contains(plain_chord(KeyCode::KeyZ))) by {
        assert(default_chords(KeyAction::CycleBackdrop)[0] == plain_chord(KeyCode::KeyZ));
    }
    assert(default_chords(KeyAction::PrevImage).contains(plain_chord(KeyCode::ArrowLeft))) by {
        assert(default_chords(KeyAction::PrevImage)[0] == plain_chord(KeyCode::ArrowLeft));
    }
    assert(default_chords(KeyAction::NextImage).contains(plain_chord(KeyCode::ArrowRight))) by {
        assert(default_chords(KeyAction::NextImage)[0] == plain_chord(KeyCode::ArrowRight));
    }
    assert(default_chords(KeyAction::ToggleFullscreen).contains(plain_chord(KeyCode::F11))) by {
        assert(default_chords(KeyAction::ToggleFullscreen)[0] == plain_chord(KeyCode::F11));
    }
    assert(default_chords(KeyAction::CloseOrExitFullscreen).contains(plain_chord(KeyCode::Escape))) by {
        assert(default_chords(KeyAction::CloseOrExitFullscreen)[0] == plain_chord(KeyCode::Escape));
    }
    assert(default_chords(KeyAction::ToggleFlipbook).contains(plain_chord(KeyCode::KeyK))) by {
        assert(default_chords(KeyAction::ToggleFlipbook)[0] == plain_chord(KeyCode::KeyK));
    }
    assert(default_chords(KeyAction::FlipbookPlayPause).contains(plain_chord(KeyCode::Space))) by {
        assert(default_chords(KeyAction::FlipbookPlayPause)[0] == plain_chord(KeyCode::Space));
    }
    assert(default_chords(KeyAction::FlipbookPrevFrame).contains(plain_chord(KeyCode::Comma))) by {
        assert(default_chords(KeyAction::FlipbookPrevFrame)[0] == plain_chord(KeyCode::Comma));
    }
    assert(default_chords(KeyAction::FlipbookNextFrame).contains(plain_chord(KeyCode::Period))) by {
        assert(default_chords(KeyAction::FlipbookNextFrame)[0] == plain_chord(KeyCode::Period));
    }
}

/// Out of the box two actions have no key, zooming has a key on the pad too, zooming in also the
/// shifted key, and every other action has one; only files need a modifier besides.
pub proof fn law_default_key_counts(a: KeyAction, k: int)
    ensures
        default_chords(a).len() == 0 <==> a == KeyAction::ExposureReset || a
            == KeyAction::ToggleOutline,
        default_chords(a).len() == 3 <==> a == KeyAction::ZoomIn,
        default_chords(a).len() == 2 <==> a == KeyAction::ZoomOut,
        default_chords(a).len() <= 3,
        0 <= k < default_chords(a).len() ==> ({
            let c = default_chords(a)[k];
            &&& !is_reserved_key(c.key)
            &&& !c.alt
            &&& c.primary <==> a == KeyAction::OpenFile || a == KeyAction::CloseImage
            &&& c.shift ==> a == KeyAction::ZoomIn && c.key == KeyCode::Equal
        }),
{
}

/// No key does two things out of the box.
pub proof fn law_defaults_are_conflict_free()
    ensures
        conflict_free(|a: KeyAction| default_chords(a)),
{
    let table = |a: KeyAction| default_chords(a);
    assert forall|a: KeyAction, b: KeyAction, c: KeyChord|
        a != b && #[trigger] table(a).contains(c) implies !#[trigger] table(b).contains(c) by {
        let i = choose|i: int| 0 <= i < default_chords(a).len() && default_chords(a)[i] == c;
        law_default_key_counts(a, i);
        if default_chords(b).contains(c) {
            let j = choose|j: int| 0 <= j < default_chords(b).len() && default_chords(b)[j] == c;
            law_default_key_counts(b, j);
        }
    }
}

/// Only playing, and stepping by a frame, is for a flipbook alone; switching the mode is not.
pub proof fn law_flipbook_actions(a: KeyAction)
    ensures
        in_flipbook_only(a) ==> action_index(a) > action_index(KeyAction::ToggleFlipbook),
        action_index(a) > action_index(KeyAction::ToggleFlipbook) ==> in_flipbook_only(a),
{
}

/// In a flipbook its own actions come first; a key that none of them holds does what it always
/// does.
pub proof fn law_flipbook_keys_come_first(table: ChordTable, chord: KeyChord, b: KeyAction)
    ensures
        in_flipbook_only(b) && table(b).contains(chord) ==> (looked_up(table, chord, true) matches
            Some(a) && in_flipbook_only(a)),
        (forall|a: KeyAction| in_flipbook_only(a) ==> !#[trigger] table(a).contains(chord))
            ==> looked_up(table, chord, true) == looked_up(table, chord, false),
{
    lemma_first_action(holds_in_context(table, chord, true), 0);
    lemma_first_action(holds_in_context(table, chord, false), 0);
    lemma_action_index(b);
    if in_flipbook_only(b) && table(b).contains(chord) {
        assert(holds_in_context(table, chord, true)(b));
    }
}

/// A conflict names another action that holds the chord, the first of them, and there is none
/// exactly where no other holds it.
pub proof fn law_conflict_names_another_holder(
    table: ChordTable,
    chord: KeyChord,
    except: KeyAction,
    b: KeyAction,
)
    ensures
        conflicting(table, chord, except) matches Some(a) ==> a != except && table(a).contains(
            chord,
        ),
        b != except && table(b).contains(chord) ==> (conflicting(table, chord, except) matches Some(
            a,
        ) && action_index(a) <= action_index(b)),
{
    lemma_first_action(holds_besides(table, chord, except), 0);
    lemma_action_index(b);
    if b != except && table(b).contains(chord) {
        assert(holds_besides(table, chord, except)(b));
    }
}

/// Rebinding gives the action that one chord, takes the chord from all others, and leaves them
/// every other chord that they hold.
pub proof fn law_rebind_takes_one_chord(
    table: ChordTable,
    action: KeyAction,
    chord: KeyChord,
    a: KeyAction,
    c: KeyChord,
)
    ensures
        rebound(table, action, chord, action) == seq![chord],
        a != action ==> (rebound(table, action, chord, a).contains(c) <==> table(a).contains(c) && c
            != chord),
        a != action && !table(a).contains(chord) ==> rebound(table, action, chord, a) == table(a),
{
    lemma_filtered(table(a), chord, c);
}

proof fn lemma_filtered(chords: Seq<KeyChord>, gone: KeyChord, c: KeyChord)
    ensures
        without(chords, gone).contains(c) <==> chords.contains(c) && c != gone,
        !chords.contains(gone) ==> without(chords, gone) == chords,
    decreases chords.len(),
{
    reveal(Seq::filter);
    if chords.len() > 0 {
        let rest = chords.drop_last();
        let last = chords.last();
        lemma_filtered(rest, gone, c);
        assert(chords =~= rest.push(last));
        assert(chords[chords.len() - 1] == last);
        if rest.contains(c) {
            let k = rest.index_of(c);
            assert(chords[k] == c);
        }
        if chords.contains(c) && c != last {
            let k = chords.index_of(c);
            assert(rest[k] == c);
        }
        if rest.contains(gone) {
            let k = rest.index_of(gone);
            assert(chords[k] == gone);
        }
        let w = without(rest, gone);
        if last != gone {
            assert(without(chords, gone) =~= w.push(last));
            assert(w.push(last)[w.len() as int] == last);
            if w.contains(c) {
                let k = w.index_of(c);
                assert(w.push(last)[k] == c);
            }
            if w.push(last).contains(c) && c != last {
                let k = w.push(last).index_of(c);
                assert(w[k] == c);
            }
        } else {
            assert(without(chords, gone) =~= w);
        }
    }
}

/// Reading keeps the order of the texts, drops what reads as no chord, and never yields a key
/// that is a modifier itself.
pub proof fn law_only_usable_chords_are_read(texts: Seq<Seq<char>>, t: Seq<char>, k: int)
    ensures
        read_chords(texts).len() <= texts.len(),
        0 <= k < read_chords(texts).len() ==> !is_reserved_key(read_chords(texts)[k].key),
        parse_chord(t) matches Some(c) ==> (!is_reserved_key(c.key) ==> read_chords(texts.push(t))
            == read_chords(texts).push(c)),
        parse_chord(t) is None ==> read_chords(texts.push(t)) == read_chords(texts),
    decreases texts.len(),
{
    assert(texts.push(t).drop_last() =~= texts);
    if texts.len() > 0 {
        law_only_usable_chords_are_read(texts.drop_last(), t, k);
    }
}

/// What is not set has its default keys, and so has what is set to nothing readable; what is set
/// to nothing at all has no key.
pub proof fn law_unreadable_keys_fall_back(stored: Map<Seq<char>, KeyText>, a: KeyAction)
    ensures
        !stored.contains_key(action_name(a)) ==> configured(stored, a) == default_chords(a),
        stored.contains_key(action_name(a)) ==> ({
            let texts = chord_texts(stored[action_name(a)]);
            &&& read_chords(texts).len() > 0 ==> configured(stored, a) == read_chords(texts)
            &&& read_chords(texts).len() == 0 && all_blank(texts) ==> configured(stored, a).len() == 0
            &&& read_chords(texts).len() == 0 && !all_blank(texts) ==> configured(stored, a)
                == default_chords(a)
        }),
{
}

/// Storing keeps one text for each chord, and stands for none by an empty text.
pub proof fn law_stored_texts(chords: Seq<KeyChord>, k: int)
    ensures
        chords.len() == 0 ==> chord_texts(stored_value(chords)) == seq![Seq::<char>::empty()],
        chords.len() > 0 ==> chord_texts(stored_value(chords)).len() == chords.len(),
        0 <= k < chords.len() ==> chord_texts(stored_value(chords))[k] == chord_text(chords[k]),
        stored_value(chords) is Many <==> chords.len() > 1,
{
}

/// An action shows the first of its chords, in brackets behind its words; one without a chord
/// shows nothing.
pub proof fn law_first_chord_is_shown(table: ChordTable, platform: Platform, a: KeyAction, k: Seq<char>)
    ensures
        shown_label(table, platform, a) is None <==> table(a).len() == 0,
        shown_label(table, platform, a) matches Some(t) ==> t == chord_display(
            table(a)[0],
            platform,
        ),
        label_suffix(None).len() == 0,
        label_suffix(Some(k)).subrange(3, 3 + k.len() as int) == k,
        label_suffix(Some(k))[2] == '(' && label_suffix(Some(k)).last() == ')',
{
    reveal_strlit("  (");
    reveal_strlit(")");
    assert(label_suffix(Some(k)).subrange(3, 3 + k.len() as int) =~= k);
}

} // verus!
