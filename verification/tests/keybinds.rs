use fire::chord::{KeyChord, Platform};
use fire::config::{KeyValue, KeybindsCfg};
use fire::keybinds::{all_action_list, KeyAction, Keybinds, ShortcutLabels};
use fire::keys::{key_name_of, parse_key_name};
use winit::keyboard::KeyCode;

const NAMED_KEYS: [KeyCode; 114] = [
    KeyCode::Backspace,
    KeyCode::Tab,
    KeyCode::Enter,
    KeyCode::Escape,
    KeyCode::Space,
    KeyCode::PageUp,
    KeyCode::PageDown,
    KeyCode::End,
    KeyCode::Home,
    KeyCode::ArrowLeft,
    KeyCode::ArrowUp,
    KeyCode::ArrowRight,
    KeyCode::ArrowDown,
    KeyCode::Insert,
    KeyCode::Delete,
    KeyCode::NumpadMultiply,
    KeyCode::NumpadAdd,
    KeyCode::NumpadEnter,
    KeyCode::NumpadSubtract,
    KeyCode::NumpadDecimal,
    KeyCode::NumpadDivide,
    KeyCode::Semicolon,
    KeyCode::Equal,
    KeyCode::Comma,
    KeyCode::Minus,
    KeyCode::Period,
    KeyCode::Slash,
    KeyCode::Backquote,
    KeyCode::BracketLeft,
    KeyCode::Backslash,
    KeyCode::BracketRight,
    KeyCode::Quote,
    KeyCode::KeyA,
    KeyCode::KeyB,
    KeyCode::KeyC,
    KeyCode::KeyD,
    KeyCode::KeyE,
    KeyCode::KeyF,
    KeyCode::KeyG,
    KeyCode::KeyH,
    KeyCode::KeyI,
    KeyCode::KeyJ,
    KeyCode::KeyK,
    KeyCode::KeyL,
    KeyCode::KeyM,
    KeyCode::KeyN,
    KeyCode::KeyO,
    KeyCode::KeyP,
    KeyCode::KeyQ,
    KeyCode::KeyR,
    KeyCode::KeyS,
    KeyCode::KeyT,
    KeyCode::KeyU,
    KeyCode::KeyV,
    KeyCode::KeyW,
    KeyCode::KeyX,
    KeyCode::KeyY,
    KeyCode::KeyZ,
    KeyCode::Digit0,
    KeyCode::Digit1,
    KeyCode::Digit2,
    KeyCode::Digit3,
    KeyCode::Digit4,
    KeyCode::Digit5,
    KeyCode::Digit6,
    KeyCode::Digit7,
    KeyCode::Digit8,
    KeyCode::Digit9,
    KeyCode::Numpad0,
    KeyCode::Numpad1,
    KeyCode::Numpad2,
    KeyCode::Numpad3,
    KeyCode::Numpad4,
    KeyCode::Numpad5,
    KeyCode::Numpad6,
    KeyCode::Numpad7,
    KeyCode::Numpad8,
    KeyCode::Numpad9,
    KeyCode::F1,
    KeyCode::F2,
    KeyCode::F3,
    KeyCode::F4,
    KeyCode::F5,
    KeyCode::F6,
    KeyCode::F7,
    KeyCode::F8,
    KeyCode::F9,
    KeyCode::F10,
    KeyCode::F11,
    KeyCode::F12,
    KeyCode::F13,
    KeyCode::F14,
    KeyCode::F15,
    KeyCode::F16,
    KeyCode::F17,
    KeyCode::F18,
    KeyCode::F19,
    KeyCode::F20,
    KeyCode::F21,
    KeyCode::F22,
    KeyCode::F23,
    KeyCode::F24,
    KeyCode::CapsLock,
    KeyCode::NumLock,
    KeyCode::ScrollLock,
    KeyCode::PrintScreen,
    KeyCode::Pause,
    KeyCode::ContextMenu,
    KeyCode::IntlBackslash,
    KeyCode::IntlRo,
    KeyCode::IntlYen,
    KeyCode::NumpadEqual,
    KeyCode::NumpadComma,
    KeyCode::Fn,
];

fn chord(key: KeyCode, primary: bool, alt: bool, shift: bool) -> KeyChord {
    KeyChord { key, primary, alt, shift }
}

fn same_table(a: &Keybinds, b: &Keybinds) -> bool {
    all_action_list().into_iter().all(|x| a.chords(x) == b.chords(x))
}

#[test]
fn names_round_trip() {
    for key in NAMED_KEYS {
        for (primary, alt, shift) in [
            (false, false, false),
            (true, false, false),
            (true, true, true),
        ] {
            let chord = chord(key, primary, alt, shift);
            assert_eq!(KeyChord::parse(&chord.format()), Some(chord), "{}", chord.format());
        }
    }
}

#[test]
fn parse_is_case_insensitive_and_accepts_every_primary_spelling() {
    assert_eq!(KeyChord::parse("f"), Some(KeyChord::plain(KeyCode::KeyF)));
    let expect = chord(KeyCode::KeyK, true, false, true);
    for s in [
        "Primary+Shift+K",
        "ctrl+shift+k",
        "Control+Shift+K",
        "Cmd+Shift+K",
        "command+shift+k",
    ] {
        assert_eq!(KeyChord::parse(s), Some(expect), "{s}");
    }
    assert_eq!(KeyChord::parse("+"), Some(KeyChord::plain(KeyCode::Equal)));
    assert_eq!(KeyChord::parse("Ctrl++"), Some(chord(KeyCode::Equal, true, false, false)));
    assert_eq!(KeyChord::parse("Ctrl+"), None);
    assert_eq!(KeyChord::parse(""), None);
    assert_eq!(KeyChord::parse("Bogus"), None);
}

#[test]
fn display_uses_arrow_glyphs_and_the_os_modifier_name() {
    let left = KeyChord::plain(KeyCode::ArrowLeft);
    for platform in [Platform::Mac, Platform::Windows, Platform::Other] {
        assert_eq!(left.display(platform), "\u{2190}");
        assert_eq!(left.format(), "Left");
        let ctrl_right = chord(KeyCode::ArrowRight, true, false, false);
        assert_eq!(ctrl_right.format(), "Primary+Right");
        assert_eq!(
            ctrl_right.display(platform),
            format!("{}\u{2192}", platform.primary_label())
        );
    }
    assert_eq!(Platform::Mac.primary_label(), "Cmd+");
    assert_eq!(Platform::Windows.primary_label(), "Ctrl+");
}

#[test]
fn defaults_match_the_shipped_keyboard() {
    let kb = Keybinds::defaults();
    let cases = [
        (KeyCode::KeyF, KeyAction::Fit),
        (KeyCode::Digit1, KeyAction::ActualSize),
        (KeyCode::KeyR, KeyAction::ChannelR),
        (KeyCode::KeyG, KeyAction::ChannelG),
        (KeyCode::KeyB, KeyAction::ChannelB),
        (KeyCode::KeyA, KeyAction::ChannelA),
        (KeyCode::KeyC, KeyAction::ChannelRgb),
        (KeyCode::KeyT, KeyAction::ToggleTonemap),
        (KeyCode::KeyK, KeyAction::ToggleFlipbook),
        (KeyCode::BracketRight, KeyAction::ExposureUp),
        (KeyCode::BracketLeft, KeyAction::ExposureDown),
        (KeyCode::Equal, KeyAction::ZoomIn),
        (KeyCode::NumpadAdd, KeyAction::ZoomIn),
        (KeyCode::Minus, KeyAction::ZoomOut),
        (KeyCode::NumpadSubtract, KeyAction::ZoomOut),
        (KeyCode::ArrowLeft, KeyAction::PrevImage),
        (KeyCode::ArrowRight, KeyAction::NextImage),
        (KeyCode::F11, KeyAction::ToggleFullscreen),
        (KeyCode::Escape, KeyAction::CloseOrExitFullscreen),
    ];
    for (key, action) in cases {
        assert_eq!(kb.lookup(KeyChord::plain(key), false), Some(action), "{key:?}");
    }
    assert_eq!(
        kb.lookup(chord(KeyCode::Equal, false, false, true), false),
        Some(KeyAction::ZoomIn)
    );
    for (key, action) in [
        (KeyCode::Space, KeyAction::FlipbookPlayPause),
        (KeyCode::Comma, KeyAction::FlipbookPrevFrame),
        (KeyCode::Period, KeyAction::FlipbookNextFrame),
    ] {
        assert_eq!(kb.lookup(KeyChord::plain(key), true), Some(action));
        assert_eq!(kb.lookup(KeyChord::plain(key), false), None);
    }
    assert_eq!(
        kb.lookup(KeyChord::plain(KeyCode::KeyZ), false),
        Some(KeyAction::CycleBackdrop)
    );
    let ctrl = |key| chord(key, true, false, false);
    for in_flipbook in [false, true] {
        assert_eq!(kb.lookup(ctrl(KeyCode::KeyO), in_flipbook), Some(KeyAction::OpenFile));
        assert_eq!(kb.lookup(ctrl(KeyCode::KeyW), in_flipbook), Some(KeyAction::CloseImage));
        assert_eq!(kb.lookup(KeyChord::plain(KeyCode::KeyO), in_flipbook), None);
        assert_eq!(kb.lookup(KeyChord::plain(KeyCode::KeyW), in_flipbook), None);
    }
}

#[test]
fn chords_match_exactly() {
    let kb = Keybinds::defaults();
    assert_eq!(kb.lookup(chord(KeyCode::KeyF, true, false, false), false), None);
}

#[test]
fn config_overrides_and_unbinds() {
    let mut cfg = KeybindsCfg::new();
    cfg.insert("fit".into(), KeyValue::One("Ctrl+F".into()));
    cfg.insert("zoom-in".into(), KeyValue::Many(vec!["=".into(), "Num+".into()]));
    cfg.insert("toggle-tonemap".into(), KeyValue::One(String::new()));
    cfg.insert("no-such-action".into(), KeyValue::One("Q".into()));
    cfg.insert("zoom-out".into(), KeyValue::One("Bogus".into()));
    let kb = Keybinds::from_config(&cfg);
    assert_eq!(kb.lookup(KeyChord::plain(KeyCode::KeyF), false), None);
    assert_eq!(
        kb.lookup(chord(KeyCode::KeyF, true, false, false), false),
        Some(KeyAction::Fit)
    );
    assert_eq!(kb.lookup(KeyChord::plain(KeyCode::Equal), false), Some(KeyAction::ZoomIn));
    assert_eq!(kb.lookup(chord(KeyCode::Equal, false, false, true), false), None);
    assert_eq!(kb.lookup(KeyChord::plain(KeyCode::KeyT), false), None);
    assert_eq!(kb.lookup(KeyChord::plain(KeyCode::Minus), false), Some(KeyAction::ZoomOut));
}

#[test]
fn to_config_writes_only_the_differences() {
    let mut kb = Keybinds::defaults();
    assert!(kb.to_config().is_empty());
    kb.rebind(KeyAction::Fit, KeyChord::plain(KeyCode::KeyQ));
    kb.unbind(KeyAction::ChannelR);
    let cfg = kb.to_config();
    assert_eq!(cfg.len(), 2);
    assert_eq!(cfg.get("fit"), Some(&KeyValue::One("Q".into())));
    assert_eq!(cfg.get("red-channel"), Some(&KeyValue::One(String::new())));
    assert!(same_table(&Keybinds::from_config(&cfg), &kb));
}

#[test]
fn rebind_steals_and_reports_the_loser() {
    let mut kb = Keybinds::defaults();
    let f = KeyChord::plain(KeyCode::KeyF);
    assert_eq!(kb.rebind(KeyAction::ZoomIn, f), Some(KeyAction::Fit));
    assert_eq!(kb.chords(KeyAction::Fit), &[]);
    assert_eq!(kb.chords(KeyAction::ZoomIn), &[f]);
    assert_eq!(kb.conflict(f, KeyAction::ZoomIn), None);
    assert_eq!(
        kb.rebind(KeyAction::ExposureReset, KeyChord::plain(KeyCode::KeyQ)),
        None
    );
    kb.reset(KeyAction::Fit);
    assert_eq!(kb.conflict(f, KeyAction::Fit), Some(KeyAction::ZoomIn));
}

#[test]
fn labels_follow_the_primary_chord() {
    let mut kb = Keybinds::defaults();
    let l = kb.labels(Platform::Other);
    assert_eq!(l.get(KeyAction::Fit), Some("F"));
    assert_eq!(l.get(KeyAction::PrevImage), Some("\u{2190}"));
    assert_eq!(l.suffix(KeyAction::Fit), "  (F)");
    assert_eq!(l.get(KeyAction::ExposureReset), None);
    assert_eq!(l.suffix(KeyAction::ExposureReset), "");
    kb.rebind(KeyAction::Fit, KeyChord::plain(KeyCode::KeyQ));
    assert_eq!(kb.labels(Platform::Other).get(KeyAction::Fit), Some("Q"));
}

#[test]
fn reserved_keys_are_not_chords() {
    assert!(KeyChord::plain(KeyCode::ShiftLeft).is_reserved());
    assert!(KeyChord::plain(KeyCode::SuperLeft).is_reserved());
    assert!(!KeyChord::plain(KeyCode::KeyF).is_reserved());
}

#[test]
fn action_names_read_back() {
    let actions = all_action_list();
    assert_eq!(actions.len(), 25);
    for a in actions {
        assert_eq!(KeyAction::from_name(a.name()), Some(a));
        assert!(!a.label().is_empty());
        assert!(!a.group().is_empty());
    }
    assert_eq!(KeyAction::from_name("no-such-action"), None);
    assert_eq!(KeyAction::Fit.name(), "fit");
    assert!(KeyAction::FlipbookPlayPause.is_flipbook_context());
    assert!(!KeyAction::ToggleFlipbook.is_flipbook_context());
}

#[test]
fn keys_without_a_name_show_their_identifier() {
    assert_eq!(key_name_of(KeyCode::CapsLock), "CapsLock");
    assert_eq!(key_name_of(KeyCode::IntlYen), "IntlYen");
    assert_eq!(key_name_of(KeyCode::MediaPlayPause), "MediaPlayPause");
    assert_eq!(parse_key_name("CapsLock"), Some(KeyCode::CapsLock));
    assert_eq!(parse_key_name("capslock"), Some(KeyCode::CapsLock));
    assert_eq!(parse_key_name("MediaPlayPause"), Some(KeyCode::MediaPlayPause));
    assert_eq!(parse_key_name("mediaplaypause"), Some(KeyCode::MediaPlayPause));
    assert_eq!(parse_key_name("F25"), Some(KeyCode::F25));
    assert_eq!(parse_key_name("F35"), Some(KeyCode::F35));
    assert_eq!(parse_key_name("F36"), None);
    assert_eq!(parse_key_name("F0"), None);
    assert_eq!(parse_key_name("Num10"), None);
    assert_eq!(parse_key_name("MediaPlay"), None);
    assert_eq!(parse_key_name(""), None);
    assert_eq!(parse_key_name("F24"), Some(KeyCode::F24));
    assert_eq!(parse_key_name("Num7"), Some(KeyCode::Numpad7));
}

#[test]
fn every_key_reads_back_from_its_name_and_its_identifier() {
    let keys = [
        KeyCode::Backquote,
        KeyCode::Backslash,
        KeyCode::BracketLeft,
        KeyCode::BracketRight,
        KeyCode::Comma,
        KeyCode::Digit0,
        KeyCode::Digit1,
        KeyCode::Digit2,
        KeyCode::Digit3,
        KeyCode::Digit4,
        KeyCode::Digit5,
        KeyCode::Digit6,
        KeyCode::Digit7,
        KeyCode::Digit8,
        KeyCode::Digit9,
        KeyCode::Equal,
        KeyCode::IntlBackslash,
        KeyCode::IntlRo,
        KeyCode::IntlYen,
        KeyCode::KeyA,
        KeyCode::KeyB,
        KeyCode::KeyC,
        KeyCode::KeyD,
        KeyCode::KeyE,
        KeyCode::KeyF,
        KeyCode::KeyG,
        KeyCode::KeyH,
        KeyCode::KeyI,
        KeyCode::KeyJ,
        KeyCode::KeyK,
        KeyCode::KeyL,
        KeyCode::KeyM,
        KeyCode::KeyN,
        KeyCode::KeyO,
        KeyCode::KeyP,
        KeyCode::KeyQ,
        KeyCode::KeyR,
        KeyCode::KeyS,
        KeyCode::KeyT,
        KeyCode::KeyU,
        KeyCode::KeyV,
        KeyCode::KeyW,
        KeyCode::KeyX,
        KeyCode::KeyY,
        KeyCode::KeyZ,
        KeyCode::Minus,
        KeyCode::Period,
        KeyCode::Quote,
        KeyCode::Semicolon,
        KeyCode::Slash,
        KeyCode::AltLeft,
        KeyCode::AltRight,
        KeyCode::Backspace,
        KeyCode::CapsLock,
        KeyCode::ContextMenu,
        KeyCode::ControlLeft,
        KeyCode::ControlRight,
        KeyCode::Enter,
        KeyCode::SuperLeft,
        KeyCode::SuperRight,
        KeyCode::ShiftLeft,
        KeyCode::ShiftRight,
        KeyCode::Space,
        KeyCode::Tab,
        KeyCode::Convert,
        KeyCode::KanaMode,
        KeyCode::Lang1,
        KeyCode::Lang2,
        KeyCode::Lang3,
        KeyCode::Lang4,
        KeyCode::Lang5,
        KeyCode::NonConvert,
        KeyCode::Delete,
        KeyCode::End,
        KeyCode::Help,
        KeyCode::Home,
        KeyCode::Insert,
        KeyCode::PageDown,
        KeyCode::PageUp,
        KeyCode::ArrowDown,
        KeyCode::ArrowLeft,
        KeyCode::ArrowRight,
        KeyCode::ArrowUp,
        KeyCode::NumLock,
        KeyCode::Numpad0,
        KeyCode::Numpad1,
        KeyCode::Numpad2,
        KeyCode::Numpad3,
        KeyCode::Numpad4,
        KeyCode::Numpad5,
        KeyCode::Numpad6,
        KeyCode::Numpad7,
        KeyCode::Numpad8,
        KeyCode::Numpad9,
        KeyCode::NumpadAdd,
        KeyCode::NumpadBackspace,
        KeyCode::NumpadClear,
        KeyCode::NumpadClearEntry,
        KeyCode::NumpadComma,
        KeyCode::NumpadDecimal,
        KeyCode::NumpadDivide,
        KeyCode::NumpadEnter,
        KeyCode::NumpadEqual,
        KeyCode::NumpadHash,
        KeyCode::NumpadMemoryAdd,
        KeyCode::NumpadMemoryClear,
        KeyCode::NumpadMemoryRecall,
        KeyCode::NumpadMemoryStore,
        KeyCode::NumpadMemorySubtract,
        KeyCode::NumpadMultiply,
        KeyCode::NumpadParenLeft,
        KeyCode::NumpadParenRight,
        KeyCode::NumpadStar,
        KeyCode::NumpadSubtract,
        KeyCode::Escape,
        KeyCode::Fn,
        KeyCode::FnLock,
        KeyCode::PrintScreen,
        KeyCode::ScrollLock,
        KeyCode::Pause,
        KeyCode::BrowserBack,
        KeyCode::BrowserFavorites,
        KeyCode::BrowserForward,
        KeyCode::BrowserHome,
        KeyCode::BrowserRefresh,
        KeyCode::BrowserSearch,
        KeyCode::BrowserStop,
        KeyCode::Eject,
        KeyCode::LaunchApp1,
        KeyCode::LaunchApp2,
        KeyCode::LaunchMail,
        KeyCode::MediaPlayPause,
        KeyCode::MediaSelect,
        KeyCode::MediaStop,
        KeyCode::MediaTrackNext,
        KeyCode::MediaTrackPrevious,
        KeyCode::Power,
        KeyCode::Sleep,
        KeyCode::AudioVolumeDown,
        KeyCode::AudioVolumeMute,
        KeyCode::AudioVolumeUp,
        KeyCode::WakeUp,
        KeyCode::Meta,
        KeyCode::Hyper,
        KeyCode::Turbo,
        KeyCode::Abort,
        KeyCode::Resume,
        KeyCode::Suspend,
        KeyCode::Again,
        KeyCode::Copy,
        KeyCode::Cut,
        KeyCode::Find,
        KeyCode::Open,
        KeyCode::Paste,
        KeyCode::Props,
        KeyCode::Select,
        KeyCode::Undo,
        KeyCode::Hiragana,
        KeyCode::Katakana,
        KeyCode::F1,
        KeyCode::F2,
        KeyCode::F3,
        KeyCode::F4,
        KeyCode::F5,
        KeyCode::F6,
        KeyCode::F7,
        KeyCode::F8,
        KeyCode::F9,
        KeyCode::F10,
        KeyCode::F11,
        KeyCode::F12,
        KeyCode::F13,
        KeyCode::F14,
        KeyCode::F15,
        KeyCode::F16,
        KeyCode::F17,
        KeyCode::F18,
        KeyCode::F19,
        KeyCode::F20,
        KeyCode::F21,
        KeyCode::F22,
        KeyCode::F23,
        KeyCode::F24,
        KeyCode::F25,
        KeyCode::F26,
        KeyCode::F27,
        KeyCode::F28,
        KeyCode::F29,
        KeyCode::F30,
        KeyCode::F31,
        KeyCode::F32,
        KeyCode::F33,
        KeyCode::F34,
        KeyCode::F35,
    ];
    for key in keys {
        assert_eq!(parse_key_name(&key_name_of(key)), Some(key));
        assert_eq!(parse_key_name(&format!("{key:?}")), Some(key));
        let chord = KeyChord { key, primary: true, alt: false, shift: true };
        assert_eq!(KeyChord::parse(&chord.format()), Some(chord));
    }
    let exotic = KeyChord::plain(KeyCode::MediaPlayPause);
    assert_eq!(exotic.format(), "MediaPlayPause");
    let mut kb = Keybinds::defaults();
    kb.rebind(KeyAction::FlipbookPlayPause, exotic);
    let back = Keybinds::from_config(&kb.to_config());
    assert_eq!(back.chords(KeyAction::FlipbookPlayPause), &[exotic]);
}

#[test]
fn rebinding_leaves_no_chord_with_two_holders() {
    let mut kb = Keybinds::defaults();
    let g = KeyChord::plain(KeyCode::KeyG);
    assert_eq!(kb.rebind(KeyAction::ToggleOutline, g), Some(KeyAction::ChannelG));
    let holders = all_action_list()
        .into_iter()
        .filter(|a| kb.chords(*a).contains(&g))
        .count();
    assert_eq!(holders, 1);
    assert_eq!(kb.lookup(g, false), Some(KeyAction::ToggleOutline));
}

#[test]
fn rebinding_takes_a_chord_from_every_holder() {
    let mut cfg = KeybindsCfg::new();
    cfg.insert("fit".into(), KeyValue::One("Q".into()));
    cfg.insert("zoom-out".into(), KeyValue::One("Q".into()));
    let mut kb = Keybinds::from_config(&cfg);
    let q = KeyChord::plain(KeyCode::KeyQ);
    assert_eq!(kb.chords(KeyAction::ZoomOut), &[q]);
    assert_eq!(kb.rebind(KeyAction::ZoomIn, q), Some(KeyAction::Fit));
    assert_eq!(kb.chords(KeyAction::ZoomIn), &[q]);
    assert_eq!(kb.chords(KeyAction::Fit), &[]);
    assert_eq!(kb.chords(KeyAction::ZoomOut), &[]);
    assert_eq!(kb.conflict(q, KeyAction::ZoomIn), None);
}

#[test]
fn stored_lists_read_back() {
    let mut kb = Keybinds::defaults();
    kb.rebind(KeyAction::ToggleTonemap, chord(KeyCode::F5, true, true, true));
    kb.unbind(KeyAction::ZoomIn);
    assert!(same_table(&Keybinds::from_config(&kb.to_config()), &kb));
    assert!(same_table(
        &Keybinds::from_config(&KeybindsCfg::new()),
        &Keybinds::defaults()
    ));
}

#[test]
fn no_labels_show_no_shortcut() {
    let l = ShortcutLabels::none();
    assert_eq!(l.get(KeyAction::Fit), None);
    assert_eq!(l.suffix(KeyAction::Fit), "");
}
