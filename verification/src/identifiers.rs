//! The identifiers of winit's key codes: what each is called, and which one a text calls.
use crate::keys::named_key;
use crate::text::{ascii_lower_seq, same_folded};
use vstd::prelude::*;
use winit::keyboard::KeyCode;

verus! {

/// The identifier of a key code: the name of its variant. Every variant of winit 0.30 has its own
/// line; the last one is for none of them, and there because the enum is non-exhaustive.
#[verifier::opaque]
pub open spec fn key_identifier(key: KeyCode) -> Seq<char> {
    match key {
        KeyCode::Backquote => "Backquote"@,
        KeyCode::Backslash => "Backslash"@,
        KeyCode::BracketLeft => "BracketLeft"@,
        KeyCode::BracketRight => "BracketRight"@,
        KeyCode::Comma => "Comma"@,
        KeyCode::Digit0 => "Digit0"@,
        KeyCode::Digit1 => "Digit1"@,
        KeyCode::Digit2 => "Digit2"@,
        KeyCode::Digit3 => "Digit3"@,
        KeyCode::Digit4 => "Digit4"@,
        KeyCode::Digit5 => "Digit5"@,
        KeyCode::Digit6 => "Digit6"@,
        KeyCode::Digit7 => "Digit7"@,
        KeyCode::Digit8 => "Digit8"@,
        KeyCode::Digit9 => "Digit9"@,
        KeyCode::Equal => "Equal"@,
        KeyCode::IntlBackslash => "IntlBackslash"@,
        KeyCode::IntlRo => "IntlRo"@,
        KeyCode::IntlYen => "IntlYen"@,
        KeyCode::KeyA => "KeyA"@,
        KeyCode::KeyB => "KeyB"@,
        KeyCode::KeyC => "KeyC"@,
        KeyCode::KeyD => "KeyD"@,
        KeyCode::KeyE => "KeyE"@,
        KeyCode::KeyF => "KeyF"@,
        KeyCode::KeyG => "KeyG"@,
        KeyCode::KeyH => "KeyH"@,
        KeyCode::KeyI => "KeyI"@,
        KeyCode::KeyJ => "KeyJ"@,
        KeyCode::KeyK => "KeyK"@,
        KeyCode::KeyL => "KeyL"@,
        KeyCode::KeyM => "KeyM"@,
        KeyCode::KeyN => "KeyN"@,
        KeyCode::KeyO => "KeyO"@,
        KeyCode::KeyP => "KeyP"@,
        KeyCode::KeyQ => "KeyQ"@,
        KeyCode::KeyR => "KeyR"@,
        KeyCode::KeyS => "KeyS"@,
        KeyCode::KeyT => "KeyT"@,
        KeyCode::KeyU => "KeyU"@,
        KeyCode::KeyV => "KeyV"@,
        KeyCode::KeyW => "KeyW"@,
        KeyCode::KeyX => "KeyX"@,
        KeyCode::KeyY => "KeyY"@,
        KeyCode::KeyZ => "KeyZ"@,
        KeyCode::Minus => "Minus"@,
        KeyCode::Period => "Period"@,
        KeyCode::Quote => "Quote"@,
        KeyCode::Semicolon => "Semicolon"@,
        KeyCode::Slash => "Slash"@,
        KeyCode::AltLeft => "AltLeft"@,
        KeyCode::AltRight => "AltRight"@,
        KeyCode::Backspace => "Backspace"@,
        KeyCode::CapsLock => "CapsLock"@,
        KeyCode::ContextMenu => "ContextMenu"@,
        KeyCode::ControlLeft => "ControlLeft"@,
        KeyCode::ControlRight => "ControlRight"@,
        KeyCode::Enter => "Enter"@,
        KeyCode::SuperLeft => "SuperLeft"@,
        KeyCode::SuperRight => "SuperRight"@,
        KeyCode::ShiftLeft => "ShiftLeft"@,
        KeyCode::ShiftRight => "ShiftRight"@,
        KeyCode::Space => "Space"@,
        KeyCode::Tab => "Tab"@,
        KeyCode::Convert => "Convert"@,
        KeyCode::KanaMode => "KanaMode"@,
        KeyCode::Lang1 => "Lang1"@,
        KeyCode::Lang2 => "Lang2"@,
        KeyCode::Lang3 => "Lang3"@,
        KeyCode::Lang4 => "Lang4"@,
        KeyCode::Lang5 => "Lang5"@,
        KeyCode::NonConvert => "NonConvert"@,
        KeyCode::Delete => "Delete"@,
        KeyCode::End => "End"@,
        KeyCode::Help => "Help"@,
        KeyCode::Home => "Home"@,
        KeyCode::Insert => "Insert"@,
        KeyCode::PageDown => "PageDown"@,
        KeyCode::PageUp => "PageUp"@,
        KeyCode::ArrowDown => "ArrowDown"@,
        KeyCode::ArrowLeft => "ArrowLeft"@,
        KeyCode::ArrowRight => "ArrowRight"@,
        KeyCode::ArrowUp => "ArrowUp"@,
        KeyCode::NumLock => "NumLock"@,
        KeyCode::Numpad0 => "Numpad0"@,
        KeyCode::Numpad1 => "Numpad1"@,
        KeyCode::Numpad2 => "Numpad2"@,
        KeyCode::Numpad3 => "Numpad3"@,
        KeyCode::Numpad4 => "Numpad4"@,
        KeyCode::Numpad5 => "Numpad5"@,
        KeyCode::Numpad6 => "Numpad6"@,
        KeyCode::Numpad7 => "Numpad7"@,
        KeyCode::Numpad8 => "Numpad8"@,
        KeyCode::Numpad9 => "Numpad9"@,
        KeyCode::NumpadAdd => "NumpadAdd"@,
        KeyCode::NumpadBackspace => "NumpadBackspace"@,
        KeyCode::NumpadClear => "NumpadClear"@,
        KeyCode::NumpadClearEntry => "NumpadClearEntry"@,
        KeyCode::NumpadComma => "NumpadComma"@,
        KeyCode::NumpadDecimal => "NumpadDecimal"@,
        KeyCode::NumpadDivide => "NumpadDivide"@,
        KeyCode::NumpadEnter => "NumpadEnter"@,
        KeyCode::NumpadEqual => "NumpadEqual"@,
        KeyCode::NumpadHash => "NumpadHash"@,
        KeyCode::NumpadMemoryAdd => "NumpadMemoryAdd"@,
        KeyCode::NumpadMemoryClear => "NumpadMemoryClear"@,
        KeyCode::NumpadMemoryRecall => "NumpadMemoryRecall"@,
        KeyCode::NumpadMemoryStore => "NumpadMemoryStore"@,
        KeyCode::NumpadMemorySubtract => "NumpadMemorySubtract"@,
        KeyCode::NumpadMultiply => "NumpadMultiply"@,
        KeyCode::NumpadParenLeft => "NumpadParenLeft"@,
        KeyCode::NumpadParenRight => "NumpadParenRight"@,
        KeyCode::NumpadStar => "NumpadStar"@,
        KeyCode::NumpadSubtract => "NumpadSubtract"@,
        KeyCode::Escape => "Escape"@,
        KeyCode::Fn => "Fn"@,
        KeyCode::FnLock => "FnLock"@,
        KeyCode::PrintScreen => "PrintScreen"@,
        KeyCode::ScrollLock => "ScrollLock"@,
        KeyCode::Pause => "Pause"@,
        KeyCode::BrowserBack => "BrowserBack"@,
        KeyCode::BrowserFavorites => "BrowserFavorites"@,
        KeyCode::BrowserForward => "BrowserForward"@,
        KeyCode::BrowserHome => "BrowserHome"@,
        KeyCode::BrowserRefresh => "BrowserRefresh"@,
        KeyCode::BrowserSearch => "BrowserSearch"@,
        KeyCode::BrowserStop => "BrowserStop"@,
        KeyCode::Eject => "Eject"@,
        KeyCode::LaunchApp1 => "LaunchApp1"@,
        KeyCode::LaunchApp2 => "LaunchApp2"@,
        KeyCode::LaunchMail => "LaunchMail"@,
        KeyCode::MediaPlayPause => "MediaPlayPause"@,
        KeyCode::MediaSelect => "MediaSelect"@,
        KeyCode::MediaStop => "MediaStop"@,
        KeyCode::MediaTrackNext => "MediaTrackNext"@,
        KeyCode::MediaTrackPrevious => "MediaTrackPrevious"@,
        KeyCode::Power => "Power"@,
        KeyCode::Sleep => "Sleep"@,
        KeyCode::AudioVolumeDown => "AudioVolumeDown"@,
        KeyCode::AudioVolumeMute => "AudioVolumeMute"@,
        KeyCode::AudioVolumeUp => "AudioVolumeUp"@,
        KeyCode::WakeUp => "WakeUp"@,
        KeyCode::Meta => "Meta"@,
        KeyCode::Hyper => "Hyper"@,
        KeyCode::Turbo => "Turbo"@,
        KeyCode::Abort => "Abort"@,
        KeyCode::Resume => "Resume"@,
        KeyCode::Suspend => "Suspend"@,
        KeyCode::Again => "Again"@,
        KeyCode::Copy => "Copy"@,
        KeyCode::Cut => "Cut"@,
        KeyCode::Find => "Find"@,
        KeyCode::Open => "Open"@,
        KeyCode::Paste => "Paste"@,
        KeyCode::Props => "Props"@,
        KeyCode::Select => "Select"@,
        KeyCode::Undo => "Undo"@,
        KeyCode::Hiragana => "Hiragana"@,
        KeyCode::Katakana => "Katakana"@,
        KeyCode::F1 => "F1"@,
        KeyCode::F2 => "F2"@,
        KeyCode::F3 => "F3"@,
        KeyCode::F4 => "F4"@,
        KeyCode::F5 => "F5"@,
        KeyCode::F6 => "F6"@,
        KeyCode::F7 => "F7"@,
        KeyCode::F8 => "F8"@,
        KeyCode::F9 => "F9"@,
        KeyCode::F10 => "F10"@,
        KeyCode::F11 => "F11"@,
        KeyCode::F12 => "F12"@,
        KeyCode::F13 => "F13"@,
        KeyCode::F14 => "F14"@,
        KeyCode::F15 => "F15"@,
        KeyCode::F16 => "F16"@,
        KeyCode::F17 => "F17"@,
        KeyCode::F18 => "F18"@,
        KeyCode::F19 => "F19"@,
        KeyCode::F20 => "F20"@,
        KeyCode::F21 => "F21"@,
        KeyCode::F22 => "F22"@,
        KeyCode::F23 => "F23"@,
        KeyCode::F24 => "F24"@,
        KeyCode::F25 => "F25"@,
        KeyCode::F26 => "F26"@,
        KeyCode::F27 => "F27"@,
        KeyCode::F28 => "F28"@,
        KeyCode::F29 => "F29"@,
        KeyCode::F30 => "F30"@,
        KeyCode::F31 => "F31"@,
        KeyCode::F32 => "F32"@,
        KeyCode::F33 => "F33"@,
        KeyCode::F34 => "F34"@,
        KeyCode::F35 => "F35"@,
        _ => Seq::empty(),
    }
}

/// `format!("{:?}")` of a winit key code: winit derives it, so it prints the name of the variant.
#[verifier::external_body]
pub(crate) fn identifier(key: KeyCode) -> (r: String)
    ensures
        r@ == key_identifier(key),
{
    format!("{key:?}")
}

/// The key whose identifier, folded, is `folded`.
pub open spec fn identified_key(folded: Seq<char>) -> Option<KeyCode> {
    if exists|k: KeyCode| ascii_lower_seq(#[trigger] key_identifier(k)) == folded {
        Some(choose|k: KeyCode| ascii_lower_seq(#[trigger] key_identifier(k)) == folded)
    } else {
        None
    }
}

/// The key whose identifier `name` is, whatever its ASCII case.
pub(crate) fn identified_key_of(name: &str) -> (r: Option<KeyCode>)
    ensures
        r == identified_key(ascii_lower_seq(name@)),
{
    proof {
        lemma_one_identified(ascii_lower_seq(name@));
    }
    if same_folded(identifier(KeyCode::Backquote).as_str(), name) {
        return Some(KeyCode::Backquote);
    }
    if same_folded(identifier(KeyCode::Backslash).as_str(), name) {
        return Some(KeyCode::Backslash);
    }
    if same_folded(identifier(KeyCode::BracketLeft).as_str(), name) {
        return Some(KeyCode::BracketLeft);
    }
    if same_folded(identifier(KeyCode::BracketRight).as_str(), name) {
        return Some(KeyCode::BracketRight);
    }
    if same_folded(identifier(KeyCode::Comma).as_str(), name) {
        return Some(KeyCode::Comma);
    }
    if same_folded(identifier(KeyCode::Digit0).as_str(), name) {
        return Some(KeyCode::Digit0);
    }
    if same_folded(identifier(KeyCode::Digit1).as_str(), name) {
        return Some(KeyCode::Digit1);
    }
    if same_folded(identifier(KeyCode::Digit2).as_str(), name) {
        return Some(KeyCode::Digit2);
    }
    if same_folded(identifier(KeyCode::Digit3).as_str(), name) {
        return Some(KeyCode::Digit3);
    }
    if same_folded(identifier(KeyCode::Digit4).as_str(), name) {
        return Some(KeyCode::Digit4);
    }
    if same_folded(identifier(KeyCode::Digit5).as_str(), name) {
        return Some(KeyCode::Digit5);
    }
    if same_folded(identifier(KeyCode::Digit6).as_str(), name) {
        return Some(KeyCode::Digit6);
    }
    if same_folded(identifier(KeyCode::Digit7).as_str(), name) {
        return Some(KeyCode::Digit7);
    }
    if same_folded(identifier(KeyCode::Digit8).as_str(), name) {
        return Some(KeyCode::Digit8);
    }
    if same_folded(identifier(KeyCode::Digit9).as_str(), name) {
        return Some(KeyCode::Digit9);
    }
    if same_folded(identifier(KeyCode::Equal).as_str(), name) {
        return Some(KeyCode::Equal);
    }
    if same_folded(identifier(KeyCode::IntlBackslash).as_str(), name) {
        return Some(KeyCode::IntlBackslash);
    }
    if same_folded(identifier(KeyCode::IntlRo).as_str(), name) {
        return Some(KeyCode::IntlRo);
    }
    if same_folded(identifier(KeyCode::IntlYen).as_str(), name) {
        return Some(KeyCode::IntlYen);
    }
    if same_folded(identifier(KeyCode::KeyA).as_str(), name) {
        return Some(KeyCode::KeyA);
    }
    if same_folded(identifier(KeyCode::KeyB).as_str(), name) {
        return Some(KeyCode::KeyB);
    }
    if same_folded(identifier(KeyCode::KeyC).as_str(), name) {
        return Some(KeyCode::KeyC);
    }
    if same_folded(identifier(KeyCode::KeyD).as_str(), name) {
        return Some(KeyCode::KeyD);
    }
    if same_folded(identifier(KeyCode::KeyE).as_str(), name) {
        return Some(KeyCode::KeyE);
    }
    if same_folded(identifier(KeyCode::KeyF).as_str(), name) {
        return Some(KeyCode::KeyF);
    }
    if same_folded(identifier(KeyCode::KeyG).as_str(), name) {
        return Some(KeyCode::KeyG);
    }
    if same_folded(identifier(KeyCode::KeyH).as_str(), name) {
        return Some(KeyCode::KeyH);
    }
    if same_folded(identifier(KeyCode::KeyI).as_str(), name) {
        return Some(KeyCode::KeyI);
    }
    if same_folded(identifier(KeyCode::KeyJ).as_str(), name) {
        return Some(KeyCode::KeyJ);
    }
    if same_folded(identifier(KeyCode::KeyK).as_str(), name) {
        return Some(KeyCode::KeyK);
    }
    if same_folded(identifier(KeyCode::KeyL).as_str(), name) {
        return Some(KeyCode::KeyL);
    }
    if same_folded(identifier(KeyCode::KeyM).as_str(), name) {
        return Some(KeyCode::KeyM);
    }
    if same_folded(identifier(KeyCode::KeyN).as_str(), name) {
        return Some(KeyCode::KeyN);
    }
    if same_folded(identifier(KeyCode::KeyO).as_str(), name) {
        return Some(KeyCode::KeyO);
    }
    if same_folded(identifier(KeyCode::KeyP).as_str(), name) {
        return Some(KeyCode::KeyP);
    }
    if same_folded(identifier(KeyCode::KeyQ).as_str(), name) {
        return Some(KeyCode::KeyQ);
    }
    if same_folded(identifier(KeyCode::KeyR).as_str(), name) {
        return Some(KeyCode::KeyR);
    }
    if same_folded(identifier(KeyCode::KeyS).as_str(), name) {
        return Some(KeyCode::KeyS);
    }
    if same_folded(identifier(KeyCode::KeyT).as_str(), name) {
        return Some(KeyCode::KeyT);
    }
    if same_folded(identifier(KeyCode::KeyU).as_str(), name) {
        return Some(KeyCode::KeyU);
    }
    if same_folded(identifier(KeyCode::KeyV).as_str(), name) {
        return Some(KeyCode::KeyV);
    }
    if same_folded(identifier(KeyCode::KeyW).as_str(), name) {
        return Some(KeyCode::KeyW);
    }
    if same_folded(identifier(KeyCode::KeyX).as_str(), name) {
        return Some(KeyCode::KeyX);
    }
    if same_folded(identifier(KeyCode::KeyY).as_str(), name) {
        return Some(KeyCode::KeyY);
    }
    if same_folded(identifier(KeyCode::KeyZ).as_str(), name) {
        return Some(KeyCode::KeyZ);
    }
    if same_folded(identifier(KeyCode::Minus).as_str(), name) {
        return Some(KeyCode::Minus);
    }
    if same_folded(identifier(KeyCode::Period).as_str(), name) {
        return Some(KeyCode::Period);
    }
    if same_folded(identifier(KeyCode::Quote).as_str(), name) {
        return Some(KeyCode::Quote);
    }
    if same_folded(identifier(KeyCode::Semicolon).as_str(), name) {
        return Some(KeyCode::Semicolon);
    }
    if same_folded(identifier(KeyCode::Slash).as_str(), name) {
        return Some(KeyCode::Slash);
    }
    if same_folded(identifier(KeyCode::AltLeft).as_str(), name) {
        return Some(KeyCode::AltLeft);
    }
    if same_folded(identifier(KeyCode::AltRight).as_str(), name) {
        return Some(KeyCode::AltRight);
    }
    if same_folded(identifier(KeyCode::Backspace).as_str(), name) {
        return Some(KeyCode::Backspace);
    }
    if same_folded(identifier(KeyCode::CapsLock).as_str(), name) {
        return Some(KeyCode::CapsLock);
    }
    if same_folded(identifier(KeyCode::ContextMenu).as_str(), name) {
        return Some(KeyCode::ContextMenu);
    }
    if same_folded(identifier(KeyCode::ControlLeft).as_str(), name) {
        return Some(KeyCode::ControlLeft);
    }
    if same_folded(identifier(KeyCode::ControlRight).as_str(), name) {
        return Some(KeyCode::ControlRight);
    }
    if same_folded(identifier(KeyCode::Enter).as_str(), name) {
        return Some(KeyCode::Enter);
    }
    if same_folded(identifier(KeyCode::SuperLeft).as_str(), name) {
        return Some(KeyCode::SuperLeft);
    }
    if same_folded(identifier(KeyCode::SuperRight).as_str(), name) {
        return Some(KeyCode::SuperRight);
    }
    if same_folded(identifier(KeyCode::ShiftLeft).as_str(), name) {
        return Some(KeyCode::ShiftLeft);
    }
    if same_folded(identifier(KeyCode::ShiftRight).as_str(), name) {
        return Some(KeyCode::ShiftRight);
    }
    if same_folded(identifier(KeyCode::Space).as_str(), name) {
        return Some(KeyCode::Space);
    }
    if same_folded(identifier(KeyCode::Tab).as_str(), name) {
        return Some(KeyCode::Tab);
    }
    if same_folded(identifier(KeyCode::Convert).as_str(), name) {
        return Some(KeyCode::Convert);
    }
    if same_folded(identifier(KeyCode::KanaMode).as_str(), name) {
        return Some(KeyCode::KanaMode);
    }
    if same_folded(identifier(KeyCode::Lang1).as_str(), name) {
        return Some(KeyCode::Lang1);
    }
    if same_folded(identifier(KeyCode::Lang2).as_str(), name) {
        return Some(KeyCode::Lang2);
    }
    if same_folded(identifier(KeyCode::Lang3).as_str(), name) {
        return Some(KeyCode::Lang3);
    }
    if same_folded(identifier(KeyCode::Lang4).as_str(), name) {
        return Some(KeyCode::Lang4);
    }
    if same_folded(identifier(KeyCode::Lang5).as_str(), name) {
        return Some(KeyCode::Lang5);
    }
    if same_folded(identifier(KeyCode::NonConvert).as_str(), name) {
        return Some(KeyCode::NonConvert);
    }
    if same_folded(identifier(KeyCode::Delete).as_str(), name) {
        return Some(KeyCode::Delete);
    }
    if same_folded(identifier(KeyCode::End).as_str(), name) {
        return Some(KeyCode::End);
    }
    if same_folded(identifier(KeyCode::Help).as_str(), name) {
        return Some(KeyCode::Help);
    }
    if same_folded(identifier(KeyCode::Home).as_str(), name) {
        return Some(KeyCode::Home);
    }
    if same_folded(identifier(KeyCode::Insert).as_str(), name) {
        return Some(KeyCode::Insert);
    }
    if same_folded(identifier(KeyCode::PageDown).as_str(), name) {
        return Some(KeyCode::PageDown);
    }
    if same_folded(identifier(KeyCode::PageUp).as_str(), name) {
        return Some(KeyCode::PageUp);
    }
    if same_folded(identifier(KeyCode::ArrowDown).as_str(), name) {
        return Some(KeyCode::ArrowDown);
    }
    if same_folded(identifier(KeyCode::ArrowLeft).as_str(), name) {
        return Some(KeyCode::ArrowLeft);
    }
    if same_folded(identifier(KeyCode::ArrowRight).as_str(), name) {
        return Some(KeyCode::ArrowRight);
    }
    if same_folded(identifier(KeyCode::ArrowUp).as_str(), name) {
        return Some(KeyCode::ArrowUp);
    }
    if same_folded(identifier(KeyCode::NumLock).as_str(), name) {
        return Some(KeyCode::NumLock);
    }
    if same_folded(identifier(KeyCode::Numpad0).as_str(), name) {
        return Some(KeyCode::Numpad0);
    }
    if same_folded(identifier(KeyCode::Numpad1).as_str(), name) {
        return Some(KeyCode::Numpad1);
    }
    if same_folded(identifier(KeyCode::Numpad2).as_str(), name) {
        return Some(KeyCode::Numpad2);
    }
    if same_folded(identifier(KeyCode::Numpad3).as_str(), name) {
        return Some(KeyCode::Numpad3);
    }
    if same_folded(identifier(KeyCode::Numpad4).as_str(), name) {
        return Some(KeyCode::Numpad4);
    }
    if same_folded(identifier(KeyCode::Numpad5).as_str(), name) {
        return Some(KeyCode::Numpad5);
    }
    if same_folded(identifier(KeyCode::Numpad6).as_str(), name) {
        return Some(KeyCode::Numpad6);
    }
    if same_folded(identifier(KeyCode::Numpad7).as_str(), name) {
        return Some(KeyCode::Numpad7);
    }
    if same_folded(identifier(KeyCode::Numpad8).as_str(), name) {
        return Some(KeyCode::Numpad8);
    }
    if same_folded(identifier(KeyCode::Numpad9).as_str(), name) {
        return Some(KeyCode::Numpad9);
    }
    if same_folded(identifier(KeyCode::NumpadAdd).as_str(), name) {
        return Some(KeyCode::NumpadAdd);
    }
    if same_folded(identifier(KeyCode::NumpadBackspace).as_str(), name) {
        return Some(KeyCode::NumpadBackspace);
    }
    if same_folded(identifier(KeyCode::NumpadClear).as_str(), name) {
        return Some(KeyCode::NumpadClear);
    }
    if same_folded(identifier(KeyCode::NumpadClearEntry).as_str(), name) {
        return Some(KeyCode::NumpadClearEntry);
    }
    if same_folded(identifier(KeyCode::NumpadComma).as_str(), name) {
        return Some(KeyCode::NumpadComma);
    }
    if same_folded(identifier(KeyCode::NumpadDecimal).as_str(), name) {
        return Some(KeyCode::NumpadDecimal);
    }
    if same_folded(identifier(KeyCode::NumpadDivide).as_str(), name) {
        return Some(KeyCode::NumpadDivide);
    }
    if same_folded(identifier(KeyCode::NumpadEnter).as_str(), name) {
        return Some(KeyCode::NumpadEnter);
    }
    if same_folded(identifier(KeyCode::NumpadEqual).as_str(), name) {
        return Some(KeyCode::NumpadEqual);
    }
    if same_folded(identifier(KeyCode::NumpadHash).as_str(), name) {
        return Some(KeyCode::NumpadHash);
    }
    if same_folded(identifier(KeyCode::NumpadMemoryAdd).as_str(), name) {
        return Some(KeyCode::NumpadMemoryAdd);
    }
    if same_folded(identifier(KeyCode::NumpadMemoryClear).as_str(), name) {
        return Some(KeyCode::NumpadMemoryClear);
    }
    if same_folded(identifier(KeyCode::NumpadMemoryRecall).as_str(), name) {
        return Some(KeyCode::NumpadMemoryRecall);
    }
    if same_folded(identifier(KeyCode::NumpadMemoryStore).as_str(), name) {
        return Some(KeyCode::NumpadMemoryStore);
    }
    if same_folded(identifier(KeyCode::NumpadMemorySubtract).as_str(), name) {
        return Some(KeyCode::NumpadMemorySubtract);
    }
    if same_folded(identifier(KeyCode::NumpadMultiply).as_str(), name) {
        return Some(KeyCode::NumpadMultiply);
    }
    if same_folded(identifier(KeyCode::NumpadParenLeft).as_str(), name) {
        return Some(KeyCode::NumpadParenLeft);
    }
    if same_folded(identifier(KeyCode::NumpadParenRight).as_str(), name) {
        return Some(KeyCode::NumpadParenRight);
    }
    if same_folded(identifier(KeyCode::NumpadStar).as_str(), name) {
        return Some(KeyCode::NumpadStar);
    }
    if same_folded(identifier(KeyCode::NumpadSubtract).as_str(), name) {
        return Some(KeyCode::NumpadSubtract);
    }
    if same_folded(identifier(KeyCode::Escape).as_str(), name) {
        return Some(KeyCode::Escape);
    }
    if same_folded(identifier(KeyCode::Fn).as_str(), name) {
        return Some(KeyCode::Fn);
    }
    if same_folded(identifier(KeyCode::FnLock).as_str(), name) {
        return Some(KeyCode::FnLock);
    }
    if same_folded(identifier(KeyCode::PrintScreen).as_str(), name) {
        return Some(KeyCode::PrintScreen);
    }
    if same_folded(identifier(KeyCode::ScrollLock).as_str(), name) {
        return Some(KeyCode::ScrollLock);
    }
    if same_folded(identifier(KeyCode::Pause).as_str(), name) {
        return Some(KeyCode::Pause);
    }
    if same_folded(identifier(KeyCode::BrowserBack).as_str(), name) {
        return Some(KeyCode::BrowserBack);
    }
    if same_folded(identifier(KeyCode::BrowserFavorites).as_str(), name) {
        return Some(KeyCode::BrowserFavorites);
    }
    if same_folded(identifier(KeyCode::BrowserForward).as_str(), name) {
        return Some(KeyCode::BrowserForward);
    }
    if same_folded(identifier(KeyCode::BrowserHome).as_str(), name) {
        return Some(KeyCode::BrowserHome);
    }
    if same_folded(identifier(KeyCode::BrowserRefresh).as_str(), name) {
        return Some(KeyCode::BrowserRefresh);
    }
    if same_folded(identifier(KeyCode::BrowserSearch).as_str(), name) {
        return Some(KeyCode::BrowserSearch);
    }
    if same_folded(identifier(KeyCode::BrowserStop).as_str(), name) {
        return Some(KeyCode::BrowserStop);
    }
    if same_folded(identifier(KeyCode::Eject).as_str(), name) {
        return Some(KeyCode::Eject);
    }
    if same_folded(identifier(KeyCode::LaunchApp1).as_str(), name) {
        return Some(KeyCode::LaunchApp1);
    }
    if same_folded(identifier(KeyCode::LaunchApp2).as_str(), name) {
        return Some(KeyCode::LaunchApp2);
    }
    if same_folded(identifier(KeyCode::LaunchMail).as_str(), name) {
        return Some(KeyCode::LaunchMail);
    }
    if same_folded(identifier(KeyCode::MediaPlayPause).as_str(), name) {
        return Some(KeyCode::MediaPlayPause);
    }
    if same_folded(identifier(KeyCode::MediaSelect).as_str(), name) {
        return Some(KeyCode::MediaSelect);
    }
    if same_folded(identifier(KeyCode::MediaStop).as_str(), name) {
        return Some(KeyCode::MediaStop);
    }
    if same_folded(identifier(KeyCode::MediaTrackNext).as_str(), name) {
        return Some(KeyCode::MediaTrackNext);
    }
    if same_folded(identifier(KeyCode::MediaTrackPrevious).as_str(), name) {
        return Some(KeyCode::MediaTrackPrevious);
    }
    if same_folded(identifier(KeyCode::Power).as_str(), name) {
        return Some(KeyCode::Power);
    }
    if same_folded(identifier(KeyCode::Sleep).as_str(), name) {
        return Some(KeyCode::Sleep);
    }
    if same_folded(identifier(KeyCode::AudioVolumeDown).as_str(), name) {
        return Some(KeyCode::AudioVolumeDown);
    }
    if same_folded(identifier(KeyCode::AudioVolumeMute).as_str(), name) {
        return Some(KeyCode::AudioVolumeMute);
    }
    if same_folded(identifier(KeyCode::AudioVolumeUp).as_str(), name) {
        return Some(KeyCode::AudioVolumeUp);
    }
    if same_folded(identifier(KeyCode::WakeUp).as_str(), name) {
        return Some(KeyCode::WakeUp);
    }
    if same_folded(identifier(KeyCode::Meta).as_str(), name) {
        return Some(KeyCode::Meta);
    }
    if same_folded(identifier(KeyCode::Hyper).as_str(), name) {
        return Some(KeyCode::Hyper);
    }
    if same_folded(identifier(KeyCode::Turbo).as_str(), name) {
        return Some(KeyCode::Turbo);
    }
    if same_folded(identifier(KeyCode::Abort).as_str(), name) {
        return Some(KeyCode::Abort);
    }
    if same_folded(identifier(KeyCode::Resume).as_str(), name) {
        return Some(KeyCode::Resume);
    }
    if same_folded(identifier(KeyCode::Suspend).as_str(), name) {
        return Some(KeyCode::Suspend);
    }
    if same_folded(identifier(KeyCode::Again).as_str(), name) {
        return Some(KeyCode::Again);
    }
    if same_folded(identifier(KeyCode::Copy).as_str(), name) {
        return Some(KeyCode::Copy);
    }
    if same_folded(identifier(KeyCode::Cut).as_str(), name) {
        return Some(KeyCode::Cut);
    }
    if same_folded(identifier(KeyCode::Find).as_str(), name) {
        return Some(KeyCode::Find);
    }
    if same_folded(identifier(KeyCode::Open).as_str(), name) {
        return Some(KeyCode::Open);
    }
    if same_folded(identifier(KeyCode::Paste).as_str(), name) {
        return Some(KeyCode::Paste);
    }
    if same_folded(identifier(KeyCode::Props).as_str(), name) {
        return Some(KeyCode::Props);
    }
    if same_folded(identifier(KeyCode::Select).as_str(), name) {
        return Some(KeyCode::Select);
    }
    if same_folded(identifier(KeyCode::Undo).as_str(), name) {
        return Some(KeyCode::Undo);
    }
    if same_folded(identifier(KeyCode::Hiragana).as_str(), name) {
        return Some(KeyCode::Hiragana);
    }
    if same_folded(identifier(KeyCode::Katakana).as_str(), name) {
        return Some(KeyCode::Katakana);
    }
    if same_folded(identifier(KeyCode::F1).as_str(), name) {
        return Some(KeyCode::F1);
    }
    if same_folded(identifier(KeyCode::F2).as_str(), name) {
        return Some(KeyCode::F2);
    }
    if same_folded(identifier(KeyCode::F3).as_str(), name) {
        return Some(KeyCode::F3);
    }
    if same_folded(identifier(KeyCode::F4).as_str(), name) {
        return Some(KeyCode::F4);
    }
    if same_folded(identifier(KeyCode::F5).as_str(), name) {
        return Some(KeyCode::F5);
    }
    if same_folded(identifier(KeyCode::F6).as_str(), name) {
        return Some(KeyCode::F6);
    }
    if same_folded(identifier(KeyCode::F7).as_str(), name) {
        return Some(KeyCode::F7);
    }
    if same_folded(identifier(KeyCode::F8).as_str(), name) {
        return Some(KeyCode::F8);
    }
    if same_folded(identifier(KeyCode::F9).as_str(), name) {
        return Some(KeyCode::F9);
    }
    if same_folded(identifier(KeyCode::F10).as_str(), name) {
        return Some(KeyCode::F10);
    }
    if same_folded(identifier(KeyCode::F11).as_str(), name) {
        return Some(KeyCode::F11);
    }
    if same_folded(identifier(KeyCode::F12).as_str(), name) {
        return Some(KeyCode::F12);
    }
    if same_folded(identifier(KeyCode::F13).as_str(), name) {
        return Some(KeyCode::F13);
    }
    if same_folded(identifier(KeyCode::F14).as_str(), name) {
        return Some(KeyCode::F14);
    }
    if same_folded(identifier(KeyCode::F15).as_str(), name) {
        return Some(KeyCode::F15);
    }
    if same_folded(identifier(KeyCode::F16).as_str(), name) {
        return Some(KeyCode::F16);
    }
    if same_folded(identifier(KeyCode::F17).as_str(), name) {
        return Some(KeyCode::F17);
    }
    if same_folded(identifier(KeyCode::F18).as_str(), name) {
        return Some(KeyCode::F18);
    }
    if same_folded(identifier(KeyCode::F19).as_str(), name) {
        return Some(KeyCode::F19);
    }
    if same_folded(identifier(KeyCode::F20).as_str(), name) {
        return Some(KeyCode::F20);
    }
    if same_folded(identifier(KeyCode::F21).as_str(), name) {
        return Some(KeyCode::F21);
    }
    if same_folded(identifier(KeyCode::F22).as_str(), name) {
        return Some(KeyCode::F22);
    }
    if same_folded(identifier(KeyCode::F23).as_str(), name) {
        return Some(KeyCode::F23);
    }
    if same_folded(identifier(KeyCode::F24).as_str(), name) {
        return Some(KeyCode::F24);
    }
    if same_folded(identifier(KeyCode::F25).as_str(), name) {
        return Some(KeyCode::F25);
    }
    if same_folded(identifier(KeyCode::F26).as_str(), name) {
        return Some(KeyCode::F26);
    }
    if same_folded(identifier(KeyCode::F27).as_str(), name) {
        return Some(KeyCode::F27);
    }
    if same_folded(identifier(KeyCode::F28).as_str(), name) {
        return Some(KeyCode::F28);
    }
    if same_folded(identifier(KeyCode::F29).as_str(), name) {
        return Some(KeyCode::F29);
    }
    if same_folded(identifier(KeyCode::F30).as_str(), name) {
        return Some(KeyCode::F30);
    }
    if same_folded(identifier(KeyCode::F31).as_str(), name) {
        return Some(KeyCode::F31);
    }
    if same_folded(identifier(KeyCode::F32).as_str(), name) {
        return Some(KeyCode::F32);
    }
    if same_folded(identifier(KeyCode::F33).as_str(), name) {
        return Some(KeyCode::F33);
    }
    if same_folded(identifier(KeyCode::F34).as_str(), name) {
        return Some(KeyCode::F34);
    }
    if same_folded(identifier(KeyCode::F35).as_str(), name) {
        return Some(KeyCode::F35);
    }
    assert forall|k: KeyCode| ascii_lower_seq(#[trigger] key_identifier(k)) != ascii_lower_seq(
        name@,
    ) by {}
    None
}

/// The character at a place, as a number; zero where there is none.
spec fn code_at(s: Seq<char>, i: int) -> int {
    if 0 <= i < s.len() {
        s[i] as int
    } else {
        0
    }
}

/// A number that tells every two identifiers apart: from the length, the last two characters and
/// the third.
#[verifier::opaque]
spec fn mark(s: Seq<char>) -> int {
    s.len() * 0x20_0000 + code_at(s, s.len() - 1) * 0x4000 + code_at(s, 2) * 0x80 + code_at(
        s,
        s.len() - 2,
    )
}

/// [`mark`] of a key's folded identifier.
spec fn key_mark(key: KeyCode) -> int {
    match key {
        KeyCode::Backquote => 20541940,
        KeyCode::Backslash => 20591091,
        KeyCode::BracketLeft => 24981734,
        KeyCode::BracketRight => 27078888,
        KeyCode::Comma => 12089069,
        KeyCode::Digit0 => 13382644,
        KeyCode::Digit1 => 13399028,
        KeyCode::Digit2 => 13415412,
        KeyCode::Digit3 => 13431796,
        KeyCode::Digit4 => 13448180,
        KeyCode::Digit5 => 13464564,
        KeyCode::Digit6 => 13480948,
        KeyCode::Digit7 => 13497332,
        KeyCode::Digit8 => 13513716,
        KeyCode::Digit9 => 13530100,
        KeyCode::Equal => 12270305,
        KeyCode::IntlBackslash => 28981875,
        KeyCode::IntlRo => 14416498,
        KeyCode::IntlYen => 16497253,
        KeyCode::KeyA => 9993465,
        KeyCode::KeyB => 10009849,
        KeyCode::KeyC => 10026233,
        KeyCode::KeyD => 10042617,
        KeyCode::KeyE => 10059001,
        KeyCode::KeyF => 10075385,
        KeyCode::KeyG => 10091769,
        KeyCode::KeyH => 10108153,
        KeyCode::KeyI => 10124537,
        KeyCode::KeyJ => 10140921,
        KeyCode::KeyK => 10157305,
        KeyCode::KeyL => 10173689,
        KeyCode::KeyM => 10190073,
        KeyCode::KeyN => 10206457,
        KeyCode::KeyO => 10222841,
        KeyCode::KeyP => 10239225,
        KeyCode::KeyQ => 10255609,
        KeyCode::KeyR => 10271993,
        KeyCode::KeyS => 10288377,
        KeyCode::KeyT => 10304761,
        KeyCode::KeyU => 10321145,
        KeyCode::KeyV => 10337529,
        KeyCode::KeyW => 10353913,
        KeyCode::KeyX => 10370297,
        KeyCode::KeyY => 10386681,
        KeyCode::KeyZ => 10403065,
        KeyCode::Minus => 12384117,
        KeyCode::Period => 14236015,
        KeyCode::Quote => 12154868,
        KeyCode::Semicolon => 20690671,
        KeyCode::Slash => 12202227,
        KeyCode::AltLeft => 16595558,
        KeyCode::AltRight => 18692712,
        KeyCode::Backspace => 20541923,
        KeyCode::CapsLock => 18544739,
        KeyCode::ContextMenu => 24999790,
        KeyCode::ControlLeft => 24983398,
        KeyCode::ControlRight => 27080552,
        KeyCode::Enter => 12368485,
        KeyCode::SuperLeft => 20789350,
        KeyCode::SuperRight => 22886504,
        KeyCode::ShiftLeft => 20788454,
        KeyCode::ShiftRight => 22885608,
        KeyCode::Space => 12153059,
        KeyCode::Tab => 7909729,
        KeyCode::Convert => 16594802,
        KeyCode::KanaMode => 18446180,
        KeyCode::Lang1 => 11302759,
        KeyCode::Lang2 => 11319143,
        KeyCode::Lang3 => 11335527,
        KeyCode::Lang4 => 11351911,
        KeyCode::Lang5 => 11368295,
        KeyCode::NonConvert => 22886258,
        KeyCode::Delete => 14251636,
        KeyCode::End => 7942766,
        KeyCode::Help => 10237548,
        KeyCode::Home => 10057453,
        KeyCode::Insert => 14498290,
        KeyCode::PageDown => 18592759,
        KeyCode::PageUp => 14431221,
        KeyCode::ArrowDown => 20691319,
        KeyCode::ArrowLeft => 20789606,
        KeyCode::ArrowRight => 22886760,
        KeyCode::ArrowUp => 16529781,
        KeyCode::NumLock => 16447203,
        KeyCode::Numpad0 => 15480548,
        KeyCode::Numpad1 => 15496932,
        KeyCode::Numpad2 => 15513316,
        KeyCode::Numpad3 => 15529700,
        KeyCode::Numpad4 => 15546084,
        KeyCode::Numpad5 => 15562468,
        KeyCode::Numpad6 => 15578852,
        KeyCode::Numpad7 => 15595236,
        KeyCode::Numpad8 => 15611620,
        KeyCode::Numpad9 => 15628004,
        KeyCode::NumpadAdd => 20526820,
        KeyCode::NumpadBackspace => 33126115,
        KeyCode::NumpadClear => 24950497,
        KeyCode::NumpadClearEntry => 35550962,
        KeyCode::NumpadComma => 24671981,
        KeyCode::NumpadDecimal => 29046497,
        KeyCode::NumpadDivide => 26834660,
        KeyCode::NumpadEnter => 24950501,
        KeyCode::NumpadEqual => 24852193,
        KeyCode::NumpadHash => 22689523,
        KeyCode::NumpadMemoryAdd => 33109732,
        KeyCode::NumpadMemoryClear => 37533409,
        KeyCode::NumpadMemoryRecall => 39532268,
        KeyCode::NumpadMemoryStore => 37320434,
        KeyCode::NumpadMemorySubtract => 43857635,
        KeyCode::NumpadMultiply => 31356652,
        KeyCode::NumpadParenLeft => 33371878,
        KeyCode::NumpadParenRight => 35469032,
        KeyCode::NumpadStar => 22853345,
        KeyCode::NumpadSubtract => 31274723,
        KeyCode::Escape => 14250480,
        KeyCode::Fn => 5996646,
        KeyCode::FnLock => 14349923,
        KeyCode::PrintScreen => 24884453,
        KeyCode::ScrollLock => 22739299,
        KeyCode::Pause => 12155635,
        KeyCode::BrowserBack => 24836067,
        KeyCode::BrowserFavorites => 35452901,
        KeyCode::BrowserForward => 31012850,
        KeyCode::BrowserHome => 24737773,
        KeyCode::BrowserRefresh => 31078387,
        KeyCode::BrowserSearch => 28981219,
        KeyCode::BrowserStop => 24917999,
        KeyCode::Eject => 12399331,
        KeyCode::LaunchApp1 => 21789424,
        KeyCode::LaunchApp2 => 21805808,
        KeyCode::LaunchMail => 22756073,
        KeyCode::MediaPlayPause => 31027827,
        KeyCode::MediaSelect => 24982115,
        KeyCode::MediaStop => 20722287,
        KeyCode::MediaTrackNext => 31273592,
        KeyCode::MediaTrackPrevious => 39645813,
        KeyCode::Power => 12368869,
        KeyCode::Sleep => 12333797,
        KeyCode::AudioVolumeDown => 33272439,
        KeyCode::AudioVolumeMute => 33124980,
        KeyCode::AudioVolumeUp => 29110901,
        KeyCode::WakeUp => 14431733,
        KeyCode::Meta => 9992820,
        KeyCode::Hyper => 12367973,
        KeyCode::Turbo => 12319074,
        KeyCode::Abort => 12400626,
        KeyCode::Resume => 14252525,
        KeyCode::Suspend => 16333294,
        KeyCode::Again => 12300521,
        KeyCode::Copy => 10385520,
        KeyCode::Cut => 8206965,
        KeyCode::Find => 10041198,
        KeyCode::Open => 10203877,
        KeyCode::Paste => 12155380,
        KeyCode::Props => 12384240,
        KeyCode::Select => 14497379,
        KeyCode::Undo => 10220132,
        KeyCode::Hiragana => 18381166,
        KeyCode::Katakana => 18381422,
        KeyCode::F1 => 4997222,
        KeyCode::F2 => 5013606,
        KeyCode::F3 => 5029990,
        KeyCode::F4 => 5046374,
        KeyCode::F5 => 5062758,
        KeyCode::F6 => 5079142,
        KeyCode::F7 => 5095526,
        KeyCode::F8 => 5111910,
        KeyCode::F9 => 5128294,
        KeyCode::F10 => 7084081,
        KeyCode::F11 => 7100593,
        KeyCode::F12 => 7117105,
        KeyCode::F13 => 7133617,
        KeyCode::F14 => 7150129,
        KeyCode::F15 => 7166641,
        KeyCode::F16 => 7183153,
        KeyCode::F17 => 7199665,
        KeyCode::F18 => 7216177,
        KeyCode::F19 => 7232689,
        KeyCode::F20 => 7084082,
        KeyCode::F21 => 7100594,
        KeyCode::F22 => 7117106,
        KeyCode::F23 => 7133618,
        KeyCode::F24 => 7150130,
        KeyCode::F25 => 7166642,
        KeyCode::F26 => 7183154,
        KeyCode::F27 => 7199666,
        KeyCode::F28 => 7216178,
        KeyCode::F29 => 7232690,
        KeyCode::F30 => 7084083,
        KeyCode::F31 => 7100595,
        KeyCode::F32 => 7117107,
        KeyCode::F33 => 7133619,
        KeyCode::F34 => 7150131,
        KeyCode::F35 => 7166643,
        _ => 0,
    }
}

/// The key with this mark.
spec fn marked_key(m: int) -> Option<KeyCode> {
    if m == 20541940 {
        Some(KeyCode::Backquote)
    } else if m == 20591091 {
        Some(KeyCode::Backslash)
    } else if m == 24981734 {
        Some(KeyCode::BracketLeft)
    } else if m == 27078888 {
        Some(KeyCode::BracketRight)
    } else if m == 12089069 {
        Some(KeyCode::Comma)
    } else if m == 13382644 {
        Some(KeyCode::Digit0)
    } else if m == 13399028 {
        Some(KeyCode::Digit1)
    } else if m == 13415412 {
        Some(KeyCode::Digit2)
    } else if m == 13431796 {
        Some(KeyCode::Digit3)
    } else if m == 13448180 {
        Some(KeyCode::Digit4)
    } else if m == 13464564 {
        Some(KeyCode::Digit5)
    } else if m == 13480948 {
        Some(KeyCode::Digit6)
    } else if m == 13497332 {
        Some(KeyCode::Digit7)
    } else if m == 13513716 {
        Some(KeyCode::Digit8)
    } else if m == 13530100 {
        Some(KeyCode::Digit9)
    } else if m == 12270305 {
        Some(KeyCode::Equal)
    } else if m == 28981875 {
        Some(KeyCode::IntlBackslash)
    } else if m == 14416498 {
        Some(KeyCode::IntlRo)
    } else if m == 16497253 {
        Some(KeyCode::IntlYen)
    } else if m == 9993465 {
        Some(KeyCode::KeyA)
    } else if m == 10009849 {
        Some(KeyCode::KeyB)
    } else if m == 10026233 {
        Some(KeyCode::KeyC)
    } else if m == 10042617 {
        Some(KeyCode::KeyD)
    } else if m == 10059001 {
        Some(KeyCode::KeyE)
    } else if m == 10075385 {
        Some(KeyCode::KeyF)
    } else if m == 10091769 {
        Some(KeyCode::KeyG)
    } else if m == 10108153 {
        Some(KeyCode::KeyH)
    } else if m == 10124537 {
        Some(KeyCode::KeyI)
    } else if m == 10140921 {
        Some(KeyCode::KeyJ)
    } else if m == 10157305 {
        Some(KeyCode::KeyK)
    } else if m == 10173689 {
        Some(KeyCode::KeyL)
    } else if m == 10190073 {
        Some(KeyCode::KeyM)
    } else if m == 10206457 {
        Some(KeyCode::KeyN)
    } else if m == 10222841 {
        Some(KeyCode::KeyO)
    } else if m == 10239225 {
        Some(KeyCode::KeyP)
    } else if m == 10255609 {
        Some(KeyCode::KeyQ)
    } else if m == 10271993 {
        Some(KeyCode::KeyR)
    } else if m == 10288377 {
        Some(KeyCode::KeyS)
    } else if m == 10304761 {
        Some(KeyCode::KeyT)
    } else if m == 10321145 {
        Some(KeyCode::KeyU)
    } else if m == 10337529 {
        Some(KeyCode::KeyV)
    } else if m == 10353913 {
        Some(KeyCode::KeyW)
    } else if m == 10370297 {
        Some(KeyCode::KeyX)
    } else if m == 10386681 {
        Some(KeyCode::KeyY)
    } else if m == 10403065 {
        Some(KeyCode::KeyZ)
    } else if m == 12384117 {
        Some(KeyCode::Minus)
    } else if m == 14236015 {
        Some(KeyCode::Period)
    } else if m == 12154868 {
        Some(KeyCode::Quote)
    } else if m == 20690671 {
        Some(KeyCode::Semicolon)
    } else if m == 12202227 {
        Some(KeyCode::Slash)
    } else if m == 16595558 {
        Some(KeyCode::AltLeft)
    } else if m == 18692712 {
        Some(KeyCode::AltRight)
    } else if m == 20541923 {
        Some(KeyCode::Backspace)
    } else if m == 18544739 {
        Some(KeyCode::CapsLock)
    } else if m == 24999790 {
        Some(KeyCode::ContextMenu)
    } else if m == 24983398 {
        Some(KeyCode::ControlLeft)
    } else if m == 27080552 {
        Some(KeyCode::ControlRight)
    } else if m == 12368485 {
        Some(KeyCode::Enter)
    } else if m == 20789350 {
        Some(KeyCode::SuperLeft)
    } else if m == 22886504 {
        Some(KeyCode::SuperRight)
    } else if m == 20788454 {
        Some(KeyCode::ShiftLeft)
    } else if m == 22885608 {
        Some(KeyCode::ShiftRight)
    } else if m == 12153059 {
        Some(KeyCode::Space)
    } else if m == 7909729 {
        Some(KeyCode::Tab)
    } else if m == 16594802 {
        Some(KeyCode::Convert)
    } else if m == 18446180 {
        Some(KeyCode::KanaMode)
    } else if m == 11302759 {
        Some(KeyCode::Lang1)
    } else if m == 11319143 {
        Some(KeyCode::Lang2)
    } else if m == 11335527 {
        Some(KeyCode::Lang3)
    } else if m == 11351911 {
        Some(KeyCode::Lang4)
    } else if m == 11368295 {
        Some(KeyCode::Lang5)
    } else if m == 22886258 {
        Some(KeyCode::NonConvert)
    } else if m == 14251636 {
        Some(KeyCode::Delete)
    } else if m == 7942766 {
        Some(KeyCode::End)
    } else if m == 10237548 {
        Some(KeyCode::Help)
    } else if m == 10057453 {
        Some(KeyCode::Home)
    } else if m == 14498290 {
        Some(KeyCode::Insert)
    } else if m == 18592759 {
        Some(KeyCode::PageDown)
    } else if m == 14431221 {
        Some(KeyCode::PageUp)
    } else if m == 20691319 {
        Some(KeyCode::ArrowDown)
    } else if m == 20789606 {
        Some(KeyCode::ArrowLeft)
    } else if m == 22886760 {
        Some(KeyCode::ArrowRight)
    } else if m == 16529781 {
        Some(KeyCode::ArrowUp)
    } else if m == 16447203 {
        Some(KeyCode::NumLock)
    } else if m == 15480548 {
        Some(KeyCode::Numpad0)
    } else if m == 15496932 {
        Some(KeyCode::Numpad1)
    } else if m == 15513316 {
        Some(KeyCode::Numpad2)
    } else if m == 15529700 {
        Some(KeyCode::Numpad3)
    } else if m == 15546084 {
        Some(KeyCode::Numpad4)
    } else if m == 15562468 {
        Some(KeyCode::Numpad5)
    } else if m == 15578852 {
        Some(KeyCode::Numpad6)
    } else if m == 15595236 {
        Some(KeyCode::Numpad7)
    } else if m == 15611620 {
        Some(KeyCode::Numpad8)
    } else if m == 15628004 {
        Some(KeyCode::Numpad9)
    } else if m == 20526820 {
        Some(KeyCode::NumpadAdd)
    } else if m == 33126115 {
        Some(KeyCode::NumpadBackspace)
    } else if m == 24950497 {
        Some(KeyCode::NumpadClear)
    } else if m == 35550962 {
        Some(KeyCode::NumpadClearEntry)
    } else if m == 24671981 {
        Some(KeyCode::NumpadComma)
    } else if m == 29046497 {
        Some(KeyCode::NumpadDecimal)
    } else if m == 26834660 {
        Some(KeyCode::NumpadDivide)
    } else if m == 24950501 {
        Some(KeyCode::NumpadEnter)
    } else if m == 24852193 {
        Some(KeyCode::NumpadEqual)
    } else if m == 22689523 {
        Some(KeyCode::NumpadHash)
    } else if m == 33109732 {
        Some(KeyCode::NumpadMemoryAdd)
    } else if m == 37533409 {
        Some(KeyCode::NumpadMemoryClear)
    } else if m == 39532268 {
        Some(KeyCode::NumpadMemoryRecall)
    } else if m == 37320434 {
        Some(KeyCode::NumpadMemoryStore)
    } else if m == 43857635 {
        Some(KeyCode::NumpadMemorySubtract)
    } else if m == 31356652 {
        Some(KeyCode::NumpadMultiply)
    } else if m == 33371878 {
        Some(KeyCode::NumpadParenLeft)
    } else if m == 35469032 {
        Some(KeyCode::NumpadParenRight)
    } else if m == 22853345 {
        Some(KeyCode::NumpadStar)
    } else if m == 31274723 {
        Some(KeyCode::NumpadSubtract)
    } else if m == 14250480 {
        Some(KeyCode::Escape)
    } else if m == 5996646 {
        Some(KeyCode::Fn)
    } else if m == 14349923 {
        Some(KeyCode::FnLock)
    } else if m == 24884453 {
        Some(KeyCode::PrintScreen)
    } else if m == 22739299 {
        Some(KeyCode::ScrollLock)
    } else if m == 12155635 {
        Some(KeyCode::Pause)
    } else if m == 24836067 {
        Some(KeyCode::BrowserBack)
    } else if m == 35452901 {
        Some(KeyCode::BrowserFavorites)
    } else if m == 31012850 {
        Some(KeyCode::BrowserForward)
    } else if m == 24737773 {
        Some(KeyCode::BrowserHome)
    } else if m == 31078387 {
        Some(KeyCode::BrowserRefresh)
    } else if m == 28981219 {
        Some(KeyCode::BrowserSearch)
    } else if m == 24917999 {
        Some(KeyCode::BrowserStop)
    } else if m == 12399331 {
        Some(KeyCode::Eject)
    } else if m == 21789424 {
        Some(KeyCode::LaunchApp1)
    } else if m == 21805808 {
        Some(KeyCode::LaunchApp2)
    } else if m == 22756073 {
        Some(KeyCode::LaunchMail)
    } else if m == 31027827 {
        Some(KeyCode::MediaPlayPause)
    } else if m == 24982115 {
        Some(KeyCode::MediaSelect)
    } else if m == 20722287 {
        Some(KeyCode::MediaStop)
    } else if m == 31273592 {
        Some(KeyCode::MediaTrackNext)
    } else if m == 39645813 {
        Some(KeyCode::MediaTrackPrevious)
    } else if m == 12368869 {
        Some(KeyCode::Power)
    } else if m == 12333797 {
        Some(KeyCode::Sleep)
    } else if m == 33272439 {
        Some(KeyCode::AudioVolumeDown)
    } else if m == 33124980 {
        Some(KeyCode::AudioVolumeMute)
    } else if m == 29110901 {
        Some(KeyCode::AudioVolumeUp)
    } else if m == 14431733 {
        Some(KeyCode::WakeUp)
    } else if m == 9992820 {
        Some(KeyCode::Meta)
    } else if m == 12367973 {
        Some(KeyCode::Hyper)
    } else if m == 12319074 {
        Some(KeyCode::Turbo)
    } else if m == 12400626 {
        Some(KeyCode::Abort)
    } else if m == 14252525 {
        Some(KeyCode::Resume)
    } else if m == 16333294 {
        Some(KeyCode::Suspend)
    } else if m == 12300521 {
        Some(KeyCode::Again)
    } else if m == 10385520 {
        Some(KeyCode::Copy)
    } else if m == 8206965 {
        Some(KeyCode::Cut)
    } else if m == 10041198 {
        Some(KeyCode::Find)
    } else if m == 10203877 {
        Some(KeyCode::Open)
    } else if m == 12155380 {
        Some(KeyCode::Paste)
    } else if m == 12384240 {
        Some(KeyCode::Props)
    } else if m == 14497379 {
        Some(KeyCode::Select)
    } else if m == 10220132 {
        Some(KeyCode::Undo)
    } else if m == 18381166 {
        Some(KeyCode::Hiragana)
    } else if m == 18381422 {
        Some(KeyCode::Katakana)
    } else if m == 4997222 {
        Some(KeyCode::F1)
    } else if m == 5013606 {
        Some(KeyCode::F2)
    } else if m == 5029990 {
        Some(KeyCode::F3)
    } else if m == 5046374 {
        Some(KeyCode::F4)
    } else if m == 5062758 {
        Some(KeyCode::F5)
    } else if m == 5079142 {
        Some(KeyCode::F6)
    } else if m == 5095526 {
        Some(KeyCode::F7)
    } else if m == 5111910 {
        Some(KeyCode::F8)
    } else if m == 5128294 {
        Some(KeyCode::F9)
    } else if m == 7084081 {
        Some(KeyCode::F10)
    } else if m == 7100593 {
        Some(KeyCode::F11)
    } else if m == 7117105 {
        Some(KeyCode::F12)
    } else if m == 7133617 {
        Some(KeyCode::F13)
    } else if m == 7150129 {
        Some(KeyCode::F14)
    } else if m == 7166641 {
        Some(KeyCode::F15)
    } else if m == 7183153 {
        Some(KeyCode::F16)
    } else if m == 7199665 {
        Some(KeyCode::F17)
    } else if m == 7216177 {
        Some(KeyCode::F18)
    } else if m == 7232689 {
        Some(KeyCode::F19)
    } else if m == 7084082 {
        Some(KeyCode::F20)
    } else if m == 7100594 {
        Some(KeyCode::F21)
    } else if m == 7117106 {
        Some(KeyCode::F22)
    } else if m == 7133618 {
        Some(KeyCode::F23)
    } else if m == 7150130 {
        Some(KeyCode::F24)
    } else if m == 7166642 {
        Some(KeyCode::F25)
    } else if m == 7183154 {
        Some(KeyCode::F26)
    } else if m == 7199666 {
        Some(KeyCode::F27)
    } else if m == 7216178 {
        Some(KeyCode::F28)
    } else if m == 7232690 {
        Some(KeyCode::F29)
    } else if m == 7084083 {
        Some(KeyCode::F30)
    } else if m == 7100595 {
        Some(KeyCode::F31)
    } else if m == 7117107 {
        Some(KeyCode::F32)
    } else if m == 7133619 {
        Some(KeyCode::F33)
    } else if m == 7150131 {
        Some(KeyCode::F34)
    } else if m == 7166643 {
        Some(KeyCode::F35)
    } else {
        None
    }
}

proof fn lemma_marks_tell_apart(key: KeyCode)
    ensures
        marked_key(key_mark(key)) == Some(key),
        key_mark(key) > 0,
{
}

proof fn lemma_marks_0()
    ensures
        mark(ascii_lower_seq("Backquote"@)) == 20541940,
        mark(ascii_lower_seq("Backslash"@)) == 20591091,
        mark(ascii_lower_seq("BracketLeft"@)) == 24981734,
        mark(ascii_lower_seq("BracketRight"@)) == 27078888,
        mark(ascii_lower_seq("Comma"@)) == 12089069,
        mark(ascii_lower_seq("Digit0"@)) == 13382644,
        mark(ascii_lower_seq("Digit1"@)) == 13399028,
        mark(ascii_lower_seq("Digit2"@)) == 13415412,
        mark(ascii_lower_seq("Digit3"@)) == 13431796,
        mark(ascii_lower_seq("Digit4"@)) == 13448180,
        mark(ascii_lower_seq("Digit5"@)) == 13464564,
        mark(ascii_lower_seq("Digit6"@)) == 13480948,
        mark(ascii_lower_seq("Digit7"@)) == 13497332,
        mark(ascii_lower_seq("Digit8"@)) == 13513716,
        mark(ascii_lower_seq("Digit9"@)) == 13530100,
        mark(ascii_lower_seq("Equal"@)) == 12270305,
        mark(ascii_lower_seq("IntlBackslash"@)) == 28981875,
        mark(ascii_lower_seq("IntlRo"@)) == 14416498,
        mark(ascii_lower_seq("IntlYen"@)) == 16497253,
        mark(ascii_lower_seq("KeyA"@)) == 9993465,
        mark(ascii_lower_seq("KeyB"@)) == 10009849,
        mark(ascii_lower_seq("KeyC"@)) == 10026233,
        mark(ascii_lower_seq("KeyD"@)) == 10042617,
        mark(ascii_lower_seq("KeyE"@)) == 10059001,
        mark(ascii_lower_seq("KeyF"@)) == 10075385,
        mark(ascii_lower_seq("KeyG"@)) == 10091769,
        mark(ascii_lower_seq("KeyH"@)) == 10108153,
        mark(ascii_lower_seq("KeyI"@)) == 10124537,
        mark(ascii_lower_seq("KeyJ"@)) == 10140921,
        mark(ascii_lower_seq("KeyK"@)) == 10157305,
        mark(ascii_lower_seq("KeyL"@)) == 10173689,
        mark(ascii_lower_seq("KeyM"@)) == 10190073,
        mark(ascii_lower_seq("KeyN"@)) == 10206457,
        mark(ascii_lower_seq("KeyO"@)) == 10222841,
        mark(ascii_lower_seq("KeyP"@)) == 10239225,
        mark(ascii_lower_seq("KeyQ"@)) == 10255609,
        mark(ascii_lower_seq("KeyR"@)) == 10271993,
        mark(ascii_lower_seq("KeyS"@)) == 10288377,
        mark(ascii_lower_seq("KeyT"@)) == 10304761,
        mark(ascii_lower_seq("KeyU"@)) == 10321145,
        mark(ascii_lower_seq("KeyV"@)) == 10337529,
        mark(ascii_lower_seq("KeyW"@)) == 10353913,
        mark(ascii_lower_seq("KeyX"@)) == 10370297,
        mark(ascii_lower_seq("KeyY"@)) == 10386681,
        mark(ascii_lower_seq("KeyZ"@)) == 10403065,
        mark(ascii_lower_seq("Minus"@)) == 12384117,
        mark(ascii_lower_seq("Period"@)) == 14236015,
        mark(ascii_lower_seq("Quote"@)) == 12154868,
        mark(ascii_lower_seq("Semicolon"@)) == 20690671,
        mark(ascii_lower_seq("Slash"@)) == 12202227,
{
    reveal(mark);
    reveal_strlit("Backquote");
    reveal_strlit("Backslash");
    reveal_strlit("BracketLeft");
    reveal_strlit("BracketRight");
    reveal_strlit("Comma");
    reveal_strlit("Digit0");
    reveal_strlit("Digit1");
    reveal_strlit("Digit2");
    reveal_strlit("Digit3");
    reveal_strlit("Digit4");
    reveal_strlit("Digit5");
    reveal_strlit("Digit6");
    reveal_strlit("Digit7");
    reveal_strlit("Digit8");
    reveal_strlit("Digit9");
    reveal_strlit("Equal");
    reveal_strlit("IntlBackslash");
    reveal_strlit("IntlRo");
    reveal_strlit("IntlYen");
    reveal_strlit("KeyA");
    reveal_strlit("KeyB");
    reveal_strlit("KeyC");
    reveal_strlit("KeyD");
    reveal_strlit("KeyE");
    reveal_strlit("KeyF");
    reveal_strlit("KeyG");
    reveal_strlit("KeyH");
    reveal_strlit("KeyI");
    reveal_strlit("KeyJ");
    reveal_strlit("KeyK");
    reveal_strlit("KeyL");
    reveal_strlit("KeyM");
    reveal_strlit("KeyN");
    reveal_strlit("KeyO");
    reveal_strlit("KeyP");
    reveal_strlit("KeyQ");
    reveal_strlit("KeyR");
    reveal_strlit("KeyS");
    reveal_strlit("KeyT");
    reveal_strlit("KeyU");
    reveal_strlit("KeyV");
    reveal_strlit("KeyW");
    reveal_strlit("KeyX");
    reveal_strlit("KeyY");
    reveal_strlit("KeyZ");
    reveal_strlit("Minus");
    reveal_strlit("Period");
    reveal_strlit("Quote");
    reveal_strlit("Semicolon");
    reveal_strlit("Slash");
}

proof fn lemma_marks_1()
    ensures
        mark(ascii_lower_seq("AltLeft"@)) == 16595558,
        mark(ascii_lower_seq("AltRight"@)) == 18692712,
        mark(ascii_lower_seq("Backspace"@)) == 20541923,
        mark(ascii_lower_seq("CapsLock"@)) == 18544739,
        mark(ascii_lower_seq("ContextMenu"@)) == 24999790,
        mark(ascii_lower_seq("ControlLeft"@)) == 24983398,
        mark(ascii_lower_seq("ControlRight"@)) == 27080552,
        mark(ascii_lower_seq("Enter"@)) == 12368485,
        mark(ascii_lower_seq("SuperLeft"@)) == 20789350,
        mark(ascii_lower_seq("SuperRight"@)) == 22886504,
        mark(ascii_lower_seq("ShiftLeft"@)) == 20788454,
        mark(ascii_lower_seq("ShiftRight"@)) == 22885608,
        mark(ascii_lower_seq("Space"@)) == 12153059,
        mark(ascii_lower_seq("Tab"@)) == 7909729,
        mark(ascii_lower_seq("Convert"@)) == 16594802,
        mark(ascii_lower_seq("KanaMode"@)) == 18446180,
        mark(ascii_lower_seq("Lang1"@)) == 11302759,
        mark(ascii_lower_seq("Lang2"@)) == 11319143,
        mark(ascii_lower_seq("Lang3"@)) == 11335527,
        mark(ascii_lower_seq("Lang4"@)) == 11351911,
        mark(ascii_lower_seq("Lang5"@)) == 11368295,
        mark(ascii_lower_seq("NonConvert"@)) == 22886258,
        mark(ascii_lower_seq("Delete"@)) == 14251636,
        mark(ascii_lower_seq("End"@)) == 7942766,
        mark(ascii_lower_seq("Help"@)) == 10237548,
        mark(ascii_lower_seq("Home"@)) == 10057453,
        mark(ascii_lower_seq("Insert"@)) == 14498290,
        mark(ascii_lower_seq("PageDown"@)) == 18592759,
        mark(ascii_lower_seq("PageUp"@)) == 14431221,
        mark(ascii_lower_seq("ArrowDown"@)) == 20691319,
        mark(ascii_lower_seq("ArrowLeft"@)) == 20789606,
        mark(ascii_lower_seq("ArrowRight"@)) == 22886760,
        mark(ascii_lower_seq("ArrowUp"@)) == 16529781,
        mark(ascii_lower_seq("NumLock"@)) == 16447203,
        mark(ascii_lower_seq("Numpad0"@)) == 15480548,
        mark(ascii_lower_seq("Numpad1"@)) == 15496932,
        mark(ascii_lower_seq("Numpad2"@)) == 15513316,
        mark(ascii_lower_seq("Numpad3"@)) == 15529700,
        mark(ascii_lower_seq("Numpad4"@)) == 15546084,
        mark(ascii_lower_seq("Numpad5"@)) == 15562468,
        mark(ascii_lower_seq("Numpad6"@)) == 15578852,
        mark(ascii_lower_seq("Numpad7"@)) == 15595236,
        mark(ascii_lower_seq("Numpad8"@)) == 15611620,
        mark(ascii_lower_seq("Numpad9"@)) == 15628004,
        mark(ascii_lower_seq("NumpadAdd"@)) == 20526820,
        mark(ascii_lower_seq("NumpadBackspace"@)) == 33126115,
        mark(ascii_lower_seq("NumpadClear"@)) == 24950497,
        mark(ascii_lower_seq("NumpadClearEntry"@)) == 35550962,
        mark(ascii_lower_seq("NumpadComma"@)) == 24671981,
        mark(ascii_lower_seq("NumpadDecimal"@)) == 29046497,
{
    reveal(mark);
    reveal_strlit("AltLeft");
    reveal_strlit("AltRight");
    reveal_strlit("Backspace");
    reveal_strlit("CapsLock");
    reveal_strlit("ContextMenu");
    reveal_strlit("ControlLeft");
    reveal_strlit("ControlRight");
    reveal_strlit("Enter");
    reveal_strlit("SuperLeft");
    reveal_strlit("SuperRight");
    reveal_strlit("ShiftLeft");
    reveal_strlit("ShiftRight");
    reveal_strlit("Space");
    reveal_strlit("Tab");
    reveal_strlit("Convert");
    reveal_strlit("KanaMode");
    reveal_strlit("Lang1");
    reveal_strlit("Lang2");
    reveal_strlit("Lang3");
    reveal_strlit("Lang4");
    reveal_strlit("Lang5");
    reveal_strlit("NonConvert");
    reveal_strlit("Delete");
    reveal_strlit("End");
    reveal_strlit("Help");
    reveal_strlit("Home");
    reveal_strlit("Insert");
    reveal_strlit("PageDown");
    reveal_strlit("PageUp");
    reveal_strlit("ArrowDown");
    reveal_strlit("ArrowLeft");
    reveal_strlit("ArrowRight");
    reveal_strlit("ArrowUp");
    reveal_strlit("NumLock");
    reveal_strlit("Numpad0");
    reveal_strlit("Numpad1");
    reveal_strlit("Numpad2");
    reveal_strlit("Numpad3");
    reveal_strlit("Numpad4");
    reveal_strlit("Numpad5");
    reveal_strlit("Numpad6");
    reveal_strlit("Numpad7");
    reveal_strlit("Numpad8");
    reveal_strlit("Numpad9");
    reveal_strlit("NumpadAdd");
    reveal_strlit("NumpadBackspace");
    reveal_strlit("NumpadClear");
    reveal_strlit("NumpadClearEntry");
    reveal_strlit("NumpadComma");
    reveal_strlit("NumpadDecimal");
}

proof fn lemma_marks_2()
    ensures
        mark(ascii_lower_seq("NumpadDivide"@)) == 26834660,
        mark(ascii_lower_seq("NumpadEnter"@)) == 24950501,
        mark(ascii_lower_seq("NumpadEqual"@)) == 24852193,
        mark(ascii_lower_seq("NumpadHash"@)) == 22689523,
        mark(ascii_lower_seq("NumpadMemoryAdd"@)) == 33109732,
        mark(ascii_lower_seq("NumpadMemoryClear"@)) == 37533409,
        mark(ascii_lower_seq("NumpadMemoryRecall"@)) == 39532268,
        mark(ascii_lower_seq("NumpadMemoryStore"@)) == 37320434,
        mark(ascii_lower_seq("NumpadMemorySubtract"@)) == 43857635,
        mark(ascii_lower_seq("NumpadMultiply"@)) == 31356652,
        mark(ascii_lower_seq("NumpadParenLeft"@)) == 33371878,
        mark(ascii_lower_seq("NumpadParenRight"@)) == 35469032,
        mark(ascii_lower_seq("NumpadStar"@)) == 22853345,
        mark(ascii_lower_seq("NumpadSubtract"@)) == 31274723,
        mark(ascii_lower_seq("Escape"@)) == 14250480,
        mark(ascii_lower_seq("Fn"@)) == 5996646,
        mark(ascii_lower_seq("FnLock"@)) == 14349923,
        mark(ascii_lower_seq("PrintScreen"@)) == 24884453,
        mark(ascii_lower_seq("ScrollLock"@)) == 22739299,
        mark(ascii_lower_seq("Pause"@)) == 12155635,
        mark(ascii_lower_seq("BrowserBack"@)) == 24836067,
        mark(ascii_lower_seq("BrowserFavorites"@)) == 35452901,
        mark(ascii_lower_seq("BrowserForward"@)) == 31012850,
        mark(ascii_lower_seq("BrowserHome"@)) == 24737773,
        mark(ascii_lower_seq("BrowserRefresh"@)) == 31078387,
        mark(ascii_lower_seq("BrowserSearch"@)) == 28981219,
        mark(ascii_lower_seq("BrowserStop"@)) == 24917999,
        mark(ascii_lower_seq("Eject"@)) == 12399331,
        mark(ascii_lower_seq("LaunchApp1"@)) == 21789424,
        mark(ascii_lower_seq("LaunchApp2"@)) == 21805808,
        mark(ascii_lower_seq("LaunchMail"@)) == 22756073,
        mark(ascii_lower_seq("MediaPlayPause"@)) == 31027827,
        mark(ascii_lower_seq("MediaSelect"@)) == 24982115,
        mark(ascii_lower_seq("MediaStop"@)) == 20722287,
        mark(ascii_lower_seq("MediaTrackNext"@)) == 31273592,
        mark(ascii_lower_seq("MediaTrackPrevious"@)) == 39645813,
        mark(ascii_lower_seq("Power"@)) == 12368869,
        mark(ascii_lower_seq("Sleep"@)) == 12333797,
        mark(ascii_lower_seq("AudioVolumeDown"@)) == 33272439,
        mark(ascii_lower_seq("AudioVolumeMute"@)) == 33124980,
        mark(ascii_lower_seq("AudioVolumeUp"@)) == 29110901,
        mark(ascii_lower_seq("WakeUp"@)) == 14431733,
        mark(ascii_lower_seq("Meta"@)) == 9992820,
        mark(ascii_lower_seq("Hyper"@)) == 12367973,
        mark(ascii_lower_seq("Turbo"@)) == 12319074,
        mark(ascii_lower_seq("Abort"@)) == 12400626,
        mark(ascii_lower_seq("Resume"@)) == 14252525,
        mark(ascii_lower_seq("Suspend"@)) == 16333294,
        mark(ascii_lower_seq("Again"@)) == 12300521,
        mark(ascii_lower_seq("Copy"@)) == 10385520,
{
    reveal(mark);
    reveal_strlit("NumpadDivide");
    reveal_strlit("NumpadEnter");
    reveal_strlit("NumpadEqual");
    reveal_strlit("NumpadHash");
    reveal_strlit("NumpadMemoryAdd");
    reveal_strlit("NumpadMemoryClear");
    reveal_strlit("NumpadMemoryRecall");
    reveal_strlit("NumpadMemoryStore");
    reveal_strlit("NumpadMemorySubtract");
    reveal_strlit("NumpadMultiply");
    reveal_strlit("NumpadParenLeft");
    reveal_strlit("NumpadParenRight");
    reveal_strlit("NumpadStar");
    reveal_strlit("NumpadSubtract");
    reveal_strlit("Escape");
    reveal_strlit("Fn");
    reveal_strlit("FnLock");
    reveal_strlit("PrintScreen");
    reveal_strlit("ScrollLock");
    reveal_strlit("Pause");
    reveal_strlit("BrowserBack");
    reveal_strlit("BrowserFavorites");
    reveal_strlit("BrowserForward");
    reveal_strlit("BrowserHome");
    reveal_strlit("BrowserRefresh");
    reveal_strlit("BrowserSearch");
    reveal_strlit("BrowserStop");
    reveal_strlit("Eject");
    reveal_strlit("LaunchApp1");
    reveal_strlit("LaunchApp2");
    reveal_strlit("LaunchMail");
    reveal_strlit("MediaPlayPause");
    reveal_strlit("MediaSelect");
    reveal_strlit("MediaStop");
    reveal_strlit("MediaTrackNext");
    reveal_strlit("MediaTrackPrevious");
    reveal_strlit("Power");
    reveal_strlit("Sleep");
    reveal_strlit("AudioVolumeDown");
    reveal_strlit("AudioVolumeMute");
    reveal_strlit("AudioVolumeUp");
    reveal_strlit("WakeUp");
    reveal_strlit("Meta");
    reveal_strlit("Hyper");
    reveal_strlit("Turbo");
    reveal_strlit("Abort");
    reveal_strlit("Resume");
    reveal_strlit("Suspend");
    reveal_strlit("Again");
    reveal_strlit("Copy");
}

proof fn lemma_marks_3()
    ensures
        mark(ascii_lower_seq("Cut"@)) == 8206965,
        mark(ascii_lower_seq("Find"@)) == 10041198,
        mark(ascii_lower_seq("Open"@)) == 10203877,
        mark(ascii_lower_seq("Paste"@)) == 12155380,
        mark(ascii_lower_seq("Props"@)) == 12384240,
        mark(ascii_lower_seq("Select"@)) == 14497379,
        mark(ascii_lower_seq("Undo"@)) == 10220132,
        mark(ascii_lower_seq("Hiragana"@)) == 18381166,
        mark(ascii_lower_seq("Katakana"@)) == 18381422,
        mark(ascii_lower_seq("F1"@)) == 4997222,
        mark(ascii_lower_seq("F2"@)) == 5013606,
        mark(ascii_lower_seq("F3"@)) == 5029990,
        mark(ascii_lower_seq("F4"@)) == 5046374,
        mark(ascii_lower_seq("F5"@)) == 5062758,
        mark(ascii_lower_seq("F6"@)) == 5079142,
        mark(ascii_lower_seq("F7"@)) == 5095526,
        mark(ascii_lower_seq("F8"@)) == 5111910,
        mark(ascii_lower_seq("F9"@)) == 5128294,
        mark(ascii_lower_seq("F10"@)) == 7084081,
        mark(ascii_lower_seq("F11"@)) == 7100593,
        mark(ascii_lower_seq("F12"@)) == 7117105,
        mark(ascii_lower_seq("F13"@)) == 7133617,
        mark(ascii_lower_seq("F14"@)) == 7150129,
        mark(ascii_lower_seq("F15"@)) == 7166641,
        mark(ascii_lower_seq("F16"@)) == 7183153,
        mark(ascii_lower_seq("F17"@)) == 7199665,
        mark(ascii_lower_seq("F18"@)) == 7216177,
        mark(ascii_lower_seq("F19"@)) == 7232689,
        mark(ascii_lower_seq("F20"@)) == 7084082,
        mark(ascii_lower_seq("F21"@)) == 7100594,
        mark(ascii_lower_seq("F22"@)) == 7117106,
        mark(ascii_lower_seq("F23"@)) == 7133618,
        mark(ascii_lower_seq("F24"@)) == 7150130,
        mark(ascii_lower_seq("F25"@)) == 7166642,
        mark(ascii_lower_seq("F26"@)) == 7183154,
        mark(ascii_lower_seq("F27"@)) == 7199666,
        mark(ascii_lower_seq("F28"@)) == 7216178,
        mark(ascii_lower_seq("F29"@)) == 7232690,
        mark(ascii_lower_seq("F30"@)) == 7084083,
        mark(ascii_lower_seq("F31"@)) == 7100595,
        mark(ascii_lower_seq("F32"@)) == 7117107,
        mark(ascii_lower_seq("F33"@)) == 7133619,
        mark(ascii_lower_seq("F34"@)) == 7150131,
        mark(ascii_lower_seq("F35"@)) == 7166643,
{
    reveal(mark);
    reveal_strlit("Cut");
    reveal_strlit("Find");
    reveal_strlit("Open");
    reveal_strlit("Paste");
    reveal_strlit("Props");
    reveal_strlit("Select");
    reveal_strlit("Undo");
    reveal_strlit("Hiragana");
    reveal_strlit("Katakana");
    reveal_strlit("F1");
    reveal_strlit("F2");
    reveal_strlit("F3");
    reveal_strlit("F4");
    reveal_strlit("F5");
    reveal_strlit("F6");
    reveal_strlit("F7");
    reveal_strlit("F8");
    reveal_strlit("F9");
    reveal_strlit("F10");
    reveal_strlit("F11");
    reveal_strlit("F12");
    reveal_strlit("F13");
    reveal_strlit("F14");
    reveal_strlit("F15");
    reveal_strlit("F16");
    reveal_strlit("F17");
    reveal_strlit("F18");
    reveal_strlit("F19");
    reveal_strlit("F20");
    reveal_strlit("F21");
    reveal_strlit("F22");
    reveal_strlit("F23");
    reveal_strlit("F24");
    reveal_strlit("F25");
    reveal_strlit("F26");
    reveal_strlit("F27");
    reveal_strlit("F28");
    reveal_strlit("F29");
    reveal_strlit("F30");
    reveal_strlit("F31");
    reveal_strlit("F32");
    reveal_strlit("F33");
    reveal_strlit("F34");
    reveal_strlit("F35");
}

/// The mark of a key's identifier is the key's.
proof fn lemma_identifier_mark(key: KeyCode)
    ensures
        mark(ascii_lower_seq(key_identifier(key))) == key_mark(key),
        key_mark(key) > 0,
{
    reveal(key_identifier);
    lemma_marks_0();
    lemma_marks_1();
    lemma_marks_2();
    lemma_marks_3();
    lemma_marks_tell_apart(key);
}

/// No two keys share an identifier, whatever its case.
pub proof fn law_identifiers_are_distinct(a: KeyCode, b: KeyCode)
    requires
        ascii_lower_seq(key_identifier(a)) == ascii_lower_seq(key_identifier(b)),
    ensures
        a == b,
{
    lemma_identifier_mark(a);
    lemma_identifier_mark(b);
    lemma_marks_tell_apart(a);
    lemma_marks_tell_apart(b);
}

/// The key that a folded text identifies is the one key with that identifier.
pub(crate) proof fn lemma_one_identified(folded: Seq<char>)
    ensures
        forall|k: KeyCode|
            ascii_lower_seq(#[trigger] key_identifier(k)) == folded ==> identified_key(folded)
                == Some(k),
{
    assert forall|k: KeyCode| ascii_lower_seq(#[trigger] key_identifier(k)) == folded implies
        identified_key(folded) == Some(k) by {
        law_identifiers_are_distinct(k, identified_key(folded)->0);
    }
}

/// The marks of the fixed names.
proof fn lemma_fixed_marks()
    ensures
        mark(ascii_lower_seq("Backspace"@)) == 20541923,
        mark(ascii_lower_seq("Tab"@)) == 7909729,
        mark(ascii_lower_seq("Enter"@)) == 12368485,
        mark(ascii_lower_seq("Esc"@)) == 7926259,
        mark(ascii_lower_seq("Space"@)) == 12153059,
        mark(ascii_lower_seq("PageUp"@)) == 14431221,
        mark(ascii_lower_seq("PageDown"@)) == 18592759,
        mark(ascii_lower_seq("End"@)) == 7942766,
        mark(ascii_lower_seq("Home"@)) == 10057453,
        mark(ascii_lower_seq("Left"@)) == 10302310,
        mark(ascii_lower_seq("Up"@)) == 6029429,
        mark(ascii_lower_seq("Right"@)) == 12399592,
        mark(ascii_lower_seq("Down"@)) == 10206199,
        mark(ascii_lower_seq("Insert"@)) == 14498290,
        mark(ascii_lower_seq("Delete"@)) == 14251636,
        mark(ascii_lower_seq("Num*"@)) == 9090797,
        mark(ascii_lower_seq("Num+"@)) == 9107181,
        mark(ascii_lower_seq("NumEnter"@)) == 18659045,
        mark(ascii_lower_seq("Num-"@)) == 9139949,
        mark(ascii_lower_seq("Num."@)) == 9156333,
        mark(ascii_lower_seq("Num/"@)) == 9172717,
        mark(ascii_lower_seq(";"@)) == 3063808,
        mark(ascii_lower_seq("="@)) == 3096576,
        mark(ascii_lower_seq(","@)) == 2818048,
        mark(ascii_lower_seq("-"@)) == 2834432,
        mark(ascii_lower_seq("."@)) == 2850816,
        mark(ascii_lower_seq("/"@)) == 2867200,
        mark(ascii_lower_seq("`"@)) == 3670016,
        mark(ascii_lower_seq("["@)) == 3588096,
        mark(ascii_lower_seq("\\"@)) == 3604480,
        mark(ascii_lower_seq("]"@)) == 3620864,
        mark(ascii_lower_seq("'"@)) == 2736128,
{
    reveal(mark);
    reveal_strlit("Backspace");
    reveal_strlit("Tab");
    reveal_strlit("Enter");
    reveal_strlit("Esc");
    reveal_strlit("Space");
    reveal_strlit("PageUp");
    reveal_strlit("PageDown");
    reveal_strlit("End");
    reveal_strlit("Home");
    reveal_strlit("Left");
    reveal_strlit("Up");
    reveal_strlit("Right");
    reveal_strlit("Down");
    reveal_strlit("Insert");
    reveal_strlit("Delete");
    reveal_strlit("Num*");
    reveal_strlit("Num+");
    reveal_strlit("NumEnter");
    reveal_strlit("Num-");
    reveal_strlit("Num.");
    reveal_strlit("Num/");
    reveal_strlit(";");
    reveal_strlit("=");
    reveal_strlit(",");
    reveal_strlit("-");
    reveal_strlit(".");
    reveal_strlit("/");
    reveal_strlit("`");
    reveal_strlit("[");
    reveal_strlit("\\");
    reveal_strlit("]");
    reveal_strlit("'");
}

/// An identifier that is also a fixed name is that of the same key.
pub(crate) proof fn lemma_identifier_among_fixed_names(key: KeyCode)
    ensures
        named_key(ascii_lower_seq(key_identifier(key))) matches Some(k) ==> k == key,
{
    let f = ascii_lower_seq(key_identifier(key));
    lemma_identifier_mark(key);
    lemma_marks_tell_apart(key);
    lemma_fixed_marks();
}

/// Nothing has an empty identifier.
pub(crate) proof fn lemma_no_empty_identifier()
    ensures
        identified_key(Seq::<char>::empty()) is None,
{
    let e = Seq::<char>::empty();
    assert(mark(e) == 0) by {
        reveal(mark);
    }
    assert forall|k: KeyCode| ascii_lower_seq(#[trigger] key_identifier(k)) != e by {
        lemma_identifier_mark(k);
    }
}

} // verus!
