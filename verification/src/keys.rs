//! Physical keys and chords: their names, and how both are written and read.
use crate::identifiers::{identified_key, identified_key_of, identifier, key_identifier};
use crate::natural::{digit_value, lemma_number_take, number};
use crate::text::{ascii_lower, ascii_lower_seq, chars_of, fold_ascii, is_digit, same_folded};
use vstd::prelude::*;
use winit::keyboard::KeyCode;

verus! {

/// winit's physical key code: an enum without fields, so its variants are all there is to it.
#[verifier::external_type_specification]
pub struct ExKeyCode(winit::keyboard::KeyCode);

/// winit derives equality of key codes: two are equal where they are the same variant.
pub assume_specification[ <KeyCode as PartialEq>::eq ](a: &KeyCode, b: &KeyCode) -> (r: bool)
    ensures
        r == (*a == *b),
;

/// The name of a key that has one of its own: `"F"`, `"F11"`, `"Num+"`, `"["`.
pub open spec fn canonical_name(key: KeyCode) -> Option<Seq<char>> {
    match key {
        KeyCode::Backspace => Some("Backspace"@),
        KeyCode::Tab => Some("Tab"@),
        KeyCode::Enter => Some("Enter"@),
        KeyCode::Escape => Some("Esc"@),
        KeyCode::Space => Some("Space"@),
        KeyCode::PageUp => Some("PageUp"@),
        KeyCode::PageDown => Some("PageDown"@),
        KeyCode::End => Some("End"@),
        KeyCode::Home => Some("Home"@),
        KeyCode::ArrowLeft => Some("Left"@),
        KeyCode::ArrowUp => Some("Up"@),
        KeyCode::ArrowRight => Some("Right"@),
        KeyCode::ArrowDown => Some("Down"@),
        KeyCode::Insert => Some("Insert"@),
        KeyCode::Delete => Some("Delete"@),
        KeyCode::NumpadMultiply => Some("Num*"@),
        KeyCode::NumpadAdd => Some("Num+"@),
        KeyCode::NumpadEnter => Some("NumEnter"@),
        KeyCode::NumpadSubtract => Some("Num-"@),
        KeyCode::NumpadDecimal => Some("Num."@),
        KeyCode::NumpadDivide => Some("Num/"@),
        KeyCode::Semicolon => Some(";"@),
        KeyCode::Equal => Some("="@),
        KeyCode::Comma => Some(","@),
        KeyCode::Minus => Some("-"@),
        KeyCode::Period => Some("."@),
        KeyCode::Slash => Some("/"@),
        KeyCode::Backquote => Some("`"@),
        KeyCode::BracketLeft => Some("["@),
        KeyCode::Backslash => Some("\\"@),
        KeyCode::BracketRight => Some("]"@),
        KeyCode::Quote => Some("'"@),
        KeyCode::KeyA => Some("A"@),
        KeyCode::KeyB => Some("B"@),
        KeyCode::KeyC => Some("C"@),
        KeyCode::KeyD => Some("D"@),
        KeyCode::KeyE => Some("E"@),
        KeyCode::KeyF => Some("F"@),
        KeyCode::KeyG => Some("G"@),
        KeyCode::KeyH => Some("H"@),
        KeyCode::KeyI => Some("I"@),
        KeyCode::KeyJ => Some("J"@),
        KeyCode::KeyK => Some("K"@),
        KeyCode::KeyL => Some("L"@),
        KeyCode::KeyM => Some("M"@),
        KeyCode::KeyN => Some("N"@),
        KeyCode::KeyO => Some("O"@),
        KeyCode::KeyP => Some("P"@),
        KeyCode::KeyQ => Some("Q"@),
        KeyCode::KeyR => Some("R"@),
        KeyCode::KeyS => Some("S"@),
        KeyCode::KeyT => Some("T"@),
        KeyCode::KeyU => Some("U"@),
        KeyCode::KeyV => Some("V"@),
        KeyCode::KeyW => Some("W"@),
        KeyCode::KeyX => Some("X"@),
        KeyCode::KeyY => Some("Y"@),
        KeyCode::KeyZ => Some("Z"@),
        KeyCode::Digit0 => Some("0"@),
        KeyCode::Digit1 => Some("1"@),
        KeyCode::Digit2 => Some("2"@),
        KeyCode::Digit3 => Some("3"@),
        KeyCode::Digit4 => Some("4"@),
        KeyCode::Digit5 => Some("5"@),
        KeyCode::Digit6 => Some("6"@),
        KeyCode::Digit7 => Some("7"@),
        KeyCode::Digit8 => Some("8"@),
        KeyCode::Digit9 => Some("9"@),
        KeyCode::Numpad0 => Some("Num0"@),
        KeyCode::Numpad1 => Some("Num1"@),
        KeyCode::Numpad2 => Some("Num2"@),
        KeyCode::Numpad3 => Some("Num3"@),
        KeyCode::Numpad4 => Some("Num4"@),
        KeyCode::Numpad5 => Some("Num5"@),
        KeyCode::Numpad6 => Some("Num6"@),
        KeyCode::Numpad7 => Some("Num7"@),
        KeyCode::Numpad8 => Some("Num8"@),
        KeyCode::Numpad9 => Some("Num9"@),
        KeyCode::F1 => Some("F1"@),
        KeyCode::F2 => Some("F2"@),
        KeyCode::F3 => Some("F3"@),
        KeyCode::F4 => Some("F4"@),
        KeyCode::F5 => Some("F5"@),
        KeyCode::F6 => Some("F6"@),
        KeyCode::F7 => Some("F7"@),
        KeyCode::F8 => Some("F8"@),
        KeyCode::F9 => Some("F9"@),
        KeyCode::F10 => Some("F10"@),
        KeyCode::F11 => Some("F11"@),
        KeyCode::F12 => Some("F12"@),
        KeyCode::F13 => Some("F13"@),
        KeyCode::F14 => Some("F14"@),
        KeyCode::F15 => Some("F15"@),
        KeyCode::F16 => Some("F16"@),
        KeyCode::F17 => Some("F17"@),
        KeyCode::F18 => Some("F18"@),
        KeyCode::F19 => Some("F19"@),
        KeyCode::F20 => Some("F20"@),
        KeyCode::F21 => Some("F21"@),
        KeyCode::F22 => Some("F22"@),
        KeyCode::F23 => Some("F23"@),
        KeyCode::F24 => Some("F24"@),
        KeyCode::F25 => Some("F25"@),
        KeyCode::F26 => Some("F26"@),
        KeyCode::F27 => Some("F27"@),
        KeyCode::F28 => Some("F28"@),
        KeyCode::F29 => Some("F29"@),
        KeyCode::F30 => Some("F30"@),
        KeyCode::F31 => Some("F31"@),
        KeyCode::F32 => Some("F32"@),
        KeyCode::F33 => Some("F33"@),
        KeyCode::F34 => Some("F34"@),
        KeyCode::F35 => Some("F35"@),
        _ => None,
    }
}

/// The name that a key is written with: its own, or its identifier for one that has none.
pub open spec fn key_name(key: KeyCode) -> Seq<char> {
    match canonical_name(key) {
        Some(name) => name,
        None => key_identifier(key),
    }
}

fn canonical_name_of(key: KeyCode) -> (r: Option<&'static str>)
    ensures
        r is Some <==> canonical_name(key) is Some,
        r matches Some(name) ==> Some(name@) == canonical_name(key),
{
    match key {
        KeyCode::Backspace => Some("Backspace"),
        KeyCode::Tab => Some("Tab"),
        KeyCode::Enter => Some("Enter"),
        KeyCode::Escape => Some("Esc"),
        KeyCode::Space => Some("Space"),
        KeyCode::PageUp => Some("PageUp"),
        KeyCode::PageDown => Some("PageDown"),
        KeyCode::End => Some("End"),
        KeyCode::Home => Some("Home"),
        KeyCode::ArrowLeft => Some("Left"),
        KeyCode::ArrowUp => Some("Up"),
        KeyCode::ArrowRight => Some("Right"),
        KeyCode::ArrowDown => Some("Down"),
        KeyCode::Insert => Some("Insert"),
        KeyCode::Delete => Some("Delete"),
        KeyCode::NumpadMultiply => Some("Num*"),
        KeyCode::NumpadAdd => Some("Num+"),
        KeyCode::NumpadEnter => Some("NumEnter"),
        KeyCode::NumpadSubtract => Some("Num-"),
        KeyCode::NumpadDecimal => Some("Num."),
        KeyCode::NumpadDivide => Some("Num/"),
        KeyCode::Semicolon => Some(";"),
        KeyCode::Equal => Some("="),
        KeyCode::Comma => Some(","),
        KeyCode::Minus => Some("-"),
        KeyCode::Period => Some("."),
        KeyCode::Slash => Some("/"),
        KeyCode::Backquote => Some("`"),
        KeyCode::BracketLeft => Some("["),
        KeyCode::Backslash => Some("\\"),
        KeyCode::BracketRight => Some("]"),
        KeyCode::Quote => Some("'"),
        KeyCode::KeyA => Some("A"),
        KeyCode::KeyB => Some("B"),
        KeyCode::KeyC => Some("C"),
        KeyCode::KeyD => Some("D"),
        KeyCode::KeyE => Some("E"),
        KeyCode::KeyF => Some("F"),
        KeyCode::KeyG => Some("G"),
        KeyCode::KeyH => Some("H"),
        KeyCode::KeyI => Some("I"),
        KeyCode::KeyJ => Some("J"),
        KeyCode::KeyK => Some("K"),
        KeyCode::KeyL => Some("L"),
        KeyCode::KeyM => Some("M"),
        KeyCode::KeyN => Some("N"),
        KeyCode::KeyO => Some("O"),
        KeyCode::KeyP => Some("P"),
        KeyCode::KeyQ => Some("Q"),
        KeyCode::KeyR => Some("R"),
        KeyCode::KeyS => Some("S"),
        KeyCode::KeyT => Some("T"),
        KeyCode::KeyU => Some("U"),
        KeyCode::KeyV => Some("V"),
        KeyCode::KeyW => Some("W"),
        KeyCode::KeyX => Some("X"),
        KeyCode::KeyY => Some("Y"),
        KeyCode::KeyZ => Some("Z"),
        KeyCode::Digit0 => Some("0"),
        KeyCode::Digit1 => Some("1"),
        KeyCode::Digit2 => Some("2"),
        KeyCode::Digit3 => Some("3"),
        KeyCode::Digit4 => Some("4"),
        KeyCode::Digit5 => Some("5"),
        KeyCode::Digit6 => Some("6"),
        KeyCode::Digit7 => Some("7"),
        KeyCode::Digit8 => Some("8"),
        KeyCode::Digit9 => Some("9"),
        KeyCode::Numpad0 => Some("Num0"),
        KeyCode::Numpad1 => Some("Num1"),
        KeyCode::Numpad2 => Some("Num2"),
        KeyCode::Numpad3 => Some("Num3"),
        KeyCode::Numpad4 => Some("Num4"),
        KeyCode::Numpad5 => Some("Num5"),
        KeyCode::Numpad6 => Some("Num6"),
        KeyCode::Numpad7 => Some("Num7"),
        KeyCode::Numpad8 => Some("Num8"),
        KeyCode::Numpad9 => Some("Num9"),
        KeyCode::F1 => Some("F1"),
        KeyCode::F2 => Some("F2"),
        KeyCode::F3 => Some("F3"),
        KeyCode::F4 => Some("F4"),
        KeyCode::F5 => Some("F5"),
        KeyCode::F6 => Some("F6"),
        KeyCode::F7 => Some("F7"),
        KeyCode::F8 => Some("F8"),
        KeyCode::F9 => Some("F9"),
        KeyCode::F10 => Some("F10"),
        KeyCode::F11 => Some("F11"),
        KeyCode::F12 => Some("F12"),
        KeyCode::F13 => Some("F13"),
        KeyCode::F14 => Some("F14"),
        KeyCode::F15 => Some("F15"),
        KeyCode::F16 => Some("F16"),
        KeyCode::F17 => Some("F17"),
        KeyCode::F18 => Some("F18"),
        KeyCode::F19 => Some("F19"),
        KeyCode::F20 => Some("F20"),
        KeyCode::F21 => Some("F21"),
        KeyCode::F22 => Some("F22"),
        KeyCode::F23 => Some("F23"),
        KeyCode::F24 => Some("F24"),
        KeyCode::F25 => Some("F25"),
        KeyCode::F26 => Some("F26"),
        KeyCode::F27 => Some("F27"),
        KeyCode::F28 => Some("F28"),
        KeyCode::F29 => Some("F29"),
        KeyCode::F30 => Some("F30"),
        KeyCode::F31 => Some("F31"),
        KeyCode::F32 => Some("F32"),
        KeyCode::F33 => Some("F33"),
        KeyCode::F34 => Some("F34"),
        KeyCode::F35 => Some("F35"),
        _ => None,
    }
}

/// A key's canonical name, or its identifier for one without a name.
pub fn key_name_of(key: KeyCode) -> (r: String)
    ensures
        r@ == key_name(key),
{
    match canonical_name_of(key) {
        Some(name) => name.to_owned(),
        None => identifier(key),
    }
}

/// The key with a fixed printable name, found by the folded name.
pub open spec fn named_key(folded: Seq<char>) -> Option<KeyCode> {
    if folded == ascii_lower_seq("Backspace"@) {
        Some(KeyCode::Backspace)
    } else if folded == ascii_lower_seq("Tab"@) {
        Some(KeyCode::Tab)
    } else if folded == ascii_lower_seq("Enter"@) {
        Some(KeyCode::Enter)
    } else if folded == ascii_lower_seq("Esc"@) {
        Some(KeyCode::Escape)
    } else if folded == ascii_lower_seq("Space"@) {
        Some(KeyCode::Space)
    } else if folded == ascii_lower_seq("PageUp"@) {
        Some(KeyCode::PageUp)
    } else if folded == ascii_lower_seq("PageDown"@) {
        Some(KeyCode::PageDown)
    } else if folded == ascii_lower_seq("End"@) {
        Some(KeyCode::End)
    } else if folded == ascii_lower_seq("Home"@) {
        Some(KeyCode::Home)
    } else if folded == ascii_lower_seq("Left"@) {
        Some(KeyCode::ArrowLeft)
    } else if folded == ascii_lower_seq("Up"@) {
        Some(KeyCode::ArrowUp)
    } else if folded == ascii_lower_seq("Right"@) {
        Some(KeyCode::ArrowRight)
    } else if folded == ascii_lower_seq("Down"@) {
        Some(KeyCode::ArrowDown)
    } else if folded == ascii_lower_seq("Insert"@) {
        Some(KeyCode::Insert)
    } else if folded == ascii_lower_seq("Delete"@) {
        Some(KeyCode::Delete)
    } else if folded == ascii_lower_seq("Num*"@) {
        Some(KeyCode::NumpadMultiply)
    } else if folded == ascii_lower_seq("Num+"@) {
        Some(KeyCode::NumpadAdd)
    } else if folded == ascii_lower_seq("NumEnter"@) {
        Some(KeyCode::NumpadEnter)
    } else if folded == ascii_lower_seq("Num-"@) {
        Some(KeyCode::NumpadSubtract)
    } else if folded == ascii_lower_seq("Num."@) {
        Some(KeyCode::NumpadDecimal)
    } else if folded == ascii_lower_seq("Num/"@) {
        Some(KeyCode::NumpadDivide)
    } else if folded == ascii_lower_seq(";"@) {
        Some(KeyCode::Semicolon)
    } else if folded == ascii_lower_seq("="@) {
        Some(KeyCode::Equal)
    } else if folded == ascii_lower_seq(","@) {
        Some(KeyCode::Comma)
    } else if folded == ascii_lower_seq("-"@) {
        Some(KeyCode::Minus)
    } else if folded == ascii_lower_seq("."@) {
        Some(KeyCode::Period)
    } else if folded == ascii_lower_seq("/"@) {
        Some(KeyCode::Slash)
    } else if folded == ascii_lower_seq("`"@) {
        Some(KeyCode::Backquote)
    } else if folded == ascii_lower_seq("["@) {
        Some(KeyCode::BracketLeft)
    } else if folded == ascii_lower_seq("\\"@) {
        Some(KeyCode::Backslash)
    } else if folded == ascii_lower_seq("]"@) {
        Some(KeyCode::BracketRight)
    } else if folded == ascii_lower_seq("'"@) {
        Some(KeyCode::Quote)
    } else {
        None
    }
}

fn named_key_of(name: &str) -> (r: Option<KeyCode>)
    ensures
        r == named_key(ascii_lower_seq(name@)),
{
    if same_folded("Backspace", name) {
        Some(KeyCode::Backspace)
    } else if same_folded("Tab", name) {
        Some(KeyCode::Tab)
    } else if same_folded("Enter", name) {
        Some(KeyCode::Enter)
    } else if same_folded("Esc", name) {
        Some(KeyCode::Escape)
    } else if same_folded("Space", name) {
        Some(KeyCode::Space)
    } else if same_folded("PageUp", name) {
        Some(KeyCode::PageUp)
    } else if same_folded("PageDown", name) {
        Some(KeyCode::PageDown)
    } else if same_folded("End", name) {
        Some(KeyCode::End)
    } else if same_folded("Home", name) {
        Some(KeyCode::Home)
    } else if same_folded("Left", name) {
        Some(KeyCode::ArrowLeft)
    } else if same_folded("Up", name) {
        Some(KeyCode::ArrowUp)
    } else if same_folded("Right", name) {
        Some(KeyCode::ArrowRight)
    } else if same_folded("Down", name) {
        Some(KeyCode::ArrowDown)
    } else if same_folded("Insert", name) {
        Some(KeyCode::Insert)
    } else if same_folded("Delete", name) {
        Some(KeyCode::Delete)
    } else if same_folded("Num*", name) {
        Some(KeyCode::NumpadMultiply)
    } else if same_folded("Num+", name) {
        Some(KeyCode::NumpadAdd)
    } else if same_folded("NumEnter", name) {
        Some(KeyCode::NumpadEnter)
    } else if same_folded("Num-", name) {
        Some(KeyCode::NumpadSubtract)
    } else if same_folded("Num.", name) {
        Some(KeyCode::NumpadDecimal)
    } else if same_folded("Num/", name) {
        Some(KeyCode::NumpadDivide)
    } else if same_folded(";", name) {
        Some(KeyCode::Semicolon)
    } else if same_folded("=", name) {
        Some(KeyCode::Equal)
    } else if same_folded(",", name) {
        Some(KeyCode::Comma)
    } else if same_folded("-", name) {
        Some(KeyCode::Minus)
    } else if same_folded(".", name) {
        Some(KeyCode::Period)
    } else if same_folded("/", name) {
        Some(KeyCode::Slash)
    } else if same_folded("`", name) {
        Some(KeyCode::Backquote)
    } else if same_folded("[", name) {
        Some(KeyCode::BracketLeft)
    } else if same_folded("\\", name) {
        Some(KeyCode::Backslash)
    } else if same_folded("]", name) {
        Some(KeyCode::BracketRight)
    } else if same_folded("'", name) {
        Some(KeyCode::Quote)
    } else {
        None
    }
}

/// The digit or letter key that a folded character names.
pub open spec fn char_key(c: char) -> Option<KeyCode> {
    match c {
        '0' => Some(KeyCode::Digit0),
        '1' => Some(KeyCode::Digit1),
        '2' => Some(KeyCode::Digit2),
        '3' => Some(KeyCode::Digit3),
        '4' => Some(KeyCode::Digit4),
        '5' => Some(KeyCode::Digit5),
        '6' => Some(KeyCode::Digit6),
        '7' => Some(KeyCode::Digit7),
        '8' => Some(KeyCode::Digit8),
        '9' => Some(KeyCode::Digit9),
        'a' => Some(KeyCode::KeyA),
        'b' => Some(KeyCode::KeyB),
        'c' => Some(KeyCode::KeyC),
        'd' => Some(KeyCode::KeyD),
        'e' => Some(KeyCode::KeyE),
        'f' => Some(KeyCode::KeyF),
        'g' => Some(KeyCode::KeyG),
        'h' => Some(KeyCode::KeyH),
        'i' => Some(KeyCode::KeyI),
        'j' => Some(KeyCode::KeyJ),
        'k' => Some(KeyCode::KeyK),
        'l' => Some(KeyCode::KeyL),
        'm' => Some(KeyCode::KeyM),
        'n' => Some(KeyCode::KeyN),
        'o' => Some(KeyCode::KeyO),
        'p' => Some(KeyCode::KeyP),
        'q' => Some(KeyCode::KeyQ),
        'r' => Some(KeyCode::KeyR),
        's' => Some(KeyCode::KeyS),
        't' => Some(KeyCode::KeyT),
        'u' => Some(KeyCode::KeyU),
        'v' => Some(KeyCode::KeyV),
        'w' => Some(KeyCode::KeyW),
        'x' => Some(KeyCode::KeyX),
        'y' => Some(KeyCode::KeyY),
        'z' => Some(KeyCode::KeyZ),
        _ => None,
    }
}

fn char_key_of(c: char) -> (r: Option<KeyCode>)
    ensures
        r == char_key(c),
{
    match c {
        '0' => Some(KeyCode::Digit0),
        '1' => Some(KeyCode::Digit1),
        '2' => Some(KeyCode::Digit2),
        '3' => Some(KeyCode::Digit3),
        '4' => Some(KeyCode::Digit4),
        '5' => Some(KeyCode::Digit5),
        '6' => Some(KeyCode::Digit6),
        '7' => Some(KeyCode::Digit7),
        '8' => Some(KeyCode::Digit8),
        '9' => Some(KeyCode::Digit9),
        'a' => Some(KeyCode::KeyA),
        'b' => Some(KeyCode::KeyB),
        'c' => Some(KeyCode::KeyC),
        'd' => Some(KeyCode::KeyD),
        'e' => Some(KeyCode::KeyE),
        'f' => Some(KeyCode::KeyF),
        'g' => Some(KeyCode::KeyG),
        'h' => Some(KeyCode::KeyH),
        'i' => Some(KeyCode::KeyI),
        'j' => Some(KeyCode::KeyJ),
        'k' => Some(KeyCode::KeyK),
        'l' => Some(KeyCode::KeyL),
        'm' => Some(KeyCode::KeyM),
        'n' => Some(KeyCode::KeyN),
        'o' => Some(KeyCode::KeyO),
        'p' => Some(KeyCode::KeyP),
        'q' => Some(KeyCode::KeyQ),
        'r' => Some(KeyCode::KeyR),
        's' => Some(KeyCode::KeyS),
        't' => Some(KeyCode::KeyT),
        'u' => Some(KeyCode::KeyU),
        'v' => Some(KeyCode::KeyV),
        'w' => Some(KeyCode::KeyW),
        'x' => Some(KeyCode::KeyX),
        'y' => Some(KeyCode::KeyY),
        'z' => Some(KeyCode::KeyZ),
        _ => None,
    }
}

/// The numpad key of a digit.
pub open spec fn numpad_key(n: nat) -> Option<KeyCode> {
    if n == 0 {
        Some(KeyCode::Numpad0)
    } else if n == 1 {
        Some(KeyCode::Numpad1)
    } else if n == 2 {
        Some(KeyCode::Numpad2)
    } else if n == 3 {
        Some(KeyCode::Numpad3)
    } else if n == 4 {
        Some(KeyCode::Numpad4)
    } else if n == 5 {
        Some(KeyCode::Numpad5)
    } else if n == 6 {
        Some(KeyCode::Numpad6)
    } else if n == 7 {
        Some(KeyCode::Numpad7)
    } else if n == 8 {
        Some(KeyCode::Numpad8)
    } else if n == 9 {
        Some(KeyCode::Numpad9)
    } else {
        None
    }
}

fn numpad_key_of(n: u32) -> (r: Option<KeyCode>)
    ensures
        r == numpad_key(n as nat),
{
    match n {
        0 => Some(KeyCode::Numpad0),
        1 => Some(KeyCode::Numpad1),
        2 => Some(KeyCode::Numpad2),
        3 => Some(KeyCode::Numpad3),
        4 => Some(KeyCode::Numpad4),
        5 => Some(KeyCode::Numpad5),
        6 => Some(KeyCode::Numpad6),
        7 => Some(KeyCode::Numpad7),
        8 => Some(KeyCode::Numpad8),
        9 => Some(KeyCode::Numpad9),
        _ => None,
    }
}

/// The function key of a number.
pub open spec fn function_key(n: nat) -> Option<KeyCode> {
    if n == 1 {
        Some(KeyCode::F1)
    } else if n == 2 {
        Some(KeyCode::F2)
    } else if n == 3 {
        Some(KeyCode::F3)
    } else if n == 4 {
        Some(KeyCode::F4)
    } else if n == 5 {
        Some(KeyCode::F5)
    } else if n == 6 {
        Some(KeyCode::F6)
    } else if n == 7 {
        Some(KeyCode::F7)
    } else if n == 8 {
        Some(KeyCode::F8)
    } else if n == 9 {
        Some(KeyCode::F9)
    } else if n == 10 {
        Some(KeyCode::F10)
    } else if n == 11 {
        Some(KeyCode::F11)
    } else if n == 12 {
        Some(KeyCode::F12)
    } else if n == 13 {
        Some(KeyCode::F13)
    } else if n == 14 {
        Some(KeyCode::F14)
    } else if n == 15 {
        Some(KeyCode::F15)
    } else if n == 16 {
        Some(KeyCode::F16)
    } else if n == 17 {
        Some(KeyCode::F17)
    } else if n == 18 {
        Some(KeyCode::F18)
    } else if n == 19 {
        Some(KeyCode::F19)
    } else if n == 20 {
        Some(KeyCode::F20)
    } else if n == 21 {
        Some(KeyCode::F21)
    } else if n == 22 {
        Some(KeyCode::F22)
    } else if n == 23 {
        Some(KeyCode::F23)
    } else if n == 24 {
        Some(KeyCode::F24)
    } else if n == 25 {
        Some(KeyCode::F25)
    } else if n == 26 {
        Some(KeyCode::F26)
    } else if n == 27 {
        Some(KeyCode::F27)
    } else if n == 28 {
        Some(KeyCode::F28)
    } else if n == 29 {
        Some(KeyCode::F29)
    } else if n == 30 {
        Some(KeyCode::F30)
    } else if n == 31 {
        Some(KeyCode::F31)
    } else if n == 32 {
        Some(KeyCode::F32)
    } else if n == 33 {
        Some(KeyCode::F33)
    } else if n == 34 {
        Some(KeyCode::F34)
    } else if n == 35 {
        Some(KeyCode::F35)
    } else {
        None
    }
}

fn function_key_of(n: u32) -> (r: Option<KeyCode>)
    ensures
        r == function_key(n as nat),
{
    match n {
        1 => Some(KeyCode::F1),
        2 => Some(KeyCode::F2),
        3 => Some(KeyCode::F3),
        4 => Some(KeyCode::F4),
        5 => Some(KeyCode::F5),
        6 => Some(KeyCode::F6),
        7 => Some(KeyCode::F7),
        8 => Some(KeyCode::F8),
        9 => Some(KeyCode::F9),
        10 => Some(KeyCode::F10),
        11 => Some(KeyCode::F11),
        12 => Some(KeyCode::F12),
        13 => Some(KeyCode::F13),
        14 => Some(KeyCode::F14),
        15 => Some(KeyCode::F15),
        16 => Some(KeyCode::F16),
        17 => Some(KeyCode::F17),
        18 => Some(KeyCode::F18),
        19 => Some(KeyCode::F19),
        20 => Some(KeyCode::F20),
        21 => Some(KeyCode::F21),
        22 => Some(KeyCode::F22),
        23 => Some(KeyCode::F23),
        24 => Some(KeyCode::F24),
        25 => Some(KeyCode::F25),
        26 => Some(KeyCode::F26),
        27 => Some(KeyCode::F27),
        28 => Some(KeyCode::F28),
        29 => Some(KeyCode::F29),
        30 => Some(KeyCode::F30),
        31 => Some(KeyCode::F31),
        32 => Some(KeyCode::F32),
        33 => Some(KeyCode::F33),
        34 => Some(KeyCode::F34),
        35 => Some(KeyCode::F35),
        _ => None,
    }
}

/// The value of an unsigned number as `str::parse` reads one: digits, with a `+` allowed before
/// them.
pub open spec fn unsigned_number(s: Seq<char>) -> Option<nat> {
    let digits = if s.len() > 0 && s[0] == '+' {
        s.skip(1)
    } else {
        s
    };
    if digits.len() > 0 && all_digits(digits) {
        Some(number(digits))
    } else {
        None
    }
}

pub open spec fn all_digits(s: Seq<char>) -> bool {
    forall|k: int| 0 <= k < s.len() ==> is_digit(#[trigger] s[k])
}

/// What stands behind `prefix` in `s`, where `s` starts with it.
pub open spec fn after_prefix(s: Seq<char>, prefix: Seq<char>) -> Option<Seq<char>> {
    if prefix.len() <= s.len() && s.take(prefix.len() as int) == prefix {
        Some(s.skip(prefix.len() as int))
    } else {
        None
    }
}

/// The number behind `prefix` in `s`.
pub open spec fn number_after(s: Seq<char>, prefix: Seq<char>) -> Option<nat> {
    match after_prefix(s, prefix) {
        Some(rest) => unsigned_number(rest),
        None => None,
    }
}

/// The key that a name reads as, whatever its ASCII case: a fixed name; `+` for the `=` key; one
/// letter or digit; `Num` or `F` with a number; or the identifier of a key.
pub open spec fn parse_key(name: Seq<char>) -> Option<KeyCode> {
    let folded = ascii_lower_seq(name);
    if named_key(folded) is Some {
        named_key(folded)
    } else if name == seq!['+'] {
        Some(KeyCode::Equal)
    } else if folded.len() == 1 && char_key(folded[0]) is Some {
        char_key(folded[0])
    } else if number_after(folded, seq!['n', 'u', 'm']) is Some {
        numpad_key(number_after(folded, seq!['n', 'u', 'm'])->0)
    } else if number_after(folded, seq!['f']) is Some {
        function_key(number_after(folded, seq!['f'])->0)
    } else {
        identified_key(folded)
    }
}

/// The number behind the first `skip` characters of `s`, with every number too large for a key
/// given as `99`.
fn read_number(s: &Vec<char>, skip: usize) -> (r: Option<u32>)
    requires
        skip <= s.len(),
    ensures
        r is Some <==> unsigned_number(s@.skip(skip as int)) is Some,
        r matches Some(n) ==> n == capped(unsigned_number(s@.skip(skip as int))->0),
{
    let start: usize = if skip < s.len() && s[skip] == '+' {
        skip + 1
    } else {
        skip
    };
    let ghost digits = s@.skip(start as int);
    assert(start == skip + 1 ==> s@.skip(skip as int).skip(1) =~= digits);
    assert(unsigned_number(s@.skip(skip as int)) == (if digits.len() > 0 && all_digits(digits) {
        Some(number(digits))
    } else {
        None
    }));
    if start == s.len() {
        return None;
    }
    let mut n: u32 = 0;
    let mut i = start;
    while i < s.len()
        invariant
            start <= i <= s.len(),
            digits == s@.skip(start as int),
            unsigned_number(s@.skip(skip as int)) == (if digits.len() > 0 && all_digits(digits) {
                Some(number(digits))
            } else {
                None
            }),
            n == capped(number(digits.take(i - start))),
            n <= 99,
            forall|k: int| 0 <= k < i - start ==> is_digit(#[trigger] digits[k]),
        decreases s.len() - i,
    {
        let c = s[i];
        assert(digits[i - start] == c);
        let v: u32 = match digit_of(c) {
            Some(v) => v,
            None => {
                assert(!is_digit(digits[i - start]));
                return None;
            },
        };
        proof {
            lemma_number_take(digits, i - start);
        }
        let next = n * 10 + v;
        n = if next < 99 {
            next
        } else {
            99
        };
        i += 1;
    }
    assert(digits.take(digits.len() as int) =~= digits);
    Some(n)
}

pub open spec fn capped(n: nat) -> nat {
    if n < 99 {
        n
    } else {
        99
    }
}

fn digit_of(c: char) -> (r: Option<u32>)
    ensures
        r is Some <==> is_digit(c),
        r matches Some(v) ==> v == digit_value(c),
        r matches Some(v) ==> v <= 9,
{
    if '0' <= c && c <= '9' {
        Some(c as u32 - 48)
    } else {
        None
    }
}

/// Read a key name; the inverse of [`key_name_of`].
pub fn parse_key_name(name: &str) -> (r: Option<KeyCode>)
    ensures
        r == parse_key(name@),
{
    if let Some(k) = named_key_of(name) {
        return Some(k);
    }
    let chars = chars_of(name);
    if chars.len() == 1 && chars[0] == '+' {
        assert(name@ =~= seq!['+']);
        return Some(KeyCode::Equal);
    }
    proof {
        if name@ == seq!['+'] {
            assert(name@.len() == 1 && name@[0] == '+');
        }
    }
    let folded = fold_chars(&chars);
    if folded.len() == 1 {
        if let Some(k) = char_key_of(folded[0]) {
            return Some(k);
        }
    }
    let ghost f = folded@;
    if folded.len() >= 3 && folded[0] == 'n' && folded[1] == 'u' && folded[2] == 'm' {
        assert(f.take(3) =~= seq!['n', 'u', 'm']);
        if let Some(n) = read_number(&folded, 3) {
            return numpad_key_of(n);
        }
    } else {
        proof {
            if after_prefix(f, seq!['n', 'u', 'm']) is Some {
                assert(f.take(3)[0] == 'n' && f.take(3)[1] == 'u' && f.take(3)[2] == 'm');
            }
        }
    }
    if folded.len() >= 1 && folded[0] == 'f' {
        assert(f.take(1) =~= seq!['f']);
        if let Some(n) = read_number(&folded, 1) {
            return function_key_of(n);
        }
    } else {
        proof {
            if after_prefix(f, seq!['f']) is Some {
                assert(f.take(1)[0] == 'f');
            }
        }
    }
    identified_key_of(name)
}

fn fold_chars(chars: &Vec<char>) -> (r: Vec<char>)
    ensures
        r@ == ascii_lower_seq(chars@),
{
    let mut r: Vec<char> = Vec::new();
    let mut i: usize = 0;
    while i < chars.len()
        invariant
            i <= chars.len(),
            r.len() == i,
            forall|k: int| 0 <= k < i ==> r@[k] == ascii_lower(chars@[k]),
        decreases chars.len() - i,
    {
        r.push(fold_ascii(chars[i]));
        i += 1;
    }
    assert(r@ =~= ascii_lower_seq(chars@));
    r
}

} // verus!
