//! Reading back the names of keys: every key is the one that its name reads as.
use crate::identifiers::{
    key_identifier, lemma_identifier_among_fixed_names, lemma_no_empty_identifier,
    lemma_one_identified,
};
use crate::keys::{
    after_prefix, all_digits, canonical_name, char_key, function_key, key_name, named_key,
    number_after, numpad_key, parse_key, unsigned_number,
};
use crate::natural::{digit_value, number};
use crate::text::{ascii_lower, ascii_lower_seq, is_digit, is_white};
use vstd::prelude::*;
use winit::keyboard::KeyCode;

verus! {

/// Whether `name` reads as `key`.
#[verifier::opaque]
spec fn reads_as(name: Seq<char>, key: KeyCode) -> bool {
    parse_key(name) == Some(key)
}

/// The characters of the fixed names, folded.
proof fn lemma_fixed_names()
    ensures
        ascii_lower_seq("Backspace"@).len() == 9,
        ascii_lower_seq("Backspace"@)[0] == 'b',
        ascii_lower_seq("Backspace"@)[1] == 'a',
        ascii_lower_seq("Backspace"@)[2] == 'c',
        ascii_lower_seq("Backspace"@)[3] == 'k',
        ascii_lower_seq("Backspace"@)[4] == 's',
        ascii_lower_seq("Backspace"@)[5] == 'p',
        ascii_lower_seq("Backspace"@)[6] == 'a',
        ascii_lower_seq("Backspace"@)[7] == 'c',
        ascii_lower_seq("Backspace"@)[8] == 'e',
        ascii_lower_seq("Tab"@).len() == 3,
        ascii_lower_seq("Tab"@)[0] == 't',
        ascii_lower_seq("Tab"@)[1] == 'a',
        ascii_lower_seq("Tab"@)[2] == 'b',
        ascii_lower_seq("Enter"@).len() == 5,
        ascii_lower_seq("Enter"@)[0] == 'e',
        ascii_lower_seq("Enter"@)[1] == 'n',
        ascii_lower_seq("Enter"@)[2] == 't',
        ascii_lower_seq("Enter"@)[3] == 'e',
        ascii_lower_seq("Enter"@)[4] == 'r',
        ascii_lower_seq("Esc"@).len() == 3,
        ascii_lower_seq("Esc"@)[0] == 'e',
        ascii_lower_seq("Esc"@)[1] == 's',
        ascii_lower_seq("Esc"@)[2] == 'c',
        ascii_lower_seq("Space"@).len() == 5,
        ascii_lower_seq("Space"@)[0] == 's',
        ascii_lower_seq("Space"@)[1] == 'p',
        ascii_lower_seq("Space"@)[2] == 'a',
        ascii_lower_seq("Space"@)[3] == 'c',
        ascii_lower_seq("Space"@)[4] == 'e',
        ascii_lower_seq("PageUp"@).len() == 6,
        ascii_lower_seq("PageUp"@)[0] == 'p',
        ascii_lower_seq("PageUp"@)[1] == 'a',
        ascii_lower_seq("PageUp"@)[2] == 'g',
        ascii_lower_seq("PageUp"@)[3] == 'e',
        ascii_lower_seq("PageUp"@)[4] == 'u',
        ascii_lower_seq("PageUp"@)[5] == 'p',
        ascii_lower_seq("PageDown"@).len() == 8,
        ascii_lower_seq("PageDown"@)[0] == 'p',
        ascii_lower_seq("PageDown"@)[1] == 'a',
        ascii_lower_seq("PageDown"@)[2] == 'g',
        ascii_lower_seq("PageDown"@)[3] == 'e',
        ascii_lower_seq("PageDown"@)[4] == 'd',
        ascii_lower_seq("PageDown"@)[5] == 'o',
        ascii_lower_seq("PageDown"@)[6] == 'w',
        ascii_lower_seq("PageDown"@)[7] == 'n',
        ascii_lower_seq("End"@).len() == 3,
        ascii_lower_seq("End"@)[0] == 'e',
        ascii_lower_seq("End"@)[1] == 'n',
        ascii_lower_seq("End"@)[2] == 'd',
        ascii_lower_seq("Home"@).len() == 4,
        ascii_lower_seq("Home"@)[0] == 'h',
        ascii_lower_seq("Home"@)[1] == 'o',
        ascii_lower_seq("Home"@)[2] == 'm',
        ascii_lower_seq("Home"@)[3] == 'e',
        ascii_lower_seq("Left"@).len() == 4,
        ascii_lower_seq("Left"@)[0] == 'l',
        ascii_lower_seq("Left"@)[1] == 'e',
        ascii_lower_seq("Left"@)[2] == 'f',
        ascii_lower_seq("Left"@)[3] == 't',
        ascii_lower_seq("Up"@).len() == 2,
        ascii_lower_seq("Up"@)[0] == 'u',
        ascii_lower_seq("Up"@)[1] == 'p',
        ascii_lower_seq("Right"@).len() == 5,
        ascii_lower_seq("Right"@)[0] == 'r',
        ascii_lower_seq("Right"@)[1] == 'i',
        ascii_lower_seq("Right"@)[2] == 'g',
        ascii_lower_seq("Right"@)[3] == 'h',
        ascii_lower_seq("Right"@)[4] == 't',
        ascii_lower_seq("Down"@).len() == 4,
        ascii_lower_seq("Down"@)[0] == 'd',
        ascii_lower_seq("Down"@)[1] == 'o',
        ascii_lower_seq("Down"@)[2] == 'w',
        ascii_lower_seq("Down"@)[3] == 'n',
        ascii_lower_seq("Insert"@).len() == 6,
        ascii_lower_seq("Insert"@)[0] == 'i',
        ascii_lower_seq("Insert"@)[1] == 'n',
        ascii_lower_seq("Insert"@)[2] == 's',
        ascii_lower_seq("Insert"@)[3] == 'e',
        ascii_lower_seq("Insert"@)[4] == 'r',
        ascii_lower_seq("Insert"@)[5] == 't',
        ascii_lower_seq("Delete"@).len() == 6,
        ascii_lower_seq("Delete"@)[0] == 'd',
        ascii_lower_seq("Delete"@)[1] == 'e',
        ascii_lower_seq("Delete"@)[2] == 'l',
        ascii_lower_seq("Delete"@)[3] == 'e',
        ascii_lower_seq("Delete"@)[4] == 't',
        ascii_lower_seq("Delete"@)[5] == 'e',
        ascii_lower_seq("Num*"@).len() == 4,
        ascii_lower_seq("Num*"@)[0] == 'n',
        ascii_lower_seq("Num*"@)[1] == 'u',
        ascii_lower_seq("Num*"@)[2] == 'm',
        ascii_lower_seq("Num*"@)[3] == '*',
        ascii_lower_seq("Num+"@).len() == 4,
        ascii_lower_seq("Num+"@)[0] == 'n',
        ascii_lower_seq("Num+"@)[1] == 'u',
        ascii_lower_seq("Num+"@)[2] == 'm',
        ascii_lower_seq("Num+"@)[3] == '+',
        ascii_lower_seq("NumEnter"@).len() == 8,
        ascii_lower_seq("NumEnter"@)[0] == 'n',
        ascii_lower_seq("NumEnter"@)[1] == 'u',
        ascii_lower_seq("NumEnter"@)[2] == 'm',
        ascii_lower_seq("NumEnter"@)[3] == 'e',
        ascii_lower_seq("NumEnter"@)[4] == 'n',
        ascii_lower_seq("NumEnter"@)[5] == 't',
        ascii_lower_seq("NumEnter"@)[6] == 'e',
        ascii_lower_seq("NumEnter"@)[7] == 'r',
        ascii_lower_seq("Num-"@).len() == 4,
        ascii_lower_seq("Num-"@)[0] == 'n',
        ascii_lower_seq("Num-"@)[1] == 'u',
        ascii_lower_seq("Num-"@)[2] == 'm',
        ascii_lower_seq("Num-"@)[3] == '-',
        ascii_lower_seq("Num."@).len() == 4,
        ascii_lower_seq("Num."@)[0] == 'n',
        ascii_lower_seq("Num."@)[1] == 'u',
        ascii_lower_seq("Num."@)[2] == 'm',
        ascii_lower_seq("Num."@)[3] == '.',
        ascii_lower_seq("Num/"@).len() == 4,
        ascii_lower_seq("Num/"@)[0] == 'n',
        ascii_lower_seq("Num/"@)[1] == 'u',
        ascii_lower_seq("Num/"@)[2] == 'm',
        ascii_lower_seq("Num/"@)[3] == '/',
        ascii_lower_seq(";"@).len() == 1,
        ascii_lower_seq(";"@)[0] == ';',
        ascii_lower_seq("="@).len() == 1,
        ascii_lower_seq("="@)[0] == '=',
        ascii_lower_seq(","@).len() == 1,
        ascii_lower_seq(","@)[0] == ',',
        ascii_lower_seq("-"@).len() == 1,
        ascii_lower_seq("-"@)[0] == '-',
        ascii_lower_seq("."@).len() == 1,
        ascii_lower_seq("."@)[0] == '.',
        ascii_lower_seq("/"@).len() == 1,
        ascii_lower_seq("/"@)[0] == '/',
        ascii_lower_seq("`"@).len() == 1,
        ascii_lower_seq("`"@)[0] == '`',
        ascii_lower_seq("["@).len() == 1,
        ascii_lower_seq("["@)[0] == '[',
        ascii_lower_seq("\\"@).len() == 1,
        ascii_lower_seq("\\"@)[0] == '\\',
        ascii_lower_seq("]"@).len() == 1,
        ascii_lower_seq("]"@)[0] == ']',
        ascii_lower_seq("'"@).len() == 1,
        ascii_lower_seq("'"@)[0] == '\'',
{
    reveal_strlit("Backspace");
    reveal_strlit("Tab");
    reveal_strlit("Enter");
    reveal_strlit("Esc");
    reveal_strlit("Space");
    reveal_strlit("PageUp");
    reveal_strlit("PageDown");
    reveal_strlit("End");
    reveal_strlit("Home");
    reveal_strlit("Left");
    reveal_strlit("Up");
    reveal_strlit("Right");
    reveal_strlit("Down");
    reveal_strlit("Insert");
    reveal_strlit("Delete");
    reveal_strlit("Num*");
    reveal_strlit("Num+");
    reveal_strlit("NumEnter");
    reveal_strlit("Num-");
    reveal_strlit("Num.");
    reveal_strlit("Num/");
    reveal_strlit(";");
    reveal_strlit("=");
    reveal_strlit(",");
    reveal_strlit("-");
    reveal_strlit(".");
    reveal_strlit("/");
    reveal_strlit("`");
    reveal_strlit("[");
    reveal_strlit("\\");
    reveal_strlit("]");
    reveal_strlit("'");
}

/// Each fixed name reads as its key.
proof fn lemma_fixed_names_read()
    ensures
        reads_as("Backspace"@, KeyCode::Backspace),
        reads_as("Tab"@, KeyCode::Tab),
        reads_as("Enter"@, KeyCode::Enter),
        reads_as("Esc"@, KeyCode::Escape),
        reads_as("Space"@, KeyCode::Space),
        reads_as("PageUp"@, KeyCode::PageUp),
        reads_as("PageDown"@, KeyCode::PageDown),
        reads_as("End"@, KeyCode::End),
        reads_as("Home"@, KeyCode::Home),
        reads_as("Left"@, KeyCode::ArrowLeft),
        reads_as("Up"@, KeyCode::ArrowUp),
        reads_as("Right"@, KeyCode::ArrowRight),
        reads_as("Down"@, KeyCode::ArrowDown),
        reads_as("Insert"@, KeyCode::Insert),
        reads_as("Delete"@, KeyCode::Delete),
        reads_as("Num*"@, KeyCode::NumpadMultiply),
        reads_as("Num+"@, KeyCode::NumpadAdd),
        reads_as("NumEnter"@, KeyCode::NumpadEnter),
        reads_as("Num-"@, KeyCode::NumpadSubtract),
        reads_as("Num."@, KeyCode::NumpadDecimal),
        reads_as("Num/"@, KeyCode::NumpadDivide),
        reads_as(";"@, KeyCode::Semicolon),
        reads_as("="@, KeyCode::Equal),
        reads_as(","@, KeyCode::Comma),
        reads_as("-"@, KeyCode::Minus),
        reads_as("."@, KeyCode::Period),
        reads_as("/"@, KeyCode::Slash),
        reads_as("`"@, KeyCode::Backquote),
        reads_as("["@, KeyCode::BracketLeft),
        reads_as("\\"@, KeyCode::Backslash),
        reads_as("]"@, KeyCode::BracketRight),
        reads_as("'"@, KeyCode::Quote),
{
    reveal(reads_as);
    lemma_fixed_names();
}

/// No fixed name ends in a digit, and none is a single letter.
proof fn lemma_not_fixed(f: Seq<char>)
    requires
        f.len() > 0,
        is_digit(f.last()) || (f.len() == 1 && 'a' <= f[0] <= 'z'),
    ensures
        named_key(f) is None,
{
    lemma_fixed_names();
    assert(f.last() == f[f.len() - 1]);
}

/// A single letter or digit reads as its key.
proof fn lemma_char_reads(name: Seq<char>)
    requires
        name.len() == 1,
        is_digit(name[0]) || 'A' <= name[0] <= 'Z',
    ensures
        parse_key(name) == char_key(ascii_lower(name[0])),
{
    let f = ascii_lower_seq(name);
    assert(f.len() == 1 && f[0] == ascii_lower(name[0]));
    lemma_not_fixed(f);
    assert(name[0] != '+');
    if name == seq!['+'] {
        assert(name[0] == seq!['+'][0]);
    }
}

proof fn lemma_short_number(s: Seq<char>)
    requires
        1 <= s.len() <= 2,
        all_digits(s),
    ensures
        s.len() == 1 ==> unsigned_number(s) == Some(digit_value(s[0])),
        s.len() == 2 ==> unsigned_number(s) == Some(digit_value(s[0]) * 10 + digit_value(s[1])),
{
    reveal_with_fuel(number, 3);
    assert(is_digit(s[0]));
    if s.len() == 2 {
        assert(s.drop_last().last() == s[0]);
        assert(s.drop_last().drop_last() =~= Seq::<char>::empty());
    } else {
        assert(s.drop_last() =~= Seq::<char>::empty());
    }
}

/// `f` does not hold a number behind `prefix` where it starts otherwise, or goes on with
/// something that no number starts with.
proof fn lemma_no_number(f: Seq<char>, prefix: Seq<char>)
    requires
        prefix.len() > 0,
        f.len() > 0 ==> f[0] != prefix[0] || (f.len() > prefix.len() && f[prefix.len() as int] != '+'
            && !is_digit(f[prefix.len() as int])),
    ensures
        number_after(f, prefix) is None,
{
    if after_prefix(f, prefix) is Some {
        let n = prefix.len() as int;
        assert(f.take(n)[0] == f[0]);
        let rest = f.skip(n);
        assert(rest[0] == f[n]);
        assert(!is_digit(rest[0]));
    }
}

/// `Num` with a digit reads as the numpad key.
proof fn lemma_numpad_reads(name: Seq<char>)
    requires
        name.len() == 4,
        name[0] == 'N',
        name[1] == 'u',
        name[2] == 'm',
        is_digit(name[3]),
    ensures
        parse_key(name) == numpad_key(digit_value(name[3])),
{
    let f = ascii_lower_seq(name);
    assert(f.len() == 4 && f[0] == 'n' && f[1] == 'u' && f[2] == 'm' && f[3] == name[3]);
    lemma_not_fixed(f);
    let p = seq!['n', 'u', 'm'];
    assert(f.take(3) =~= p);
    let rest = f.skip(3);
    assert(rest.len() == 1 && rest[0] == name[3]);
    lemma_short_number(rest);
}

/// `F` with a number of one or two digits reads as the function key.
proof fn lemma_function_key_reads(name: Seq<char>, n: nat)
    requires
        2 <= name.len() <= 3,
        name[0] == 'F',
        is_digit(name[1]),
        name.len() == 2 ==> n == digit_value(name[1]),
        name.len() == 3 ==> is_digit(name[2]) && n == digit_value(name[1]) * 10 + digit_value(name[2]),
    ensures
        parse_key(name) == function_key(n),
{
    let f = ascii_lower_seq(name);
    assert(f.len() == name.len() && f[0] == 'f' && f[1] == name[1]);
    if f.len() == 3 {
        assert(f[2] == name[2]);
    }
    assert(f.last() == f[f.len() - 1]);
    lemma_not_fixed(f);
    lemma_no_number(f, seq!['n', 'u', 'm']);
    assert(f.take(1) =~= seq!['f']);
    let rest = f.skip(1);
    assert(rest[0] == name[1]);
    if rest.len() == 2 {
        assert(rest[1] == name[2]);
    }
    lemma_short_number(rest);
}

/// A text of more than one character that does not start as a number of a numpad or function key
/// does.
#[verifier::opaque]
spec fn is_word(name: Seq<char>) -> bool {
    let f = ascii_lower_seq(name);
    &&& f.len() > 1
    &&& f[0] == 'n' ==> f.len() > 3 && f[3] != '+' && !is_digit(f[3])
    &&& f[0] == 'f' ==> f[1] != '+' && !is_digit(f[1])
}

proof fn lemma_words_0()
    ensures
        is_word("Backquote"@),
        is_word("Backslash"@),
        is_word("BracketLeft"@),
        is_word("BracketRight"@),
        is_word("Comma"@),
        is_word("Digit0"@),
        is_word("Digit1"@),
        is_word("Digit2"@),
        is_word("Digit3"@),
        is_word("Digit4"@),
        is_word("Digit5"@),
        is_word("Digit6"@),
        is_word("Digit7"@),
        is_word("Digit8"@),
        is_word("Digit9"@),
        is_word("Equal"@),
        is_word("IntlBackslash"@),
        is_word("IntlRo"@),
        is_word("IntlYen"@),
        is_word("KeyA"@),
        is_word("KeyB"@),
        is_word("KeyC"@),
        is_word("KeyD"@),
        is_word("KeyE"@),
        is_word("KeyF"@),
        is_word("KeyG"@),
        is_word("KeyH"@),
        is_word("KeyI"@),
        is_word("KeyJ"@),
        is_word("KeyK"@),
        is_word("KeyL"@),
        is_word("KeyM"@),
        is_word("KeyN"@),
        is_word("KeyO"@),
        is_word("KeyP"@),
        is_word("KeyQ"@),
        is_word("KeyR"@),
        is_word("KeyS"@),
        is_word("KeyT"@),
        is_word("KeyU"@),
        is_word("KeyV"@),
        is_word("KeyW"@),
        is_word("KeyX"@),
        is_word("KeyY"@),
        is_word("KeyZ"@),
        is_word("Minus"@),
        is_word("Period"@),
        is_word("Quote"@),
        is_word("Semicolon"@),
        is_word("Slash"@),
        is_word("AltLeft"@),
        is_word("AltRight"@),
        is_word("Backspace"@),
        is_word("CapsLock"@),
        is_word("ContextMenu"@),
        is_word("ControlLeft"@),
        is_word("ControlRight"@),
        is_word("Enter"@),
        is_word("SuperLeft"@),
        is_word("SuperRight"@),
        is_word("ShiftLeft"@),
        is_word("ShiftRight"@),
        is_word("Space"@),
        is_word("Tab"@),
        is_word("Convert"@),
        is_word("KanaMode"@),
        is_word("Lang1"@),
        is_word("Lang2"@),
        is_word("Lang3"@),
        is_word("Lang4"@),
        is_word("Lang5"@),
        is_word("NonConvert"@),
        is_word("Delete"@),
        is_word("End"@),
        is_word("Help"@),
        is_word("Home"@),
        is_word("Insert"@),
        is_word("PageDown"@),
        is_word("PageUp"@),
        is_word("ArrowDown"@),
{
    reveal(is_word);
    reveal_strlit("Backquote");
    reveal_strlit("Backslash");
    reveal_strlit("BracketLeft");
    reveal_strlit("BracketRight");
    reveal_strlit("Comma");
    reveal_strlit("Digit0");
    reveal_strlit("Digit1");
    reveal_strlit("Digit2");
    reveal_strlit("Digit3");
    reveal_strlit("Digit4");
    reveal_strlit("Digit5");
    reveal_strlit("Digit6");
    reveal_strlit("Digit7");
    reveal_strlit("Digit8");
    reveal_strlit("Digit9");
    reveal_strlit("Equal");
    reveal_strlit("IntlBackslash");
    reveal_strlit("IntlRo");
    reveal_strlit("IntlYen");
    reveal_strlit("KeyA");
    reveal_strlit("KeyB");
    reveal_strlit("KeyC");
    reveal_strlit("KeyD");
    reveal_strlit("KeyE");
    reveal_strlit("KeyF");
    reveal_strlit("KeyG");
    reveal_strlit("KeyH");
    reveal_strlit("KeyI");
    reveal_strlit("KeyJ");
    reveal_strlit("KeyK");
    reveal_strlit("KeyL");
    reveal_strlit("KeyM");
    reveal_strlit("KeyN");
    reveal_strlit("KeyO");
    reveal_strlit("KeyP");
    reveal_strlit("KeyQ");
    reveal_strlit("KeyR");
    reveal_strlit("KeyS");
    reveal_strlit("KeyT");
    reveal_strlit("KeyU");
    reveal_strlit("KeyV");
    reveal_strlit("KeyW");
    reveal_strlit("KeyX");
    reveal_strlit("KeyY");
    reveal_strlit("KeyZ");
    reveal_strlit("Minus");
    reveal_strlit("Period");
    reveal_strlit("Quote");
    reveal_strlit("Semicolon");
    reveal_strlit("Slash");
    reveal_strlit("AltLeft");
    reveal_strlit("AltRight");
    reveal_strlit("Backspace");
    reveal_strlit("CapsLock");
    reveal_strlit("ContextMenu");
    reveal_strlit("ControlLeft");
    reveal_strlit("ControlRight");
    reveal_strlit("Enter");
    reveal_strlit("SuperLeft");
    reveal_strlit("SuperRight");
    reveal_strlit("ShiftLeft");
    reveal_strlit("ShiftRight");
    reveal_strlit("Space");
    reveal_strlit("Tab");
    reveal_strlit("Convert");
    reveal_strlit("KanaMode");
    reveal_strlit("Lang1");
    reveal_strlit("Lang2");
    reveal_strlit("Lang3");
    reveal_strlit("Lang4");
    reveal_strlit("Lang5");
    reveal_strlit("NonConvert");
    reveal_strlit("Delete");
    reveal_strlit("End");
    reveal_strlit("Help");
    reveal_strlit("Home");
    reveal_strlit("Insert");
    reveal_strlit("PageDown");
    reveal_strlit("PageUp");
    reveal_strlit("ArrowDown");
}

proof fn lemma_words_1()
    ensures
        is_word("ArrowLeft"@),
        is_word("ArrowRight"@),
        is_word("ArrowUp"@),
        is_word("NumLock"@),
        is_word("Numpad0"@),
        is_word("Numpad1"@),
        is_word("Numpad2"@),
        is_word("Numpad3"@),
        is_word("Numpad4"@),
        is_word("Numpad5"@),
        is_word("Numpad6"@),
        is_word("Numpad7"@),
        is_word("Numpad8"@),
        is_word("Numpad9"@),
        is_word("NumpadAdd"@),
        is_word("NumpadBackspace"@),
        is_word("NumpadClear"@),
        is_word("NumpadClearEntry"@),
        is_word("NumpadComma"@),
        is_word("NumpadDecimal"@),
        is_word("NumpadDivide"@),
        is_word("NumpadEnter"@),
        is_word("NumpadEqual"@),
        is_word("NumpadHash"@),
        is_word("NumpadMemoryAdd"@),
        is_word("NumpadMemoryClear"@),
        is_word("NumpadMemoryRecall"@),
        is_word("NumpadMemoryStore"@),
        is_word("NumpadMemorySubtract"@),
        is_word("NumpadMultiply"@),
        is_word("NumpadParenLeft"@),
        is_word("NumpadParenRight"@),
        is_word("NumpadStar"@),
        is_word("NumpadSubtract"@),
        is_word("Escape"@),
        is_word("Fn"@),
        is_word("FnLock"@),
        is_word("PrintScreen"@),
        is_word("ScrollLock"@),
        is_word("Pause"@),
        is_word("BrowserBack"@),
        is_word("BrowserFavorites"@),
        is_word("BrowserForward"@),
        is_word("BrowserHome"@),
        is_word("BrowserRefresh"@),
        is_word("BrowserSearch"@),
        is_word("BrowserStop"@),
        is_word("Eject"@),
        is_word("LaunchApp1"@),
        is_word("LaunchApp2"@),
        is_word("LaunchMail"@),
        is_word("MediaPlayPause"@),
        is_word("MediaSelect"@),
        is_word("MediaStop"@),
        is_word("MediaTrackNext"@),
        is_word("MediaTrackPrevious"@),
        is_word("Power"@),
        is_word("Sleep"@),
        is_word("AudioVolumeDown"@),
        is_word("AudioVolumeMute"@),
        is_word("AudioVolumeUp"@),
        is_word("WakeUp"@),
        is_word("Meta"@),
        is_word("Hyper"@),
        is_word("Turbo"@),
        is_word("Abort"@),
        is_word("Resume"@),
        is_word("Suspend"@),
        is_word("Again"@),
        is_word("Copy"@),
        is_word("Cut"@),
        is_word("Find"@),
        is_word("Open"@),
        is_word("Paste"@),
        is_word("Props"@),
        is_word("Select"@),
        is_word("Undo"@),
        is_word("Hiragana"@),
        is_word("Katakana"@),
{
    reveal(is_word);
    reveal_strlit("ArrowLeft");
    reveal_strlit("ArrowRight");
    reveal_strlit("ArrowUp");
    reveal_strlit("NumLock");
    reveal_strlit("Numpad0");
    reveal_strlit("Numpad1");
    reveal_strlit("Numpad2");
    reveal_strlit("Numpad3");
    reveal_strlit("Numpad4");
    reveal_strlit("Numpad5");
    reveal_strlit("Numpad6");
    reveal_strlit("Numpad7");
    reveal_strlit("Numpad8");
    reveal_strlit("Numpad9");
    reveal_strlit("NumpadAdd");
    reveal_strlit("NumpadBackspace");
    reveal_strlit("NumpadClear");
    reveal_strlit("NumpadClearEntry");
    reveal_strlit("NumpadComma");
    reveal_strlit("NumpadDecimal");
    reveal_strlit("NumpadDivide");
    reveal_strlit("NumpadEnter");
    reveal_strlit("NumpadEqual");
    reveal_strlit("NumpadHash");
    reveal_strlit("NumpadMemoryAdd");
    reveal_strlit("NumpadMemoryClear");
    reveal_strlit("NumpadMemoryRecall");
    reveal_strlit("NumpadMemoryStore");
    reveal_strlit("NumpadMemorySubtract");
    reveal_strlit("NumpadMultiply");
    reveal_strlit("NumpadParenLeft");
    reveal_strlit("NumpadParenRight");
    reveal_strlit("NumpadStar");
    reveal_strlit("NumpadSubtract");
    reveal_strlit("Escape");
    reveal_strlit("Fn");
    reveal_strlit("FnLock");
    reveal_strlit("PrintScreen");
    reveal_strlit("ScrollLock");
    reveal_strlit("Pause");
    reveal_strlit("BrowserBack");
    reveal_strlit("BrowserFavorites");
    reveal_strlit("BrowserForward");
    reveal_strlit("BrowserHome");
    reveal_strlit("BrowserRefresh");
    reveal_strlit("BrowserSearch");
    reveal_strlit("BrowserStop");
    reveal_strlit("Eject");
    reveal_strlit("LaunchApp1");
    reveal_strlit("LaunchApp2");
    reveal_strlit("LaunchMail");
    reveal_strlit("MediaPlayPause");
    reveal_strlit("MediaSelect");
    reveal_strlit("MediaStop");
    reveal_strlit("MediaTrackNext");
    reveal_strlit("MediaTrackPrevious");
    reveal_strlit("Power");
    reveal_strlit("Sleep");
    reveal_strlit("AudioVolumeDown");
    reveal_strlit("AudioVolumeMute");
    reveal_strlit("AudioVolumeUp");
    reveal_strlit("WakeUp");
    reveal_strlit("Meta");
    reveal_strlit("Hyper");
    reveal_strlit("Turbo");
    reveal_strlit("Abort");
    reveal_strlit("Resume");
    reveal_strlit("Suspend");
    reveal_strlit("Again");
    reveal_strlit("Copy");
    reveal_strlit("Cut");
    reveal_strlit("Find");
    reveal_strlit("Open");
    reveal_strlit("Paste");
    reveal_strlit("Props");
    reveal_strlit("Select");
    reveal_strlit("Undo");
    reveal_strlit("Hiragana");
    reveal_strlit("Katakana");
}

spec fn is_function_key(key: KeyCode) -> bool {
    match key {
        KeyCode::F1 => true,
        KeyCode::F2 => true,
        KeyCode::F3 => true,
        KeyCode::F4 => true,
        KeyCode::F5 => true,
        KeyCode::F6 => true,
        KeyCode::F7 => true,
        KeyCode::F8 => true,
        KeyCode::F9 => true,
        KeyCode::F10 => true,
        KeyCode::F11 => true,
        KeyCode::F12 => true,
        KeyCode::F13 => true,
        KeyCode::F14 => true,
        KeyCode::F15 => true,
        KeyCode::F16 => true,
        KeyCode::F17 => true,
        KeyCode::F18 => true,
        KeyCode::F19 => true,
        KeyCode::F20 => true,
        KeyCode::F21 => true,
        KeyCode::F22 => true,
        KeyCode::F23 => true,
        KeyCode::F24 => true,
        KeyCode::F25 => true,
        KeyCode::F26 => true,
        KeyCode::F27 => true,
        KeyCode::F28 => true,
        KeyCode::F29 => true,
        KeyCode::F30 => true,
        KeyCode::F31 => true,
        KeyCode::F32 => true,
        KeyCode::F33 => true,
        KeyCode::F34 => true,
        KeyCode::F35 => true,
        _ => false,
    }
}

/// The identifier of every key reads as the key, whether or not it has another name.
pub proof fn law_identifiers_read_back(key: KeyCode)
    ensures
        parse_key(key_identifier(key)) == Some(key),
{
    let name = key_identifier(key);
    let f = ascii_lower_seq(name);
    if is_function_key(key) {
        lemma_numbered_read();
        assert(reads_as(name, key)) by {
            reveal(key_identifier);
        }
        reveal(reads_as);
    } else {
        assert(is_word(name)) by {
            reveal(key_identifier);
            lemma_words_0();
            lemma_words_1();
        }
        reveal(is_word);
        lemma_identifier_among_fixed_names(key);
        lemma_no_number(f, seq!['n', 'u', 'm']);
        lemma_no_number(f, seq!['f']);
        lemma_one_identified(f);
        if name == seq!['+'] {
            assert(f.len() == 1);
        }
    }
}

proof fn lemma_letters_read()
    ensures
        reads_as("A"@, KeyCode::KeyA),
        reads_as("B"@, KeyCode::KeyB),
        reads_as("C"@, KeyCode::KeyC),
        reads_as("D"@, KeyCode::KeyD),
        reads_as("E"@, KeyCode::KeyE),
        reads_as("F"@, KeyCode::KeyF),
        reads_as("G"@, KeyCode::KeyG),
        reads_as("H"@, KeyCode::KeyH),
        reads_as("I"@, KeyCode::KeyI),
        reads_as("J"@, KeyCode::KeyJ),
        reads_as("K"@, KeyCode::KeyK),
        reads_as("L"@, KeyCode::KeyL),
        reads_as("M"@, KeyCode::KeyM),
        reads_as("N"@, KeyCode::KeyN),
        reads_as("O"@, KeyCode::KeyO),
        reads_as("P"@, KeyCode::KeyP),
        reads_as("Q"@, KeyCode::KeyQ),
        reads_as("R"@, KeyCode::KeyR),
        reads_as("S"@, KeyCode::KeyS),
        reads_as("T"@, KeyCode::KeyT),
        reads_as("U"@, KeyCode::KeyU),
        reads_as("V"@, KeyCode::KeyV),
        reads_as("W"@, KeyCode::KeyW),
        reads_as("X"@, KeyCode::KeyX),
        reads_as("Y"@, KeyCode::KeyY),
        reads_as("Z"@, KeyCode::KeyZ),
        reads_as("0"@, KeyCode::Digit0),
        reads_as("1"@, KeyCode::Digit1),
        reads_as("2"@, KeyCode::Digit2),
        reads_as("3"@, KeyCode::Digit3),
        reads_as("4"@, KeyCode::Digit4),
        reads_as("5"@, KeyCode::Digit5),
        reads_as("6"@, KeyCode::Digit6),
        reads_as("7"@, KeyCode::Digit7),
        reads_as("8"@, KeyCode::Digit8),
        reads_as("9"@, KeyCode::Digit9),
{
    reveal(reads_as);
    reveal_strlit("A");
    lemma_char_reads("A"@);
    reveal_strlit("B");
    lemma_char_reads("B"@);
    reveal_strlit("C");
    lemma_char_reads("C"@);
    reveal_strlit("D");
    lemma_char_reads("D"@);
    reveal_strlit("E");
    lemma_char_reads("E"@);
    reveal_strlit("F");
    lemma_char_reads("F"@);
    reveal_strlit("G");
    lemma_char_reads("G"@);
    reveal_strlit("H");
    lemma_char_reads("H"@);
    reveal_strlit("I");
    lemma_char_reads("I"@);
    reveal_strlit("J");
    lemma_char_reads("J"@);
    reveal_strlit("K");
    lemma_char_reads("K"@);
    reveal_strlit("L");
    lemma_char_reads("L"@);
    reveal_strlit("M");
    lemma_char_reads("M"@);
    reveal_strlit("N");
    lemma_char_reads("N"@);
    reveal_strlit("O");
    lemma_char_reads("O"@);
    reveal_strlit("P");
    lemma_char_reads("P"@);
    reveal_strlit("Q");
    lemma_char_reads("Q"@);
    reveal_strlit("R");
    lemma_char_reads("R"@);
    reveal_strlit("S");
    lemma_char_reads("S"@);
    reveal_strlit("T");
    lemma_char_reads("T"@);
    reveal_strlit("U");
    lemma_char_reads("U"@);
    reveal_strlit("V");
    lemma_char_reads("V"@);
    reveal_strlit("W");
    lemma_char_reads("W"@);
    reveal_strlit("X");
    lemma_char_reads("X"@);
    reveal_strlit("Y");
    lemma_char_reads("Y"@);
    reveal_strlit("Z");
    lemma_char_reads("Z"@);
    reveal_strlit("0");
    lemma_char_reads("0"@);
    reveal_strlit("1");
    lemma_char_reads("1"@);
    reveal_strlit("2");
    lemma_char_reads("2"@);
    reveal_strlit("3");
    lemma_char_reads("3"@);
    reveal_strlit("4");
    lemma_char_reads("4"@);
    reveal_strlit("5");
    lemma_char_reads("5"@);
    reveal_strlit("6");
    lemma_char_reads("6"@);
    reveal_strlit("7");
    lemma_char_reads("7"@);
    reveal_strlit("8");
    lemma_char_reads("8"@);
    reveal_strlit("9");
    lemma_char_reads("9"@);
}

proof fn lemma_numbered_read()
    ensures
        reads_as("Num0"@, KeyCode::Numpad0),
        reads_as("Num1"@, KeyCode::Numpad1),
        reads_as("Num2"@, KeyCode::Numpad2),
        reads_as("Num3"@, KeyCode::Numpad3),
        reads_as("Num4"@, KeyCode::Numpad4),
        reads_as("Num5"@, KeyCode::Numpad5),
        reads_as("Num6"@, KeyCode::Numpad6),
        reads_as("Num7"@, KeyCode::Numpad7),
        reads_as("Num8"@, KeyCode::Numpad8),
        reads_as("Num9"@, KeyCode::Numpad9),
        reads_as("F1"@, KeyCode::F1),
        reads_as("F2"@, KeyCode::F2),
        reads_as("F3"@, KeyCode::F3),
        reads_as("F4"@, KeyCode::F4),
        reads_as("F5"@, KeyCode::F5),
        reads_as("F6"@, KeyCode::F6),
        reads_as("F7"@, KeyCode::F7),
        reads_as("F8"@, KeyCode::F8),
        reads_as("F9"@, KeyCode::F9),
        reads_as("F10"@, KeyCode::F10),
        reads_as("F11"@, KeyCode::F11),
        reads_as("F12"@, KeyCode::F12),
        reads_as("F13"@, KeyCode::F13),
        reads_as("F14"@, KeyCode::F14),
        reads_as("F15"@, KeyCode::F15),
        reads_as("F16"@, KeyCode::F16),
        reads_as("F17"@, KeyCode::F17),
        reads_as("F18"@, KeyCode::F18),
        reads_as("F19"@, KeyCode::F19),
        reads_as("F20"@, KeyCode::F20),
        reads_as("F21"@, KeyCode::F21),
        reads_as("F22"@, KeyCode::F22),
        reads_as("F23"@, KeyCode::F23),
        reads_as("F24"@, KeyCode::F24),
        reads_as("F25"@, KeyCode::F25),
        reads_as("F26"@, KeyCode::F26),
        reads_as("F27"@, KeyCode::F27),
        reads_as("F28"@, KeyCode::F28),
        reads_as("F29"@, KeyCode::F29),
        reads_as("F30"@, KeyCode::F30),
        reads_as("F31"@, KeyCode::F31),
        reads_as("F32"@, KeyCode::F32),
        reads_as("F33"@, KeyCode::F33),
        reads_as("F34"@, KeyCode::F34),
        reads_as("F35"@, KeyCode::F35),
{
    reveal(reads_as);
    reveal_strlit("Num0");
    lemma_numpad_reads("Num0"@);
    reveal_strlit("Num1");
    lemma_numpad_reads("Num1"@);
    reveal_strlit("Num2");
    lemma_numpad_reads("Num2"@);
    reveal_strlit("Num3");
    lemma_numpad_reads("Num3"@);
    reveal_strlit("Num4");
    lemma_numpad_reads("Num4"@);
    reveal_strlit("Num5");
    lemma_numpad_reads("Num5"@);
    reveal_strlit("Num6");
    lemma_numpad_reads("Num6"@);
    reveal_strlit("Num7");
    lemma_numpad_reads("Num7"@);
    reveal_strlit("Num8");
    lemma_numpad_reads("Num8"@);
    reveal_strlit("Num9");
    lemma_numpad_reads("Num9"@);
    reveal_strlit("F1");
    lemma_function_key_reads("F1"@, 1);
    reveal_strlit("F2");
    lemma_function_key_reads("F2"@, 2);
    reveal_strlit("F3");
    lemma_function_key_reads("F3"@, 3);
    reveal_strlit("F4");
    lemma_function_key_reads("F4"@, 4);
    reveal_strlit("F5");
    lemma_function_key_reads("F5"@, 5);
    reveal_strlit("F6");
    lemma_function_key_reads("F6"@, 6);
    reveal_strlit("F7");
    lemma_function_key_reads("F7"@, 7);
    reveal_strlit("F8");
    lemma_function_key_reads("F8"@, 8);
    reveal_strlit("F9");
    lemma_function_key_reads("F9"@, 9);
    reveal_strlit("F10");
    lemma_function_key_reads("F10"@, 10);
    reveal_strlit("F11");
    lemma_function_key_reads("F11"@, 11);
    reveal_strlit("F12");
    lemma_function_key_reads("F12"@, 12);
    reveal_strlit("F13");
    lemma_function_key_reads("F13"@, 13);
    reveal_strlit("F14");
    lemma_function_key_reads("F14"@, 14);
    reveal_strlit("F15");
    lemma_function_key_reads("F15"@, 15);
    reveal_strlit("F16");
    lemma_function_key_reads("F16"@, 16);
    reveal_strlit("F17");
    lemma_function_key_reads("F17"@, 17);
    reveal_strlit("F18");
    lemma_function_key_reads("F18"@, 18);
    reveal_strlit("F19");
    lemma_function_key_reads("F19"@, 19);
    reveal_strlit("F20");
    lemma_function_key_reads("F20"@, 20);
    reveal_strlit("F21");
    lemma_function_key_reads("F21"@, 21);
    reveal_strlit("F22");
    lemma_function_key_reads("F22"@, 22);
    reveal_strlit("F23");
    lemma_function_key_reads("F23"@, 23);
    reveal_strlit("F24");
    lemma_function_key_reads("F24"@, 24);
    reveal_strlit("F25");
    lemma_function_key_reads("F25"@, 25);
    reveal_strlit("F26");
    lemma_function_key_reads("F26"@, 26);
    reveal_strlit("F27");
    lemma_function_key_reads("F27"@, 27);
    reveal_strlit("F28");
    lemma_function_key_reads("F28"@, 28);
    reveal_strlit("F29");
    lemma_function_key_reads("F29"@, 29);
    reveal_strlit("F30");
    lemma_function_key_reads("F30"@, 30);
    reveal_strlit("F31");
    lemma_function_key_reads("F31"@, 31);
    reveal_strlit("F32");
    lemma_function_key_reads("F32"@, 32);
    reveal_strlit("F33");
    lemma_function_key_reads("F33"@, 33);
    reveal_strlit("F34");
    lemma_function_key_reads("F34"@, 34);
    reveal_strlit("F35");
    lemma_function_key_reads("F35"@, 35);
}

/// Every key is the key that its name reads as.
pub proof fn law_key_names_read_back(key: KeyCode)
    ensures
        parse_key(key_name(key)) == Some(key),
{
    if canonical_name(key) is Some {
        lemma_fixed_names_read();
        lemma_letters_read();
        lemma_numbered_read();
        assert(reads_as(key_name(key), key));
        reveal(reads_as);
    } else {
        law_identifiers_read_back(key);
    }
}

/// What the chord syntax needs of a key name: something to read, no white space at either end, and
/// no `+` where a modifier would end.
#[verifier::opaque]
pub open spec fn is_plain_name(name: Seq<char>) -> bool {
    &&& name.len() > 0
    &&& !is_white(name[0])
    &&& !is_white(name[name.len() - 1])
    &&& name.len() > 4 ==> name[3] != '+'
    &&& name.len() > 5 ==> name[4] != '+'
    &&& name.len() > 6 ==> name[5] != '+'
    &&& name.len() > 7 ==> name[6] != '+'
    &&& name.len() > 8 ==> name[7] != '+'
}

proof fn lemma_names_are_plain()
    ensures
        is_plain_name("Backspace"@),
        is_plain_name("Tab"@),
        is_plain_name("Enter"@),
        is_plain_name("Esc"@),
        is_plain_name("Space"@),
        is_plain_name("PageUp"@),
        is_plain_name("PageDown"@),
        is_plain_name("End"@),
        is_plain_name("Home"@),
        is_plain_name("Left"@),
        is_plain_name("Up"@),
        is_plain_name("Right"@),
        is_plain_name("Down"@),
        is_plain_name("Insert"@),
        is_plain_name("Delete"@),
        is_plain_name("Num*"@),
        is_plain_name("Num+"@),
        is_plain_name("NumEnter"@),
        is_plain_name("Num-"@),
        is_plain_name("Num."@),
        is_plain_name("Num/"@),
        is_plain_name(";"@),
        is_plain_name("="@),
        is_plain_name(","@),
        is_plain_name("-"@),
        is_plain_name("."@),
        is_plain_name("/"@),
        is_plain_name("`"@),
        is_plain_name("["@),
        is_plain_name("\\"@),
        is_plain_name("]"@),
        is_plain_name("'"@),
        is_plain_name("A"@),
        is_plain_name("B"@),
        is_plain_name("C"@),
        is_plain_name("D"@),
        is_plain_name("E"@),
        is_plain_name("F"@),
        is_plain_name("G"@),
        is_plain_name("H"@),
        is_plain_name("I"@),
        is_plain_name("J"@),
        is_plain_name("K"@),
        is_plain_name("L"@),
        is_plain_name("M"@),
        is_plain_name("N"@),
        is_plain_name("O"@),
        is_plain_name("P"@),
        is_plain_name("Q"@),
        is_plain_name("R"@),
        is_plain_name("S"@),
        is_plain_name("T"@),
        is_plain_name("U"@),
        is_plain_name("V"@),
        is_plain_name("W"@),
        is_plain_name("X"@),
        is_plain_name("Y"@),
        is_plain_name("Z"@),
        is_plain_name("0"@),
        is_plain_name("1"@),
        is_plain_name("2"@),
        is_plain_name("3"@),
        is_plain_name("4"@),
        is_plain_name("5"@),
        is_plain_name("6"@),
        is_plain_name("7"@),
        is_plain_name("8"@),
        is_plain_name("9"@),
        is_plain_name("Num0"@),
        is_plain_name("Num1"@),
        is_plain_name("Num2"@),
        is_plain_name("Num3"@),
        is_plain_name("Num4"@),
        is_plain_name("Num5"@),
        is_plain_name("Num6"@),
        is_plain_name("Num7"@),
        is_plain_name("Num8"@),
        is_plain_name("Num9"@),
        is_plain_name("F1"@),
        is_plain_name("F2"@),
        is_plain_name("F3"@),
        is_plain_name("F4"@),
        is_plain_name("F5"@),
        is_plain_name("F6"@),
        is_plain_name("F7"@),
        is_plain_name("F8"@),
        is_plain_name("F9"@),
        is_plain_name("F10"@),
        is_plain_name("F11"@),
        is_plain_name("F12"@),
        is_plain_name("F13"@),
        is_plain_name("F14"@),
        is_plain_name("F15"@),
        is_plain_name("F16"@),
        is_plain_name("F17"@),
        is_plain_name("F18"@),
        is_plain_name("F19"@),
        is_plain_name("F20"@),
        is_plain_name("F21"@),
        is_plain_name("F22"@),
        is_plain_name("F23"@),
        is_plain_name("F24"@),
        is_plain_name("F25"@),
        is_plain_name("F26"@),
        is_plain_name("F27"@),
        is_plain_name("F28"@),
        is_plain_name("F29"@),
        is_plain_name("F30"@),
        is_plain_name("F31"@),
        is_plain_name("F32"@),
        is_plain_name("F33"@),
        is_plain_name("F34"@),
        is_plain_name("F35"@),
{
    reveal(is_plain_name);
    reveal_strlit("Backspace");
    reveal_strlit("Tab");
    reveal_strlit("Enter");
    reveal_strlit("Esc");
    reveal_strlit("Space");
    reveal_strlit("PageUp");
    reveal_strlit("PageDown");
    reveal_strlit("End");
    reveal_strlit("Home");
    reveal_strlit("Left");
    reveal_strlit("Up");
    reveal_strlit("Right");
    reveal_strlit("Down");
    reveal_strlit("Insert");
    reveal_strlit("Delete");
    reveal_strlit("Num*");
    reveal_strlit("Num+");
    reveal_strlit("NumEnter");
    reveal_strlit("Num-");
    reveal_strlit("Num.");
    reveal_strlit("Num/");
    reveal_strlit(";");
    reveal_strlit("=");
    reveal_strlit(",");
    reveal_strlit("-");
    reveal_strlit(".");
    reveal_strlit("/");
    reveal_strlit("`");
    reveal_strlit("[");
    reveal_strlit("\\");
    reveal_strlit("]");
    reveal_strlit("'");
    reveal_strlit("A");
    reveal_strlit("B");
    reveal_strlit("C");
    reveal_strlit("D");
    reveal_strlit("E");
    reveal_strlit("F");
    reveal_strlit("G");
    reveal_strlit("H");
    reveal_strlit("I");
    reveal_strlit("J");
    reveal_strlit("K");
    reveal_strlit("L");
    reveal_strlit("M");
    reveal_strlit("N");
    reveal_strlit("O");
    reveal_strlit("P");
    reveal_strlit("Q");
    reveal_strlit("R");
    reveal_strlit("S");
    reveal_strlit("T");
    reveal_strlit("U");
    reveal_strlit("V");
    reveal_strlit("W");
    reveal_strlit("X");
    reveal_strlit("Y");
    reveal_strlit("Z");
    reveal_strlit("0");
    reveal_strlit("1");
    reveal_strlit("2");
    reveal_strlit("3");
    reveal_strlit("4");
    reveal_strlit("5");
    reveal_strlit("6");
    reveal_strlit("7");
    reveal_strlit("8");
    reveal_strlit("9");
    reveal_strlit("Num0");
    reveal_strlit("Num1");
    reveal_strlit("Num2");
    reveal_strlit("Num3");
    reveal_strlit("Num4");
    reveal_strlit("Num5");
    reveal_strlit("Num6");
    reveal_strlit("Num7");
    reveal_strlit("Num8");
    reveal_strlit("Num9");
    reveal_strlit("F1");
    reveal_strlit("F2");
    reveal_strlit("F3");
    reveal_strlit("F4");
    reveal_strlit("F5");
    reveal_strlit("F6");
    reveal_strlit("F7");
    reveal_strlit("F8");
    reveal_strlit("F9");
    reveal_strlit("F10");
    reveal_strlit("F11");
    reveal_strlit("F12");
    reveal_strlit("F13");
    reveal_strlit("F14");
    reveal_strlit("F15");
    reveal_strlit("F16");
    reveal_strlit("F17");
    reveal_strlit("F18");
    reveal_strlit("F19");
    reveal_strlit("F20");
    reveal_strlit("F21");
    reveal_strlit("F22");
    reveal_strlit("F23");
    reveal_strlit("F24");
    reveal_strlit("F25");
    reveal_strlit("F26");
    reveal_strlit("F27");
    reveal_strlit("F28");
    reveal_strlit("F29");
    reveal_strlit("F30");
    reveal_strlit("F31");
    reveal_strlit("F32");
    reveal_strlit("F33");
    reveal_strlit("F34");
    reveal_strlit("F35");
}

proof fn lemma_identifiers_are_plain()
    ensures
        is_plain_name("IntlBackslash"@),
        is_plain_name("IntlRo"@),
        is_plain_name("IntlYen"@),
        is_plain_name("AltLeft"@),
        is_plain_name("AltRight"@),
        is_plain_name("CapsLock"@),
        is_plain_name("ContextMenu"@),
        is_plain_name("ControlLeft"@),
        is_plain_name("ControlRight"@),
        is_plain_name("SuperLeft"@),
        is_plain_name("SuperRight"@),
        is_plain_name("ShiftLeft"@),
        is_plain_name("ShiftRight"@),
        is_plain_name("Convert"@),
        is_plain_name("KanaMode"@),
        is_plain_name("Lang1"@),
        is_plain_name("Lang2"@),
        is_plain_name("Lang3"@),
        is_plain_name("Lang4"@),
        is_plain_name("Lang5"@),
        is_plain_name("NonConvert"@),
        is_plain_name("Help"@),
        is_plain_name("NumLock"@),
        is_plain_name("NumpadBackspace"@),
        is_plain_name("NumpadClear"@),
        is_plain_name("NumpadClearEntry"@),
        is_plain_name("NumpadComma"@),
        is_plain_name("NumpadEqual"@),
        is_plain_name("NumpadHash"@),
        is_plain_name("NumpadMemoryAdd"@),
        is_plain_name("NumpadMemoryClear"@),
        is_plain_name("NumpadMemoryRecall"@),
        is_plain_name("NumpadMemoryStore"@),
        is_plain_name("NumpadMemorySubtract"@),
        is_plain_name("NumpadParenLeft"@),
        is_plain_name("NumpadParenRight"@),
        is_plain_name("NumpadStar"@),
        is_plain_name("Fn"@),
        is_plain_name("FnLock"@),
        is_plain_name("PrintScreen"@),
        is_plain_name("ScrollLock"@),
        is_plain_name("Pause"@),
        is_plain_name("BrowserBack"@),
        is_plain_name("BrowserFavorites"@),
        is_plain_name("BrowserForward"@),
        is_plain_name("BrowserHome"@),
        is_plain_name("BrowserRefresh"@),
        is_plain_name("BrowserSearch"@),
        is_plain_name("BrowserStop"@),
        is_plain_name("Eject"@),
        is_plain_name("LaunchApp1"@),
        is_plain_name("LaunchApp2"@),
        is_plain_name("LaunchMail"@),
        is_plain_name("MediaPlayPause"@),
        is_plain_name("MediaSelect"@),
        is_plain_name("MediaStop"@),
        is_plain_name("MediaTrackNext"@),
        is_plain_name("MediaTrackPrevious"@),
        is_plain_name("Power"@),
        is_plain_name("Sleep"@),
        is_plain_name("AudioVolumeDown"@),
        is_plain_name("AudioVolumeMute"@),
        is_plain_name("AudioVolumeUp"@),
        is_plain_name("WakeUp"@),
        is_plain_name("Meta"@),
        is_plain_name("Hyper"@),
        is_plain_name("Turbo"@),
        is_plain_name("Abort"@),
        is_plain_name("Resume"@),
        is_plain_name("Suspend"@),
        is_plain_name("Again"@),
        is_plain_name("Copy"@),
        is_plain_name("Cut"@),
        is_plain_name("Find"@),
        is_plain_name("Open"@),
        is_plain_name("Paste"@),
        is_plain_name("Props"@),
        is_plain_name("Select"@),
        is_plain_name("Undo"@),
        is_plain_name("Hiragana"@),
        is_plain_name("Katakana"@),
{
    reveal(is_plain_name);
    reveal_strlit("IntlBackslash");
    reveal_strlit("IntlRo");
    reveal_strlit("IntlYen");
    reveal_strlit("AltLeft");
    reveal_strlit("AltRight");
    reveal_strlit("CapsLock");
    reveal_strlit("ContextMenu");
    reveal_strlit("ControlLeft");
    reveal_strlit("ControlRight");
    reveal_strlit("SuperLeft");
    reveal_strlit("SuperRight");
    reveal_strlit("ShiftLeft");
    reveal_strlit("ShiftRight");
    reveal_strlit("Convert");
    reveal_strlit("KanaMode");
    reveal_strlit("Lang1");
    reveal_strlit("Lang2");
    reveal_strlit("Lang3");
    reveal_strlit("Lang4");
    reveal_strlit("Lang5");
    reveal_strlit("NonConvert");
    reveal_strlit("Help");
    reveal_strlit("NumLock");
    reveal_strlit("NumpadBackspace");
    reveal_strlit("NumpadClear");
    reveal_strlit("NumpadClearEntry");
    reveal_strlit("NumpadComma");
    reveal_strlit("NumpadEqual");
    reveal_strlit("NumpadHash");
    reveal_strlit("NumpadMemoryAdd");
    reveal_strlit("NumpadMemoryClear");
    reveal_strlit("NumpadMemoryRecall");
    reveal_strlit("NumpadMemoryStore");
    reveal_strlit("NumpadMemorySubtract");
    reveal_strlit("NumpadParenLeft");
    reveal_strlit("NumpadParenRight");
    reveal_strlit("NumpadStar");
    reveal_strlit("Fn");
    reveal_strlit("FnLock");
    reveal_strlit("PrintScreen");
    reveal_strlit("ScrollLock");
    reveal_strlit("Pause");
    reveal_strlit("BrowserBack");
    reveal_strlit("BrowserFavorites");
    reveal_strlit("BrowserForward");
    reveal_strlit("BrowserHome");
    reveal_strlit("BrowserRefresh");
    reveal_strlit("BrowserSearch");
    reveal_strlit("BrowserStop");
    reveal_strlit("Eject");
    reveal_strlit("LaunchApp1");
    reveal_strlit("LaunchApp2");
    reveal_strlit("LaunchMail");
    reveal_strlit("MediaPlayPause");
    reveal_strlit("MediaSelect");
    reveal_strlit("MediaStop");
    reveal_strlit("MediaTrackNext");
    reveal_strlit("MediaTrackPrevious");
    reveal_strlit("Power");
    reveal_strlit("Sleep");
    reveal_strlit("AudioVolumeDown");
    reveal_strlit("AudioVolumeMute");
    reveal_strlit("AudioVolumeUp");
    reveal_strlit("WakeUp");
    reveal_strlit("Meta");
    reveal_strlit("Hyper");
    reveal_strlit("Turbo");
    reveal_strlit("Abort");
    reveal_strlit("Resume");
    reveal_strlit("Suspend");
    reveal_strlit("Again");
    reveal_strlit("Copy");
    reveal_strlit("Cut");
    reveal_strlit("Find");
    reveal_strlit("Open");
    reveal_strlit("Paste");
    reveal_strlit("Props");
    reveal_strlit("Select");
    reveal_strlit("Undo");
    reveal_strlit("Hiragana");
    reveal_strlit("Katakana");
}

/// A key name never looks like a modifier.
pub proof fn lemma_name_is_plain(key: KeyCode)
    ensures
        is_plain_name(key_name(key)),
{
    lemma_names_are_plain();
    lemma_identifiers_are_plain();
    reveal(key_identifier);
}

/// The empty name reads as no key.
pub proof fn lemma_empty_is_no_key()
    ensures
        parse_key(Seq::<char>::empty()) is None,
{
    let e = Seq::<char>::empty();
    let f = ascii_lower_seq(e);
    assert(f =~= e);
    lemma_fixed_names();
    lemma_no_empty_identifier();
    lemma_no_number(f, seq!['n', 'u', 'm']);
    lemma_no_number(f, seq!['f']);
    assert(after_prefix(f, seq!['n', 'u', 'm']) is None);
    assert(after_prefix(f, seq!['f']) is None);
}

/// A letter or a digit names the key that is called by it, and that key is written so.
pub proof fn law_characters_name_their_key(c: char)
    ensures
        char_key(c) is Some <==> 'a' <= c <= 'z' || is_digit(c),
        char_key(c) matches Some(k) ==> {
            &&& ascii_lower(key_identifier(k).last()) == c
            &&& key_identifier(k)[0] == (if is_digit(c) {
                'D'
            } else {
                'K'
            })
            &&& key_name(k).len() == 1
            &&& ascii_lower(key_name(k)[0]) == c
        },
{
    reveal(key_identifier);
    reveal_strlit("KeyA");
    reveal_strlit("A");
    reveal_strlit("KeyB");
    reveal_strlit("B");
    reveal_strlit("KeyC");
    reveal_strlit("C");
    reveal_strlit("KeyD");
    reveal_strlit("D");
    reveal_strlit("KeyE");
    reveal_strlit("E");
    reveal_strlit("KeyF");
    reveal_strlit("F");
    reveal_strlit("KeyG");
    reveal_strlit("G");
    reveal_strlit("KeyH");
    reveal_strlit("H");
    reveal_strlit("KeyI");
    reveal_strlit("I");
    reveal_strlit("KeyJ");
    reveal_strlit("J");
    reveal_strlit("KeyK");
    reveal_strlit("K");
    reveal_strlit("KeyL");
    reveal_strlit("L");
    reveal_strlit("KeyM");
    reveal_strlit("M");
    reveal_strlit("KeyN");
    reveal_strlit("N");
    reveal_strlit("KeyO");
    reveal_strlit("O");
    reveal_strlit("KeyP");
    reveal_strlit("P");
    reveal_strlit("KeyQ");
    reveal_strlit("Q");
    reveal_strlit("KeyR");
    reveal_strlit("R");
    reveal_strlit("KeyS");
    reveal_strlit("S");
    reveal_strlit("KeyT");
    reveal_strlit("T");
    reveal_strlit("KeyU");
    reveal_strlit("U");
    reveal_strlit("KeyV");
    reveal_strlit("V");
    reveal_strlit("KeyW");
    reveal_strlit("W");
    reveal_strlit("KeyX");
    reveal_strlit("X");
    reveal_strlit("KeyY");
    reveal_strlit("Y");
    reveal_strlit("KeyZ");
    reveal_strlit("Z");
    reveal_strlit("Digit0");
    reveal_strlit("0");
    reveal_strlit("Digit1");
    reveal_strlit("1");
    reveal_strlit("Digit2");
    reveal_strlit("2");
    reveal_strlit("Digit3");
    reveal_strlit("3");
    reveal_strlit("Digit4");
    reveal_strlit("4");
    reveal_strlit("Digit5");
    reveal_strlit("5");
    reveal_strlit("Digit6");
    reveal_strlit("6");
    reveal_strlit("Digit7");
    reveal_strlit("7");
    reveal_strlit("Digit8");
    reveal_strlit("8");
    reveal_strlit("Digit9");
    reveal_strlit("9");
}

/// A number after `Num` names the key of the pad that is called by it, and that key is written
/// so.
pub proof fn law_pad_numbers_name_their_key(n: nat)
    ensures
        numpad_key(n) is Some <==> n < 10,
        numpad_key(n) matches Some(k) ==> {
            &&& key_identifier(k)[0] == 'N'
            &&& key_identifier(k).last() as int == n + 48
            &&& key_name(k).len() == 4
            &&& key_name(k).last() as int == n + 48
        },
{
    reveal(key_identifier);
    reveal_strlit("Numpad0");
    reveal_strlit("Num0");
    reveal_strlit("Numpad1");
    reveal_strlit("Num1");
    reveal_strlit("Numpad2");
    reveal_strlit("Num2");
    reveal_strlit("Numpad3");
    reveal_strlit("Num3");
    reveal_strlit("Numpad4");
    reveal_strlit("Num4");
    reveal_strlit("Numpad5");
    reveal_strlit("Num5");
    reveal_strlit("Numpad6");
    reveal_strlit("Num6");
    reveal_strlit("Numpad7");
    reveal_strlit("Num7");
    reveal_strlit("Numpad8");
    reveal_strlit("Num8");
    reveal_strlit("Numpad9");
    reveal_strlit("Num9");
}

/// Function keys are written as they are called, and so are the keys with a word of their own; an
/// arrow drops the word arrow.
pub proof fn law_words_are_kept(n: nat, key: KeyCode)
    ensures
        function_key(n) is Some <==> 1 <= n <= 35,
        function_key(n) matches Some(k) ==> key_name(k) == key_identifier(k),
        key == KeyCode::Backspace || key == KeyCode::Tab || key == KeyCode::Enter || key
            == KeyCode::Space || key == KeyCode::PageUp || key == KeyCode::PageDown || key
            == KeyCode::End || key == KeyCode::Home || key == KeyCode::Insert || key
            == KeyCode::Delete ==> key_name(key) == key_identifier(key),
        key == KeyCode::ArrowLeft || key == KeyCode::ArrowRight || key == KeyCode::ArrowUp || key
            == KeyCode::ArrowDown ==> key_identifier(key) == "Arrow"@ + key_name(key),
{
    reveal(key_identifier);
    reveal_strlit("Arrow");
    reveal_strlit("ArrowLeft");
    reveal_strlit("ArrowRight");
    reveal_strlit("ArrowUp");
    reveal_strlit("ArrowDown");
    reveal_strlit("Left");
    reveal_strlit("Right");
    reveal_strlit("Up");
    reveal_strlit("Down");
    assert("ArrowLeft"@ =~= "Arrow"@ + "Left"@);
    assert("ArrowRight"@ =~= "Arrow"@ + "Right"@);
    assert("ArrowUp"@ =~= "Arrow"@ + "Up"@);
    assert("ArrowDown"@ =~= "Arrow"@ + "Down"@);
}

} // verus!
