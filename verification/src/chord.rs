//! Key chords: a physical key with the modifiers held, matched exactly, written to and read from
//! the configuration as text.
use crate::key_names::{is_plain_name, law_key_names_read_back, lemma_name_is_plain};
use crate::keys::{key_name, key_name_of, parse_key, parse_key_name};
use crate::text::{
    ascii_lower, ascii_lower_seq, chars_of, drop_white, fold_ascii, is_white, skip_white,
    string_of, trim, trim_start,
};
use vstd::prelude::*;
use vstd::std_specs::cmp::PartialEqSpecImpl;
use winit::keyboard::KeyCode;

verus! {

/// One key press: a physical key plus the modifiers held with it. Matched exactly.
#[derive(Debug, Clone, Copy)]
pub struct KeyChord {
    pub key: KeyCode,
    /// The platform's command modifier: Ctrl on Windows and Linux, Cmd on macOS.
    pub primary: bool,
    pub alt: bool,
    pub shift: bool,
}

impl PartialEq for KeyChord {
    fn eq(&self, other: &Self) -> (r: bool) {
        self.key == other.key && self.primary == other.primary && self.alt == other.alt && self.shift
            == other.shift
    }
}

impl Eq for KeyChord {

}

impl PartialEqSpecImpl for KeyChord {
    open spec fn obeys_eq_spec() -> bool {
        true
    }

    open spec fn eq_spec(&self, other: &Self) -> bool {
        *self == *other
    }
}

/// The platform, as far as key chords are spelled and matched differently on it.
#[derive(Debug, Clone, Copy, PartialEq, Eq, Structural)]
pub enum Platform {
    Mac,
    Windows,
    Other,
}

/// How the primary modifier is spelled in the UI of a platform. The configuration always says
/// `Primary+`, so one file serves them all.
pub open spec fn primary_label(platform: Platform) -> Seq<char> {
    match platform {
        Platform::Mac => "Cmd+"@,
        _ => "Ctrl+"@,
    }
}

impl Platform {
    /// The primary modifier's spelling.
    pub fn primary_label(self) -> (s: &'static str)
        ensures
            s@ == primary_label(self),
    {
        match self {
            Platform::Mac => "Cmd+",
            _ => "Ctrl+",
        }
    }
}

/// The modifiers of a chord.
#[derive(Debug, Clone, Copy, PartialEq, Eq, Structural)]
pub enum Modifier {
    Primary,
    Alt,
    Shift,
}

/// `on` gives `text`, otherwise nothing.
pub open spec fn text_if(on: bool, text: Seq<char>) -> Seq<char> {
    if on {
        text
    } else {
        Seq::empty()
    }
}

/// The modifiers of a chord as text, the primary one spelled `primary`.
pub open spec fn modifier_text(chord: KeyChord, primary: Seq<char>) -> Seq<char> {
    text_if(chord.primary, primary) + text_if(chord.alt, "Alt+"@) + text_if(chord.shift, "Shift+"@)
}

/// The configuration text of a chord.
pub open spec fn chord_text(chord: KeyChord) -> Seq<char> {
    modifier_text(chord, "Primary+"@) + key_name(chord.key)
}

/// The arrow glyph of an arrow key.
pub open spec fn arrow_glyph(key: KeyCode) -> Option<char> {
    match key {
        KeyCode::ArrowLeft => Some('\u{2190}'),
        KeyCode::ArrowUp => Some('\u{2191}'),
        KeyCode::ArrowRight => Some('\u{2192}'),
        KeyCode::ArrowDown => Some('\u{2193}'),
        _ => None,
    }
}

/// What the UI shows for a chord: the modifiers spelled for the platform, and an arrow key as its
/// glyph.
pub open spec fn chord_display(chord: KeyChord, platform: Platform) -> Seq<char> {
    modifier_text(chord, primary_label(platform)) + match arrow_glyph(chord.key) {
        Some(g) => seq![g],
        None => key_name(chord.key),
    }
}

/// `rest` starts with `prefix`, of length `n`, in any ASCII case, and goes on behind it.
pub open spec fn has_modifier(rest: Seq<char>, prefix: Seq<char>, n: int) -> bool {
    rest.len() > n && ascii_lower_seq(rest.take(n)) == prefix
}

/// The modifier that `rest` starts with, and the length of its spelling. One that nothing follows
/// is none.
pub open spec fn leading_modifier(rest: Seq<char>) -> Option<(Modifier, int)> {
    if has_modifier(rest, "primary+"@, 8) {
        Some((Modifier::Primary, 8))
    } else if has_modifier(rest, "ctrl+"@, 5) {
        Some((Modifier::Primary, 5))
    } else if has_modifier(rest, "control+"@, 8) {
        Some((Modifier::Primary, 8))
    } else if has_modifier(rest, "cmd+"@, 4) {
        Some((Modifier::Primary, 4))
    } else if has_modifier(rest, "command+"@, 8) {
        Some((Modifier::Primary, 8))
    } else if has_modifier(rest, "alt+"@, 4) {
        Some((Modifier::Alt, 4))
    } else if has_modifier(rest, "option+"@, 7) {
        Some((Modifier::Alt, 7))
    } else if has_modifier(rest, "shift+"@, 6) {
        Some((Modifier::Shift, 6))
    } else {
        None
    }
}

/// `chord` with one more modifier held.
pub open spec fn with_modifier(chord: KeyChord, m: Modifier) -> KeyChord {
    match m {
        Modifier::Primary => KeyChord { primary: true, ..chord },
        Modifier::Alt => KeyChord { alt: true, ..chord },
        Modifier::Shift => KeyChord { shift: true, ..chord },
    }
}

/// The chord that `rest` reads as, with `chord`'s modifiers held besides those written.
pub open spec fn parse_rest(rest: Seq<char>, chord: KeyChord) -> Option<KeyChord>
    decreases rest.len(),
    via parse_rest_shrinks
{
    match leading_modifier(rest) {
        Some((m, n)) => parse_rest(trim_start(rest.skip(n)), with_modifier(chord, m)),
        None => match parse_key(rest) {
            Some(key) => Some(KeyChord { key, ..chord }),
            None => None,
        },
    }
}

#[via_fn]
proof fn parse_rest_shrinks(rest: Seq<char>, chord: KeyChord) {
    if let Some((m, n)) = leading_modifier(rest) {
        lemma_trim_start_len(rest.skip(n));
    }
}

proof fn lemma_trim_start_len(s: Seq<char>)
    ensures
        trim_start(s).len() <= s.len(),
    decreases s.len(),
{
    if s.len() > 0 {
        lemma_trim_start_len(s.skip(1));
    }
}

/// A chord with no modifiers.
pub open spec fn plain_chord(key: KeyCode) -> KeyChord {
    KeyChord { key, primary: false, alt: false, shift: false }
}

/// The chord that a configuration string reads as: modifiers in any spelling, order and ASCII
/// case, then a key name, with white space around each allowed.
pub open spec fn parse_chord(s: Seq<char>) -> Option<KeyChord> {
    parse_rest(trim(s), plain_chord(KeyCode::Escape))
}

/// Whether `rest` is the characters `s[i..j]`, and begins with `prefix` in any ASCII case.
fn modifier_at(s: &Vec<char>, i: usize, j: usize, prefix: &str, n: usize) -> (r: bool)
    requires
        i <= j <= s.len(),
        prefix@.len() == n,
    ensures
        r == has_modifier(s@.subrange(i as int, j as int), prefix@, n as int),
{
    if j - i <= n {
        return false;
    }
    let p = chars_of(prefix);
    let ghost head = ascii_lower_seq(s@.subrange(i as int, j as int).take(n as int));
    let mut k: usize = 0;
    while k < n
        invariant
            k <= n,
            n == p.len(),
            p@ == prefix@,
            i + n < j <= s.len(),
            head == ascii_lower_seq(s@.subrange(i as int, j as int).take(n as int)),
            forall|m: int| 0 <= m < k ==> head[m] == p@[m],
        decreases n - k,
    {
        assert(head[k as int] == ascii_lower(s@[i + k]));
        if fold_ascii(s[i + k]) != p[k] {
            return false;
        }
        k += 1;
    }
    assert(head =~= prefix@);
    true
}

fn leading_modifier_at(s: &Vec<char>, i: usize, j: usize) -> (r: Option<(Modifier, usize)>)
    requires
        i <= j <= s.len(),
    ensures
        r is Some <==> leading_modifier(s@.subrange(i as int, j as int)) is Some,
        r matches Some((m, n)) ==> leading_modifier(s@.subrange(i as int, j as int)) == Some(
            (m, n as int),
        ) && 0 < n < j - i,
{
    proof {
        reveal_strlit("primary+");
        reveal_strlit("ctrl+");
        reveal_strlit("control+");
        reveal_strlit("cmd+");
        reveal_strlit("command+");
        reveal_strlit("alt+");
        reveal_strlit("option+");
        reveal_strlit("shift+");
    }
    if modifier_at(s, i, j, "primary+", 8) {
        Some((Modifier::Primary, 8))
    } else if modifier_at(s, i, j, "ctrl+", 5) {
        Some((Modifier::Primary, 5))
    } else if modifier_at(s, i, j, "control+", 8) {
        Some((Modifier::Primary, 8))
    } else if modifier_at(s, i, j, "cmd+", 4) {
        Some((Modifier::Primary, 4))
    } else if modifier_at(s, i, j, "command+", 8) {
        Some((Modifier::Primary, 8))
    } else if modifier_at(s, i, j, "alt+", 4) {
        Some((Modifier::Alt, 4))
    } else if modifier_at(s, i, j, "option+", 7) {
        Some((Modifier::Alt, 7))
    } else if modifier_at(s, i, j, "shift+", 6) {
        Some((Modifier::Shift, 6))
    } else {
        None
    }
}

impl KeyChord {
    /// A chord with no modifiers.
    pub fn plain(key: KeyCode) -> (r: KeyChord)
        ensures
            r == plain_chord(key),
    {
        KeyChord { key, primary: false, alt: false, shift: false }
    }

    /// The canonical configuration text: `"Primary+Alt+Shift+K"`. A key without a name of its own
    /// is written with its identifier.
    pub fn format(self) -> (s: String)
        ensures
            s@ == chord_text(self),
    {
        let mut s = self.format_with("Primary+");
        s.append(key_name_of(self.key).as_str());
        s
    }

    /// The text the UI shows: like [`KeyChord::format`], with the primary modifier spelled for
    /// the platform and glyphs for the arrow keys.
    pub fn display(self, platform: Platform) -> (s: String)
        ensures
            s@ == chord_display(self, platform),
    {
        let mut s = self.format_with(platform.primary_label());
        let arrow = match self.key {
            KeyCode::ArrowLeft => Some('\u{2190}'),
            KeyCode::ArrowUp => Some('\u{2191}'),
            KeyCode::ArrowRight => Some('\u{2192}'),
            KeyCode::ArrowDown => Some('\u{2193}'),
            _ => None,
        };
        match arrow {
            Some(g) => {
                let ghost was = s@;
                s.push(g);
                assert(s@ =~= was + seq![g]);
            },
            None => {
                s.append(key_name_of(self.key).as_str());
            },
        }
        s
    }

    fn format_with(self, primary: &str) -> (s: String)
        ensures
            s@ == modifier_text(self, primary@),
    {
        let mut s = String::new();
        if self.primary {
            s.append(primary);
        }
        if self.alt {
            s.append("Alt+");
        }
        if self.shift {
            s.append("Shift+");
        }
        assert(s@ =~= modifier_text(self, primary@));
        s
    }

    /// Read a configuration or UI text; `None` for an empty or unrecognized one. Modifier names
    /// are stripped one at a time, because the key name itself can hold a `+`: `"Ctrl++"` is the
    /// `=` key with Ctrl.
    pub fn parse(s: &str) -> (r: Option<KeyChord>)
        ensures
            r == parse_chord(s@),
    {
        let chars = chars_of(s);
        let mut i = skip_white(&chars, 0, chars.len());
        let j = drop_white(&chars, i, chars.len());
        assert(chars@.subrange(0, chars.len() as int) =~= s@);
        let mut chord = KeyChord::plain(KeyCode::Escape);
        loop
            invariant
                i <= j <= chars.len(),
                parse_rest(chars@.subrange(i as int, j as int), chord) == parse_chord(s@),
            ensures
                leading_modifier(chars@.subrange(i as int, j as int)) is None,
            decreases j - i,
        {
            match leading_modifier_at(&chars, i, j) {
                Some((m, n)) => {
                    assert(chars@.subrange(i as int, j as int).skip(n as int) =~= chars@.subrange(
                        i + n,
                        j as int,
                    ));
                    match m {
                        Modifier::Primary => {
                            chord.primary = true;
                        },
                        Modifier::Alt => {
                            chord.alt = true;
                        },
                        Modifier::Shift => {
                            chord.shift = true;
                        },
                    }
                    i = skip_white(&chars, i + n, j);
                },
                None => {
                    break;
                },
            }
        }
        let rest = string_of(&chars.as_slice()[i..j]);
        match parse_key_name(rest.as_str()) {
            Some(key) => Some(KeyChord { key, primary: chord.primary, alt: chord.alt, shift: chord.shift }),
            None => None,
        }
    }

    /// Whether this chord may not be bound: a bare modifier key is not a chord at all, and the OS
    /// key opens the system menu.
    pub fn is_reserved(self) -> (r: bool)
        ensures
            r == is_reserved_key(self.key),
    {
        match self.key {
            KeyCode::ShiftLeft
            | KeyCode::ShiftRight
            | KeyCode::ControlLeft
            | KeyCode::ControlRight
            | KeyCode::AltLeft
            | KeyCode::AltRight
            | KeyCode::SuperLeft
            | KeyCode::SuperRight
            | KeyCode::Meta
            | KeyCode::Hyper => true,
            _ => false,
        }
    }
}

/// The keys that are no chord of their own: the modifiers and the OS keys.
pub open spec fn is_reserved_key(key: KeyCode) -> bool {
    ||| key is ShiftLeft
    ||| key is ShiftRight
    ||| key is ControlLeft
    ||| key is ControlRight
    ||| key is AltLeft
    ||| key is AltRight
    ||| key is SuperLeft
    ||| key is SuperRight
    ||| key is Meta
    ||| key is Hyper
}

proof fn lemma_no_modifier(name: Seq<char>)
    requires
        is_plain_name(name),
    ensures
        leading_modifier(name) is None,
{
    reveal(is_plain_name);
    reveal_strlit("primary+");
    reveal_strlit("ctrl+");
    reveal_strlit("control+");
    reveal_strlit("cmd+");
    reveal_strlit("command+");
    reveal_strlit("alt+");
    reveal_strlit("option+");
    reveal_strlit("shift+");
    // Each spelling ends in a `+`, which only the `+` folds to.
    assert forall|n: int| 0 < n < name.len() implies #[trigger] ascii_lower_seq(name.take(n))[n - 1]
        == ascii_lower(name[n - 1]) by {}
    assert(ascii_lower_seq(name.take(8)).len() == 8 || name.len() <= 8);
    if has_modifier(name, "primary+"@, 8) {
        assert(ascii_lower_seq(name.take(8))[7] == '+');
    }
    if has_modifier(name, "ctrl+"@, 5) {
        assert(ascii_lower_seq(name.take(5))[4] == '+');
    }
    if has_modifier(name, "control+"@, 8) {
        assert(ascii_lower_seq(name.take(8))[7] == '+');
    }
    if has_modifier(name, "cmd+"@, 4) {
        assert(ascii_lower_seq(name.take(4))[3] == '+');
    }
    if has_modifier(name, "command+"@, 8) {
        assert(ascii_lower_seq(name.take(8))[7] == '+');
    }
    if has_modifier(name, "alt+"@, 4) {
        assert(ascii_lower_seq(name.take(4))[3] == '+');
    }
    if has_modifier(name, "option+"@, 7) {
        assert(ascii_lower_seq(name.take(7))[6] == '+');
    }
    if has_modifier(name, "shift+"@, 6) {
        assert(ascii_lower_seq(name.take(6))[5] == '+');
    }
}

/// One written modifier is read as that modifier, whatever follows it.
proof fn lemma_modifier_reads(m: Modifier, tail: Seq<char>, chord: KeyChord)
    requires
        tail.len() > 0,
        !is_white(tail[0]),
    ensures
        parse_rest(modifier_spelling(m) + tail, chord) == parse_rest(tail, with_modifier(chord, m)),
        modifier_spelling(m).len() > 0,
        !is_white(modifier_spelling(m)[0]),
{
    reveal_strlit("Primary+");
    reveal_strlit("Alt+");
    reveal_strlit("Shift+");
    reveal_strlit("primary+");
    reveal_strlit("ctrl+");
    reveal_strlit("control+");
    reveal_strlit("cmd+");
    reveal_strlit("command+");
    reveal_strlit("alt+");
    reveal_strlit("option+");
    reveal_strlit("shift+");
    let p = modifier_spelling(m);
    let s = p + tail;
    assert(s.skip(p.len() as int) =~= tail);
    match m {
        Modifier::Primary => {
            assert(ascii_lower_seq(s.take(8)) =~= "primary+"@);
        },
        Modifier::Alt => {
            assert(ascii_lower_seq(s.take(4)) =~= "alt+"@);
            lemma_starts_otherwise(s);
        },
        Modifier::Shift => {
            assert(ascii_lower_seq(s.take(6)) =~= "shift+"@);
            lemma_starts_otherwise(s);
        },
    }
}

spec fn modifier_spelling(m: Modifier) -> Seq<char> {
    match m {
        Modifier::Primary => "Primary+"@,
        Modifier::Alt => "Alt+"@,
        Modifier::Shift => "Shift+"@,
    }
}

proof fn lemma_starts_otherwise(s: Seq<char>)
    requires
        s.len() > 0,
        s[0] == 'A' || s[0] == 'S',
    ensures
        !has_modifier(s, "primary+"@, 8),
        !has_modifier(s, "ctrl+"@, 5),
        !has_modifier(s, "control+"@, 8),
        !has_modifier(s, "cmd+"@, 4),
        !has_modifier(s, "command+"@, 8),
        !has_modifier(s, "option+"@, 7),
        s[0] == 'S' ==> !has_modifier(s, "alt+"@, 4),
{
    reveal_strlit("primary+");
    reveal_strlit("ctrl+");
    reveal_strlit("control+");
    reveal_strlit("cmd+");
    reveal_strlit("command+");
    reveal_strlit("alt+");
    reveal_strlit("option+");
    assert(s.len() > 8 ==> ascii_lower_seq(s.take(8))[0] == ascii_lower(s[0]));
    assert(s.len() > 7 ==> ascii_lower_seq(s.take(7))[0] == ascii_lower(s[0]));
    assert(s.len() > 5 ==> ascii_lower_seq(s.take(5))[0] == ascii_lower(s[0]));
    assert(s.len() > 4 ==> ascii_lower_seq(s.take(4))[0] == ascii_lower(s[0]));
}

/// Whether `rest` reads as `out` with `held`'s modifiers held.
#[verifier::opaque]
spec fn rest_reads(rest: Seq<char>, held: KeyChord, out: KeyChord) -> bool {
    parse_rest(rest, held) == Some(out)
}

/// A modifier that is written only where it is held is read where it is held.
proof fn lemma_optional_modifier_reads(
    on: bool,
    m: Modifier,
    tail: Seq<char>,
    chord: KeyChord,
    held: KeyChord,
    out: KeyChord,
)
    requires
        tail.len() > 0,
        !is_white(tail[0]),
        held == (if on {
            with_modifier(chord, m)
        } else {
            chord
        }),
        rest_reads(tail, held, out),
    ensures
        rest_reads(text_if(on, modifier_spelling(m)) + tail, chord, out),
        (text_if(on, modifier_spelling(m)) + tail).len() > 0,
        !is_white((text_if(on, modifier_spelling(m)) + tail)[0]),
        (text_if(on, modifier_spelling(m)) + tail).last() == tail.last(),
{
    reveal(rest_reads);
    if on {
        lemma_modifier_reads(m, tail, chord);
    } else {
        assert(text_if(on, modifier_spelling(m)) + tail =~= tail);
    }
}

proof fn lemma_trimmed(t: Seq<char>)
    requires
        t.len() > 0,
        !is_white(t[0]),
        !is_white(t.last()),
    ensures
        trim(t) == t,
{
}

proof fn lemma_name_reads(chord: KeyChord, held: KeyChord)
    requires
        held == (KeyChord { key: held.key, ..chord }),
    ensures
        rest_reads(key_name(chord.key), held, chord),
        key_name(chord.key).len() > 0,
        !is_white(key_name(chord.key)[0]),
        !is_white(key_name(chord.key).last()),
{
    let name = key_name(chord.key);
    law_key_names_read_back(chord.key);
    lemma_name_is_plain(chord.key);
    lemma_no_modifier(name);
    reveal(is_plain_name);
    reveal(rest_reads);
}

/// A name that reads as `chord` with its modifiers held does so with them written before it.
proof fn lemma_assembled(chord: KeyChord, name: Seq<char>)
    requires
        rest_reads(name, KeyChord { key: KeyCode::Escape, ..chord }, chord),
        name.len() > 0,
        !is_white(name[0]),
        !is_white(name.last()),
    ensures
        parse_chord(modifier_text(chord, "Primary+"@) + name) == Some(chord),
{
    let c0 = plain_chord(KeyCode::Escape);
    let c1 = KeyChord { primary: chord.primary, ..c0 };
    let c2 = KeyChord { alt: chord.alt, ..c1 };
    let c3 = KeyChord { shift: chord.shift, ..c2 };
    let t_shift = text_if(chord.shift, "Shift+"@) + name;
    let t_alt = text_if(chord.alt, "Alt+"@) + t_shift;
    let t = text_if(chord.primary, "Primary+"@) + t_alt;
    lemma_optional_modifier_reads(chord.shift, Modifier::Shift, name, c2, c3, chord);
    lemma_optional_modifier_reads(chord.alt, Modifier::Alt, t_shift, c1, c2, chord);
    lemma_optional_modifier_reads(chord.primary, Modifier::Primary, t_alt, c0, c1, chord);
    lemma_trimmed(t);
    assert(t =~= modifier_text(chord, "Primary+"@) + name);
    reveal(rest_reads);
}

/// Every chord is the chord that its configuration text reads as.
pub proof fn law_chord_text_reads_back(chord: KeyChord)
    ensures
        parse_chord(chord_text(chord)) == Some(chord),
{
    lemma_name_reads(chord, KeyChord { key: KeyCode::Escape, ..chord });
    lemma_assembled(chord, key_name(chord.key));
}

/// A modifier switches itself on and nothing else, and the order of modifiers counts for nothing.
pub proof fn law_modifiers_add_up(chord: KeyChord, m: Modifier, n: Modifier)
    ensures
        with_modifier(chord, m).key == chord.key,
        with_modifier(chord, m).primary <==> chord.primary || m == Modifier::Primary,
        with_modifier(chord, m).alt <==> chord.alt || m == Modifier::Alt,
        with_modifier(chord, m).shift <==> chord.shift || m == Modifier::Shift,
        with_modifier(with_modifier(chord, m), n) == with_modifier(with_modifier(chord, n), m),
        with_modifier(with_modifier(chord, m), m) == with_modifier(chord, m),
        !plain_chord(chord.key).primary && !plain_chord(chord.key).alt && !plain_chord(
            chord.key,
        ).shift && plain_chord(chord.key).key == chord.key,
{
}

/// A written modifier ends in a plus and is told by its first letter: alternate and option,
/// shift, and all the names of the primary one.
pub proof fn law_modifiers_are_told_by_their_letter(rest: Seq<char>)
    ensures
        leading_modifier(rest) matches Some((m, n)) ==> {
            &&& 4 <= n < rest.len()
            &&& ascii_lower(rest[n - 1]) == '+'
            &&& m == Modifier::Alt <==> ascii_lower(rest[0]) == 'a' || ascii_lower(rest[0]) == 'o'
            &&& m == Modifier::Shift <==> ascii_lower(rest[0]) == 's'
            &&& m == Modifier::Primary <==> ascii_lower(rest[0]) == 'p' || ascii_lower(rest[0])
                == 'c'
        },
{
    reveal_strlit("primary+");
    reveal_strlit("ctrl+");
    reveal_strlit("control+");
    reveal_strlit("cmd+");
    reveal_strlit("command+");
    reveal_strlit("alt+");
    reveal_strlit("option+");
    reveal_strlit("shift+");
    if leading_modifier(rest) is Some {
        let (m, n) = leading_modifier(rest)->0;
        let low = ascii_lower_seq(rest.take(n));
        assert(low[0] == ascii_lower(rest[0]));
        assert(low[n - 1] == ascii_lower(rest[n - 1]));
    }
}

/// White space around a chord counts for nothing.
pub proof fn law_white_space_before_a_chord(s: Seq<char>, c: char)
    requires
        crate::text::is_white(c),
    ensures
        parse_chord(seq![c] + s) == parse_chord(s),
{
    assert((seq![c] + s).skip(1) =~= s);
}

/// On display the four arrows are drawn, each its own way, and every other key is named; the
/// modifiers come before the key in one order.
pub proof fn law_arrows_are_drawn(chord: KeyChord, platform: Platform)
    ensures
        arrow_glyph(chord.key) is Some <==> chord.key == KeyCode::ArrowLeft || chord.key
            == KeyCode::ArrowRight || chord.key == KeyCode::ArrowUp || chord.key
            == KeyCode::ArrowDown,
        arrow_glyph(KeyCode::ArrowLeft)->0 as int + 1 == arrow_glyph(KeyCode::ArrowUp)->0 as int,
        arrow_glyph(KeyCode::ArrowUp)->0 as int + 1 == arrow_glyph(KeyCode::ArrowRight)->0 as int,
        arrow_glyph(KeyCode::ArrowRight)->0 as int + 1 == arrow_glyph(KeyCode::ArrowDown)->0 as int,
        arrow_glyph(KeyCode::ArrowLeft) == Some('\u{2190}'),
        arrow_glyph(chord.key) matches Some(g) ==> chord_display(chord, platform).last() == g,
        arrow_glyph(chord.key) is None && !chord.primary ==> chord_display(chord, platform)
            == chord_text(chord),
        !chord.primary && !chord.alt && !chord.shift && arrow_glyph(chord.key) is None
            ==> chord_display(chord, platform) == key_name(chord.key),
{
    let m = modifier_text(chord, primary_label(platform));
    if !chord.primary {
        assert(m =~= modifier_text(chord, "Primary+"@));
        if !chord.alt && !chord.shift {
            assert(m =~= Seq::<char>::empty());
            assert(chord_display(chord, platform) =~= match arrow_glyph(chord.key) {
                Some(g) => seq![g],
                None => key_name(chord.key),
            });
        }
    }
}

/// The modifiers are written in one order: primary, then alternate, then shift; the primary one
/// is Command on a Mac and Control elsewhere.
pub proof fn law_modifier_order(key: KeyCode, platform: Platform)
    ensures
        ({
            let all = KeyChord { key, primary: true, alt: true, shift: true };
            let p = primary_label(platform);
            let t = modifier_text(all, p);
            &&& t.take(p.len() as int) == p
            &&& t[p.len() as int] == 'A'
            &&& t[p.len() as int + 4] == 'S'
            &&& t.last() == '+'
            &&& p[1] == 'm' <==> platform == Platform::Mac
            &&& p[1] == 't' <==> platform != Platform::Mac
            &&& p.last() == '+'
        }),
{
    reveal_strlit("Cmd+");
    reveal_strlit("Ctrl+");
    reveal_strlit("Alt+");
    reveal_strlit("Shift+");
    let all = KeyChord { key, primary: true, alt: true, shift: true };
    let p = primary_label(platform);
    assert(modifier_text(all, p).take(p.len() as int) =~= p);
}

} // verus!
