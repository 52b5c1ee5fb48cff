//! Text as the zero-terminated 16-bit units that the Windows API takes and gives.
use vstd::prelude::*;

use crate::text::{chars_of, string_of};

verus! {

/// `char::from_u32`: the character with this code, none for a surrogate or a number beyond the last
/// character.
pub assume_specification[ char::from_u32 ](i: u32) -> (r: Option<char>)
    ensures
        r is Some <==> i <= 0xd7ff || 0xe000 <= i <= 0x10_ffff,
        r matches Some(c) ==> c as int == i,
;

/// The units of a character: itself, or a pair of surrogates.
pub open spec fn units(c: char) -> Seq<u16> {
    let n = c as int;
    if n < 0x1_0000 {
        seq![n as u16]
    } else {
        seq![
            (0xd800 + (n - 0x1_0000) / 0x400) as u16,
            (0xdc00 + (n - 0x1_0000) % 0x400) as u16,
        ]
    }
}

/// The units of a text.
pub open spec fn encoded(s: Seq<char>) -> Seq<u16>
    decreases s.len(),
{
    if s.len() == 0 {
        Seq::empty()
    } else {
        encoded(s.drop_last()) + units(s.last())
    }
}

pub open spec fn is_high(u: u16) -> bool {
    0xd800 <= u < 0xdc00
}

pub open spec fn is_low(u: u16) -> bool {
    0xdc00 <= u < 0xe000
}

/// The code that a pair of surrogates stands for.
pub open spec fn pair_code(high: u16, low: u16) -> int {
    0x1_0000 + (high - 0xd800) * 0x400 + (low - 0xdc00)
}

/// The text of units; a surrogate without its partner becomes the replacement character.
pub open spec fn decoded(w: Seq<u16>) -> Seq<char>
    decreases w.len(),
{
    if w.len() == 0 {
        Seq::empty()
    } else if is_high(w[0]) && w.len() > 1 && is_low(w[1]) {
        seq![pair_code(w[0], w[1]) as char] + decoded(w.skip(2))
    } else if is_high(w[0]) || is_low(w[0]) {
        seq!['\u{fffd}'] + decoded(w.skip(1))
    } else {
        seq![(w[0] as int) as char] + decoded(w.skip(1))
    }
}

/// The units before the first zero.
pub open spec fn before_zero(w: Seq<u16>) -> Seq<u16>
    decreases w.len(),
{
    if w.len() == 0 || w[0] == 0 {
        Seq::empty()
    } else {
        seq![w[0]] + before_zero(w.skip(1))
    }
}

/// The units of a text, with a zero behind.
pub fn wide(s: &str) -> (w: Vec<u16>)
    ensures
        w@ == encoded(s@).push(0),
{
    let chars = chars_of(s);
    let mut w: Vec<u16> = Vec::new();
    let mut i: usize = 0;
    while i < chars.len()
        invariant
            i <= chars.len(),
            chars@ == s@,
            w@ == encoded(s@.take(i as int)),
        decreases chars.len() - i,
    {
        let c = chars[i];
        let n = c as u32;
        proof {
            lemma_char(c);
            assert(n == c as int);
            assert(s@.take(i + 1).drop_last() =~= s@.take(i as int));
            assert(s@.take(i + 1).last() == s@[i as int]);
        }
        let ghost was = w@;
        if n < 0x1_0000 {
            w.push(n as u16);
        } else {
            w.push((0xd800 + (n - 0x1_0000) / 0x400) as u16);
            w.push((0xdc00 + (n - 0x1_0000) % 0x400) as u16);
        }
        assert(w@ =~= was + units(s@[i as int]));
        i += 1;
    }
    assert(s@.take(s@.len() as int) =~= s@);
    w.push(0);
    w
}

/// The text of zero-terminated units.
pub fn decode(w: &Vec<u16>) -> (s: String)
    ensures
        s@ == decoded(before_zero(w@)),
{
    let mut end: usize = 0;
    assert(w@.skip(0) =~= w@);
    assert(w@.take(0) =~= Seq::<u16>::empty());
    while end < w.len() && w[end] != 0
        invariant
            end <= w.len(),
            before_zero(w@) =~= w@.take(end as int) + before_zero(w@.skip(end as int)),
        decreases w.len() - end,
    {
        assert(w@.skip(end as int).skip(1) =~= w@.skip(end + 1));
        assert(w@.take(end + 1) =~= w@.take(end as int).push(w@[end as int]));
        end += 1;
    }
    let ghost body = w@.take(end as int);
    assert(before_zero(w@) =~= body);
    let mut out: Vec<char> = Vec::new();
    let mut i: usize = 0;
    assert(body.skip(0) =~= body);
    while i < end
        invariant
            i <= end <= w.len(),
            body == w@.take(end as int),
            decoded(body) =~= out@ + decoded(body.skip(i as int)),
        decreases end - i,
    {
        let u = w[i];
        let ghost rest = body.skip(i as int);
        let ghost was = out@;
        assert(rest[0] == u);
        assert(rest.skip(1) =~= body.skip(i + 1));
        if 0xd800 <= u && u < 0xdc00 && i + 1 < end && 0xdc00 <= w[i + 1] && w[i + 1] < 0xe000 {
            let low = w[i + 1];
            assert(rest[1] == low);
            assert(rest.skip(2) =~= body.skip(i + 2));
            let code: u32 = 0x1_0000 + (u as u32 - 0xd800) * 0x400 + (low as u32 - 0xdc00);
            out.push(character(code));
            assert(decoded(body) =~= out@ + decoded(body.skip(i + 2)));
            i += 2;
        } else {
            assert(i + 1 < end ==> rest[1] == w@[i + 1]);
            if 0xd800 <= u && u < 0xe000 {
                out.push('\u{fffd}');
            } else {
                out.push(character(u as u32));
            }
            assert(decoded(body) =~= out@ + decoded(body.skip(i + 1)));
            i += 1;
        }
    }
    assert(body.skip(end as int) =~= Seq::<u16>::empty());
    assert(out@ =~= decoded(body));
    string_of(out.as_slice())
}

fn character(code: u32) -> (c: char)
    requires
        code <= 0xd7ff || 0xe000 <= code <= 0x10_ffff,
    ensures
        c == (code as int) as char,
{
    match char::from_u32(code) {
        Some(c) => c,
        None => '\u{fffd}',
    }
}

/// A text without zeros survives the way through 16-bit units.
pub proof fn law_wide_text_reads_back(s: Seq<char>)
    requires
        forall|i: int| 0 <= i < s.len() ==> #[trigger] s[i] != '\0',
    ensures
        decoded(before_zero(encoded(s).push(0))) == s,
{
    lemma_no_zero(s);
    lemma_before_zero(encoded(s));
    lemma_decodes(s);
}

proof fn lemma_char(c: char)
    ensures
        0 <= c as int <= 0xd7ff || 0xe000 <= c as int <= 0x10_ffff,
        (c as int) as char == c,
{
}

proof fn lemma_no_zero(s: Seq<char>)
    requires
        forall|i: int| 0 <= i < s.len() ==> #[trigger] s[i] != '\0',
    ensures
        forall|i: int| 0 <= i < encoded(s).len() ==> #[trigger] encoded(s)[i] != 0,
    decreases s.len(),
{
    if s.len() > 0 {
        assert forall|i: int| 0 <= i < s.drop_last().len() implies #[trigger] s.drop_last()[i]
            != '\0' by {
            assert(s[i] != '\0');
        }
        lemma_no_zero(s.drop_last());
        let c = s.last();
        assert(s[s.len() - 1] != '\0');
        lemma_char(c);
        assert(c as int != 0);
        assert forall|i: int| 0 <= i < units(c).len() implies #[trigger] units(c)[i] != 0 by {}
        assert forall|i: int| 0 <= i < encoded(s).len() implies #[trigger] encoded(s)[i] != 0 by {
            let front = encoded(s.drop_last());
            if i >= front.len() {
                assert(encoded(s)[i] == units(c)[i - front.len()]);
            } else {
                assert(encoded(s)[i] == front[i]);
            }
        }
    }
}

proof fn lemma_before_zero(w: Seq<u16>)
    requires
        forall|i: int| 0 <= i < w.len() ==> #[trigger] w[i] != 0,
    ensures
        before_zero(w.push(0)) == w,
    decreases w.len(),
{
    if w.len() > 0 {
        let rest = w.skip(1);
        assert forall|i: int| 0 <= i < rest.len() implies #[trigger] rest[i] != 0 by {
            assert(w[i + 1] != 0);
        }
        lemma_before_zero(rest);
        assert(w.push(0).skip(1) =~= rest.push(0));
        assert(w[0] != 0);
        assert(before_zero(w.push(0)) =~= seq![w[0]] + rest);
        assert(seq![w[0]] + rest =~= w);
    } else {
        assert(w.push(0)[0] == 0);
        assert(before_zero(w.push(0)) =~= w);
    }
}

proof fn lemma_encoded_front(s: Seq<char>)
    requires
        s.len() > 0,
    ensures
        encoded(s) == units(s[0]) + encoded(s.skip(1)),
    decreases s.len(),
{
    if s.len() == 1 {
        assert(s.drop_last() =~= Seq::<char>::empty());
        assert(s.skip(1) =~= Seq::<char>::empty());
        assert(encoded(s.drop_last()) =~= Seq::<u16>::empty());
        assert(encoded(s.skip(1)) =~= Seq::<u16>::empty());
        assert(encoded(s) =~= units(s[0]) + encoded(s.skip(1)));
    } else {
        let front = s.drop_last();
        lemma_encoded_front(front);
        assert(front[0] == s[0]);
        assert(front.skip(1) =~= s.skip(1).drop_last());
        assert(s.skip(1).last() == s.last());
        assert(encoded(s) =~= units(s[0]) + encoded(s.skip(1)));
    }
}

proof fn lemma_decodes(s: Seq<char>)
    ensures
        decoded(encoded(s)) == s,
    decreases s.len(),
{
    if s.len() > 0 {
        let c = s[0];
        let n = c as int;
        lemma_char(c);
        let rest = encoded(s.skip(1));
        lemma_encoded_front(s);
        lemma_decodes(s.skip(1));
        let w = encoded(s);
        assert(w =~= units(c) + rest);
        if n < 0x1_0000 {
            assert(w[0] == n as u16);
            assert(w.skip(1) =~= rest);
            assert(w[0] as int == n);
        } else {
            let m = n - 0x1_0000;
            assert(0 <= m < 0x10_0000);
            assert(w[0] == (0xd800 + m / 0x400) as u16);
            assert(w[1] == (0xdc00 + m % 0x400) as u16);
            assert(w.skip(2) =~= rest);
            assert((m / 0x400) * 0x400 + m % 0x400 == m);
            assert(pair_code(w[0], w[1]) == n);
        }
        assert(decoded(w) =~= seq![c] + s.skip(1));
        assert(seq![c] + s.skip(1) =~= s);
    } else {
        assert(encoded(s) =~= Seq::<u16>::empty());
        assert(decoded(encoded(s)) =~= s);
    }
}

/// A character takes one unit exactly where it fits in one. Otherwise a high unit comes before a
/// low one, and the pair spells the character.
pub proof fn law_units_spell_their_character(c: char)
    ensures
        units(c).len() == 1 <==> (c as int) < 0x1_0000,
        units(c).len() == 1 ==> units(c)[0] == c as int && !is_high(units(c)[0]) && !is_low(
            units(c)[0],
        ),
        units(c).len() != 1 ==> units(c).len() == 2 && is_high(units(c)[0]) && is_low(units(c)[1])
            && pair_code(units(c)[0], units(c)[1]) == c as int,
{
}

/// The halves of a pair hold ten bits each: the next low half spells the next character, and the
/// next high half the one 1024 further on. The first pair spells the first character that fits
/// in no single unit.
pub proof fn law_pairs_count_through_the_planes(high: u16, low: u16)
    requires
        is_high(high),
        is_low(low),
    ensures
        0x1_0000 <= pair_code(high, low) <= 0x10_ffff,
        is_low((low + 1) as u16) ==> pair_code(high, (low + 1) as u16) == pair_code(high, low) + 1,
        is_high((high + 1) as u16) ==> pair_code((high + 1) as u16, low) == pair_code(high, low)
            + 1024,
        pair_code(0xd800, 0xdc00) == 0x1_0000,
{
}

/// A text ends at its first zero, or where it ends.
pub proof fn law_text_ends_at_the_first_zero(w: Seq<u16>, k: int)
    ensures
        before_zero(w).len() <= w.len(),
        0 <= k < before_zero(w).len() ==> before_zero(w)[k] == w[k] && w[k] != 0,
        before_zero(w).len() < w.len() ==> w[before_zero(w).len() as int] == 0,
    decreases w.len(),
{
    if w.len() > 0 && w[0] != 0 {
        law_text_ends_at_the_first_zero(w.skip(1), k - 1);
    }
}

} // verus!
