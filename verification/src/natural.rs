//! File-manager name order: case-insensitive, with embedded digit runs compared by value.
use std::cmp::Ordering;

use crate::text::{ascii_lower, ascii_lower_seq, chars_of, fold_ascii, is_digit};
use vstd::prelude::*;

verus! {

/// How one piece of a name sorts: a plain character by its folded code, a digit run at the code
/// of `0`, then by its value, then by its length.
pub type SortKey = (int, int, int);

/// The number of digits that `s` starts with.
pub open spec fn run_len(s: Seq<char>) -> nat
    decreases s.len(),
{
    if s.len() > 0 && is_digit(s[0]) {
        1 + run_len(s.skip(1))
    } else {
        0
    }
}

/// The value of a decimal digit run.
pub open spec fn number(s: Seq<char>) -> nat
    decreases s.len(),
{
    if s.len() == 0 {
        0
    } else {
        number(s.drop_last()) * 10 + digit_value(s.last())
    }
}

pub open spec fn digit_value(c: char) -> nat {
    if is_digit(c) {
        (c as u32 - 48) as nat
    } else {
        0
    }
}

/// `name` as the sequence of keys by which it sorts: one per digit run and one per other
/// character.
pub open spec fn natural_keys(name: Seq<char>) -> Seq<SortKey>
    decreases name.len(),
    via natural_keys_shrinks
{
    if name.len() == 0 {
        Seq::empty()
    } else if is_digit(name[0]) {
        let n = run_len(name) as int;
        seq![(48int, number(name.take(n)) as int, n)] + natural_keys(name.skip(n))
    } else {
        seq![(ascii_lower(name[0]) as int, 0int, 0int)] + natural_keys(name.skip(1))
    }
}

#[via_fn]
proof fn natural_keys_shrinks(name: Seq<char>) {
    lemma_run_len(name);
}

/// The sign of the comparison of two keys, field by field.
pub open spec fn key_sign(x: SortKey, y: SortKey) -> int {
    if x.0 != y.0 {
        sign(x.0 - y.0)
    } else if x.1 != y.1 {
        sign(x.1 - y.1)
    } else {
        sign(x.2 - y.2)
    }
}

pub open spec fn sign(d: int) -> int {
    if d < 0 {
        -1
    } else if d == 0 {
        0
    } else {
        1
    }
}

/// The sign of the lexicographic comparison of two key sequences.
pub open spec fn keys_sign(a: Seq<SortKey>, b: Seq<SortKey>) -> int
    decreases a.len(),
{
    if a.len() == 0 || b.len() == 0 {
        sign(a.len() - b.len())
    } else if key_sign(a[0], b[0]) != 0 {
        key_sign(a[0], b[0])
    } else {
        keys_sign(a.skip(1), b.skip(1))
    }
}

/// The sign of the natural comparison of two names: `-1` where `a` sorts first, `1` where `b`
/// does, `0` where neither does.
pub open spec fn natural_order(a: Seq<char>, b: Seq<char>) -> int {
    keys_sign(natural_keys(a), natural_keys(b))
}

/// A sign as std's three-way outcome.
pub open spec fn outcome(s: int) -> Ordering {
    if s < 0 {
        Ordering::Less
    } else if s == 0 {
        Ordering::Equal
    } else {
        Ordering::Greater
    }
}

proof fn lemma_run_len(s: Seq<char>)
    ensures
        run_len(s) <= s.len(),
        forall|k: int| 0 <= k < run_len(s) ==> is_digit(#[trigger] s[k]),
        run_len(s) < s.len() ==> !is_digit(s[run_len(s) as int]),
        s.len() > 0 && is_digit(s[0]) ==> run_len(s) > 0,
    decreases s.len(),
{
    if s.len() > 0 && is_digit(s[0]) {
        let t = s.skip(1);
        lemma_run_len(t);
        assert forall|k: int| 0 <= k < run_len(s) implies is_digit(#[trigger] s[k]) by {
            if k > 0 {
                assert(t[k - 1] == s[k]);
            }
        }
        if run_len(s) < s.len() {
            assert(t[run_len(t) as int] == s[run_len(s) as int]);
        }
    }
}

/// A run that starts with `n` digits followed by a non-digit or the end has length `n`.
proof fn lemma_run_len_is(s: Seq<char>, n: int)
    requires
        0 <= n <= s.len(),
        forall|k: int| 0 <= k < n ==> is_digit(#[trigger] s[k]),
        n < s.len() ==> !is_digit(s[n]),
    ensures
        run_len(s) == n,
{
    lemma_run_len(s);
    if run_len(s) < n {
        assert(is_digit(s[run_len(s) as int]));
    }
    if run_len(s) > n {
        assert(is_digit(s[n]));
    }
}

spec fn pow10(n: nat) -> nat
    decreases n,
{
    if n == 0 {
        1
    } else {
        10 * pow10((n - 1) as nat)
    }
}

proof fn lemma_pow10_grows(a: nat, b: nat)
    requires
        a <= b,
    ensures
        0 < pow10(a) <= pow10(b),
    decreases b,
{
    if a < b {
        lemma_pow10_grows(a, (b - 1) as nat);
    } else if b > 0 {
        lemma_pow10_grows((a - 1) as nat, (b - 1) as nat);
    }
}

proof fn lemma_number_below(s: Seq<char>)
    ensures
        number(s) < pow10(s.len()),
    decreases s.len(),
{
    if s.len() > 0 {
        lemma_number_below(s.drop_last());
    }
}

proof fn lemma_number_at_least(s: Seq<char>)
    requires
        s.len() > 0,
        digit_value(s[0]) > 0,
    ensures
        number(s) >= pow10((s.len() - 1) as nat),
    decreases s.len(),
{
    if s.len() > 1 {
        assert(s.drop_last()[0] == s[0]);
        lemma_number_at_least(s.drop_last());
    } else {
        assert(number(s.drop_last()) == 0);
    }
}

proof fn lemma_number_skip_zero(s: Seq<char>)
    requires
        s.len() > 0,
        digit_value(s[0]) == 0,
    ensures
        number(s.skip(1)) == number(s),
    decreases s.len(),
{
    if s.len() == 1 {
        assert(s.skip(1) =~= Seq::<char>::empty());
        assert(s.drop_last() =~= Seq::<char>::empty());
    } else {
        lemma_number_skip_zero(s.drop_last());
        assert(s.drop_last().skip(1) =~= s.skip(1).drop_last());
    }
}

pub proof fn lemma_number_take(s: Seq<char>, k: int)
    requires
        0 <= k < s.len(),
    ensures
        number(s.take(k + 1)) == number(s.take(k)) * 10 + digit_value(s[k]),
{
    assert(s.take(k + 1).drop_last() =~= s.take(k));
}

/// Two digit runs of one length and one value are the same run.
proof fn lemma_number_injective(p: Seq<char>, q: Seq<char>)
    requires
        p.len() == q.len(),
        forall|k: int| 0 <= k < p.len() ==> is_digit(#[trigger] p[k]),
        forall|k: int| 0 <= k < q.len() ==> is_digit(#[trigger] q[k]),
        number(p) == number(q),
    ensures
        p == q,
    decreases p.len(),
{
    if p.len() > 0 {
        let (x, y) = (p.drop_last(), q.drop_last());
        assert(is_digit(p[p.len() - 1]) && is_digit(q[q.len() - 1]));
        assert(number(x) == number(y));
        assert forall|k: int| 0 <= k < x.len() implies is_digit(#[trigger] x[k]) by {
            assert(is_digit(p[k]));
        }
        assert forall|k: int| 0 <= k < y.len() implies is_digit(#[trigger] y[k]) by {
            assert(is_digit(q[k]));
        }
        lemma_number_injective(x, y);
        assert(p =~= x.push(p.last()));
        assert(q =~= y.push(q.last()));
    } else {
        assert(p =~= q);
    }
}

/// Compare the digit runs `a[i..ei]` and `b[j..ej]` by value.
fn compare_runs(a: &Vec<char>, i: usize, ei: usize, b: &Vec<char>, j: usize, ej: usize) -> (r: i8)
    requires
        i <= ei <= a.len(),
        j <= ej <= b.len(),
        forall|k: int| i <= k < ei ==> is_digit(#[trigger] a@[k]),
        forall|k: int| j <= k < ej ==> is_digit(#[trigger] b@[k]),
    ensures
        r == sign(number(a@.subrange(i as int, ei as int)) - number(b@.subrange(j as int, ej as int))),
{
    let si = skip_zeros(a, i, ei);
    let sj = skip_zeros(b, j, ej);
    let ghost p = a@.subrange(si as int, ei as int);
    let ghost q = b@.subrange(sj as int, ej as int);
    proof {
        lemma_number_below(p);
        lemma_number_below(q);
        if p.len() > 0 {
            assert(p[0] == a@[si as int]);
            lemma_number_at_least(p);
        }
        if q.len() > 0 {
            assert(q[0] == b@[sj as int]);
            lemma_number_at_least(q);
        }
    }
    if ei - si < ej - sj {
        proof {
            lemma_pow10_grows(p.len(), (q.len() - 1) as nat);
        }
        return -1;
    }
    if ei - si > ej - sj {
        proof {
            lemma_pow10_grows(q.len(), (p.len() - 1) as nat);
        }
        return 1;
    }
    let n: usize = ei - si;
    let mut k: usize = 0;
    let mut r: i8 = 0;
    while k < n
        invariant
            k <= n,
            n == p.len(),
            n == q.len(),
            n == ei - si,
            n == ej - sj,
            ei <= a.len(),
            ej <= b.len(),
            si <= ei,
            sj <= ej,
            p == a@.subrange(si as int, ei as int),
            q == b@.subrange(sj as int, ej as int),
            forall|k: int| si <= k < ei ==> is_digit(#[trigger] a@[k]),
            forall|k: int| sj <= k < ej ==> is_digit(#[trigger] b@[k]),
            r == sign(number(p.take(k as int)) - number(q.take(k as int))),
        decreases n - k,
    {
        proof {
            lemma_number_take(p, k as int);
            lemma_number_take(q, k as int);
            assert(p[k as int] == a@[si + k]);
            assert(q[k as int] == b@[sj + k]);
        }
        if r == 0 {
            let ca = a[si + k];
            let cb = b[sj + k];
            if ca < cb {
                r = -1;
            } else if ca > cb {
                r = 1;
            }
        }
        k += 1;
    }
    proof {
        assert(p.take(n as int) =~= p);
        assert(q.take(n as int) =~= q);
    }
    r
}

/// The start of `a[i..e]` past its leading zeros.
fn skip_zeros(a: &Vec<char>, i: usize, e: usize) -> (s: usize)
    requires
        i <= e <= a.len(),
        forall|k: int| i <= k < e ==> is_digit(#[trigger] a@[k]),
    ensures
        i <= s <= e,
        number(a@.subrange(s as int, e as int)) == number(a@.subrange(i as int, e as int)),
        s < e ==> digit_value(a@[s as int]) > 0,
{
    let mut s = i;
    while s < e && a[s] == '0'
        invariant
            i <= s <= e <= a.len(),
            forall|k: int| i <= k < e ==> is_digit(#[trigger] a@[k]),
            number(a@.subrange(s as int, e as int)) == number(a@.subrange(i as int, e as int)),
        decreases e - s,
    {
        proof {
            let t = a@.subrange(s as int, e as int);
            lemma_number_skip_zero(t);
            assert(t.skip(1) =~= a@.subrange(s + 1, e as int));
        }
        s += 1;
    }
    assert(s < e ==> is_digit(a@[s as int]));
    s
}

/// The end of the digit run that starts at `i`.
fn leading_digits(a: &Vec<char>, i: usize) -> (e: usize)
    requires
        i <= a.len(),
    ensures
        i <= e <= a.len(),
        e - i == run_len(a@.skip(i as int)),
        forall|k: int| i <= k < e ==> is_digit(#[trigger] a@[k]),
{
    let mut e = i;
    while e < a.len() && '0' <= a[e] && a[e] <= '9'
        invariant
            i <= e <= a.len(),
            forall|k: int| i <= k < e ==> is_digit(#[trigger] a@[k]),
        decreases a.len() - e,
    {
        e += 1;
    }
    proof {
        lemma_run_len_is(a@.skip(i as int), e - i);
    }
    e
}

/// The sign of [`natural_order`] on two names given as characters.
fn compare_names(a: &Vec<char>, b: &Vec<char>) -> (r: i8)
    ensures
        r == natural_order(a@, b@),
{
    let mut i: usize = 0;
    let mut j: usize = 0;
    proof {
        assert(a@.skip(0) =~= a@);
        assert(b@.skip(0) =~= b@);
    }
    while i < a.len() && j < b.len()
        invariant
            i <= a.len(),
            j <= b.len(),
            natural_order(a@, b@) == natural_order(a@.skip(i as int), b@.skip(j as int)),
        decreases a.len() - i,
    {
        let ca = a[i];
        let cb = b[j];
        let ghost x = a@.skip(i as int);
        let ghost y = b@.skip(j as int);
        let ghost ka = natural_keys(x);
        let ghost kb = natural_keys(y);
        proof {
            lemma_run_len(x);
            lemma_run_len(y);
            assert(x[0] == ca && y[0] == cb);
        }
        if '0' <= ca && ca <= '9' && '0' <= cb && cb <= '9' {
            let ei = leading_digits(a, i);
            let ej = leading_digits(b, j);
            proof {
                assert(x.take(ei - i) =~= a@.subrange(i as int, ei as int));
                assert(y.take(ej - j) =~= b@.subrange(j as int, ej as int));
                assert(x.skip(ei - i) =~= a@.skip(ei as int));
                assert(y.skip(ej - j) =~= b@.skip(ej as int));
                assert(ka.skip(1) =~= natural_keys(a@.skip(ei as int)));
                assert(kb.skip(1) =~= natural_keys(b@.skip(ej as int)));
            }
            let by_value = compare_runs(a, i, ei, b, j, ej);
            if by_value != 0 {
                return by_value;
            }
            if ei - i < ej - j {
                return -1;
            }
            if ei - i > ej - j {
                return 1;
            }
            i = ei;
            j = ej;
        } else {
            let la = fold_ascii(ca);
            let lb = fold_ascii(cb);
            if la < lb {
                return -1;
            }
            if la > lb {
                return 1;
            }
            proof {
                assert(x.skip(1) =~= a@.skip(i + 1));
                assert(y.skip(1) =~= b@.skip(j + 1));
                assert(ka.skip(1) =~= natural_keys(a@.skip(i + 1)));
                assert(kb.skip(1) =~= natural_keys(b@.skip(j + 1)));
            }
            i += 1;
            j += 1;
        }
    }
    proof {
        if i < a.len() {
            assert(natural_keys(a@.skip(i as int)).len() > 0);
        }
        if j < b.len() {
            assert(natural_keys(b@.skip(j as int)).len() > 0);
        }
    }
    if i < a.len() {
        1
    } else if j < b.len() {
        -1
    } else {
        0
    }
}

/// Compare two file names the way a file manager does: case-insensitively, with embedded digit
/// runs compared by numeric value, so that `img2` sorts before `img10`. Runs of one value are
/// ordered shorter first, so `img1` comes before `img01`.
pub fn natural_cmp(a: &str, b: &str) -> (r: Ordering)
    ensures
        r == outcome(natural_order(a@, b@)),
{
    let s = compare_names(&chars_of(a), &chars_of(b));
    if s < 0 {
        Ordering::Less
    } else if s == 0 {
        Ordering::Equal
    } else {
        Ordering::Greater
    }
}

proof fn lemma_keys_reverse(a: Seq<SortKey>, b: Seq<SortKey>)
    ensures
        keys_sign(a, b) == -keys_sign(b, a),
        -1 <= keys_sign(a, b) <= 1,
    decreases a.len(),
{
    if a.len() > 0 && b.len() > 0 {
        lemma_keys_reverse(a.skip(1), b.skip(1));
    }
}

proof fn lemma_keys_chain(a: Seq<SortKey>, b: Seq<SortKey>, c: Seq<SortKey>)
    requires
        keys_sign(a, b) <= 0,
        keys_sign(b, c) <= 0,
    ensures
        keys_sign(a, c) <= 0,
        keys_sign(a, b) < 0 || keys_sign(b, c) < 0 ==> keys_sign(a, c) < 0,
    decreases a.len(),
{
    if a.len() > 0 && b.len() > 0 && c.len() > 0 {
        if key_sign(a[0], b[0]) == 0 && key_sign(b[0], c[0]) == 0 {
            lemma_keys_chain(a.skip(1), b.skip(1), c.skip(1));
        }
    }
}

proof fn lemma_keys_equal(a: Seq<SortKey>, b: Seq<SortKey>)
    ensures
        keys_sign(a, b) == 0 <==> a == b,
    decreases a.len(),
{
    if a.len() == 0 && b.len() == 0 {
        assert(a =~= b);
    } else if a.len() > 0 && b.len() > 0 {
        lemma_keys_equal(a.skip(1), b.skip(1));
        if keys_sign(a, b) == 0 {
            assert(a =~= seq![a[0]] + a.skip(1));
            assert(b =~= seq![b[0]] + b.skip(1));
        }
    }
}

/// Comparing in the other direction gives the opposite outcome, and a name compares equal to
/// itself: one of two names sorts first, or neither does.
pub proof fn law_natural_order_reverses(a: Seq<char>, b: Seq<char>)
    ensures
        natural_order(a, b) == -natural_order(b, a),
        natural_order(a, a) == 0,
{
    lemma_keys_reverse(natural_keys(a), natural_keys(b));
    lemma_keys_reverse(natural_keys(a), natural_keys(a));
}

/// The order is transitive, and strict as soon as one of the two steps is strict.
pub proof fn law_natural_order_chains(a: Seq<char>, b: Seq<char>, c: Seq<char>)
    requires
        natural_order(a, b) <= 0,
        natural_order(b, c) <= 0,
    ensures
        natural_order(a, c) <= 0,
        natural_order(a, b) < 0 || natural_order(b, c) < 0 ==> natural_order(a, c) < 0,
{
    lemma_keys_chain(natural_keys(a), natural_keys(b), natural_keys(c));
}

/// Two names compare equal exactly where they are the same but for ASCII case.
pub proof fn law_natural_order_equal_ignores_case(a: Seq<char>, b: Seq<char>)
    ensures
        natural_order(a, b) == 0 <==> ascii_lower_seq(a) == ascii_lower_seq(b),
{
    lemma_keys_equal(natural_keys(a), natural_keys(b));
    lemma_keys_of_case(a, b);
}

proof fn lemma_keys_of_case(a: Seq<char>, b: Seq<char>)
    ensures
        natural_keys(a) == natural_keys(b) <==> ascii_lower_seq(a) == ascii_lower_seq(b),
    decreases a.len(),
{
    let (x, y) = (ascii_lower_seq(a), ascii_lower_seq(b));
    if a.len() == 0 || b.len() == 0 {
        if a.len() == b.len() {
            assert(x =~= y);
        } else {
            assert(x.len() != y.len());
            assert(natural_keys(a).len() != natural_keys(b).len());
        }
        return;
    }
    let (ka, kb) = (natural_keys(a), natural_keys(b));
    assert(x[0] == ascii_lower(a[0]) && y[0] == ascii_lower(b[0]));
    if is_digit(a[0]) && is_digit(b[0]) {
        lemma_run_len(a);
        lemma_run_len(b);
        let (n, m) = (run_len(a) as int, run_len(b) as int);
        assert(ka[0].2 == n && kb[0].2 == m);
        if x == y {
            // The fold keeps digits and makes none.
            assert forall|k: int| 0 <= k < n implies is_digit(#[trigger] b[k]) by {
                assert(is_digit(a[k]));
                assert(x[k] == y[k]);
            }
            if n < b.len() {
                assert(x[n] == y[n]);
            }
            lemma_run_len_is(b, n);
        }
        if n == m {
            lemma_keys_of_case(a.skip(n), b.skip(n));
            assert(ascii_lower_seq(a.skip(n)) =~= x.skip(n));
            assert(ascii_lower_seq(b.skip(n)) =~= y.skip(n));
            assert(ka.skip(1) =~= natural_keys(a.skip(n)));
            assert(kb.skip(1) =~= natural_keys(b.skip(n)));
            if x == y {
                assert forall|k: int| 0 <= k < n implies a[k] == b[k] by {
                    assert(is_digit(a[k]) && is_digit(b[k]));
                    assert(x[k] == y[k]);
                }
                assert(a.take(n) =~= b.take(n));
            }
            if ka == kb {
                assert forall|k: int| 0 <= k < n implies is_digit(#[trigger] a.take(n)[k]) by {
                    assert(is_digit(a[k]));
                }
                assert forall|k: int| 0 <= k < n implies is_digit(#[trigger] b.take(n)[k]) by {
                    assert(is_digit(b[k]));
                }
                assert(ka[0] == kb[0]);
                lemma_number_injective(a.take(n), b.take(n));
                assert(x.len() == y.len());
                assert forall|k: int| 0 <= k < x.len() implies x[k] == y[k] by {
                    if k < n {
                        assert(a.take(n)[k] == b.take(n)[k]);
                    } else {
                        assert(x.skip(n)[k - n] == y.skip(n)[k - n]);
                    }
                }
                assert(x =~= y);
            }
        }
    } else {
        if is_digit(a[0]) || is_digit(b[0]) {
            lemma_run_len(a);
            lemma_run_len(b);
            assert(x[0] != y[0]);
            assert(ka[0] != kb[0]);
        } else {
            lemma_keys_of_case(a.skip(1), b.skip(1));
            assert(ascii_lower_seq(a.skip(1)) =~= x.skip(1));
            assert(ascii_lower_seq(b.skip(1)) =~= y.skip(1));
            assert(ka.skip(1) =~= natural_keys(a.skip(1)));
            assert(kb.skip(1) =~= natural_keys(b.skip(1)));
            assert(ka[0].0 == ascii_lower(a[0]) as int);
            assert(kb[0].0 == ascii_lower(b[0]) as int);
            if ka == kb {
                assert(x =~= seq![x[0]] + x.skip(1));
                assert(y =~= seq![y[0]] + y.skip(1));
            }
            if x == y {
                assert(ka =~= seq![ka[0]] + ka.skip(1));
                assert(kb =~= seq![kb[0]] + kb.skip(1));
            }
        }
    }
}

/// Whether entry `i` is listed before entry `j`: by name, and in the given order where the names
/// compare equal.
pub open spec fn listed_before(names: Seq<Seq<char>>, i: int, j: int) -> bool {
    let s = natural_order(names[i], names[j]);
    s < 0 || (s == 0 && i < j)
}

/// `order` lists every index of `names` once, in natural order, ties in their given order.
pub open spec fn is_natural_listing(order: Seq<usize>, names: Seq<Seq<char>>) -> bool {
    is_listing_of(order, names, 0, names.len() as int)
}

/// [`is_natural_listing`] of the indices `lo..hi` alone.
pub open spec fn is_listing_of(order: Seq<usize>, names: Seq<Seq<char>>, lo: int, hi: int) -> bool {
    &&& order.len() == hi - lo
    &&& forall|k: int| 0 <= k < order.len() ==> lo <= #[trigger] order[k] < hi
    &&& forall|i: usize| lo <= i < hi ==> #[trigger] order.contains(i)
    &&& forall|k: int, l: int|
        0 <= k < l < order.len() ==> listed_before(
            names,
            #[trigger] order[k] as int,
            #[trigger] order[l] as int,
        )
}

proof fn lemma_listed_before_chains(names: Seq<Seq<char>>, i: int, j: int, k: int)
    requires
        listed_before(names, i, j),
        listed_before(names, j, k),
    ensures
        listed_before(names, i, k),
{
    law_natural_order_chains(names[i], names[j], names[k]);
}

/// There is one natural listing: two listings of the same names are the same sequence.
pub proof fn law_natural_listing_is_unique(a: Seq<usize>, b: Seq<usize>, names: Seq<Seq<char>>)
    requires
        is_natural_listing(a, names),
        is_natural_listing(b, names),
    ensures
        a == b,
{
    if a != b {
        assert(a.len() == b.len());
        let d = first_difference(a, b, 0);
        lemma_first_difference(a, b, 0);
        // Each of the two stands later in the other listing, so each comes before the other.
        assert(b.contains(a[d]));
        let p = choose|p: int| 0 <= p < b.len() && b[p] == a[d];
        assert(a.contains(b[d]));
        let q = choose|q: int| 0 <= q < a.len() && a[q] == b[d];
        if p < d {
            assert(a[p] == b[p]);
            assert(listed_before(names, a[p] as int, a[d] as int));
            law_natural_order_reverses(names[a[d] as int], names[a[d] as int]);
        }
        if q < d {
            assert(a[q] == b[q]);
            assert(listed_before(names, b[q] as int, b[d] as int));
            law_natural_order_reverses(names[b[d] as int], names[b[d] as int]);
        }
        assert(p > d && q > d);
        assert(listed_before(names, b[d] as int, b[p] as int));
        assert(listed_before(names, a[d] as int, a[q] as int));
        law_natural_order_reverses(names[a[d] as int], names[b[d] as int]);
    }
}

spec fn first_difference(a: Seq<usize>, b: Seq<usize>, i: int) -> int
    decreases a.len() - i,
{
    if i < a.len() && a[i] == b[i] {
        first_difference(a, b, i + 1)
    } else {
        i
    }
}

proof fn lemma_first_difference(a: Seq<usize>, b: Seq<usize>, i: int)
    requires
        a.len() == b.len(),
        0 <= i <= a.len(),
        a != b,
        forall|k: int| 0 <= k < i ==> a[k] == b[k],
    ensures
        i <= first_difference(a, b, i) < a.len(),
        a[first_difference(a, b, i)] != b[first_difference(a, b, i)],
        forall|k: int| 0 <= k < first_difference(a, b, i) ==> a[k] == b[k],
    decreases a.len() - i,
{
    if i == a.len() {
        assert(a =~= b);
    } else if a[i] == b[i] {
        lemma_first_difference(a, b, i + 1);
    }
}

/// Whether `a` sorts before `b` or compares equal to it.
fn not_after(a: &Vec<char>, b: &Vec<char>) -> (r: bool)
    ensures
        r == (natural_order(a@, b@) <= 0),
{
    compare_names(a, b) <= 0
}

/// Merge the listings of two neighbouring index ranges.
fn merge_listings(
    names: &Vec<Vec<char>>,
    left: &Vec<usize>,
    right: &Vec<usize>,
    lo: usize,
    mid: usize,
    hi: usize,
) -> (out: Vec<usize>)
    requires
        lo <= mid <= hi <= names.len(),
        is_listing_of(left@, views(names@), lo as int, mid as int),
        is_listing_of(right@, views(names@), mid as int, hi as int),
    ensures
        is_listing_of(out@, views(names@), lo as int, hi as int),
{
    let ghost vs = views(names@);
    let mut out: Vec<usize> = Vec::new();
    let mut i: usize = 0;
    let mut j: usize = 0;
    while i < left.len() || j < right.len()
        invariant
            vs == views(names@),
            lo <= mid <= hi <= names.len(),
            is_listing_of(left@, vs, lo as int, mid as int),
            is_listing_of(right@, vs, mid as int, hi as int),
            i <= left.len(),
            j <= right.len(),
            out.len() == i + j,
            forall|k: int| 0 <= k < out.len() ==> lo <= #[trigger] out@[k] < hi,
            forall|k: int| 0 <= k < i ==> out@.contains(#[trigger] left@[k]),
            forall|k: int| 0 <= k < j ==> out@.contains(#[trigger] right@[k]),
            forall|k: int, l: int|
                0 <= k < l < out.len() ==> listed_before(
                    vs,
                    #[trigger] out@[k] as int,
                    #[trigger] out@[l] as int,
                ),
            forall|k: int, l: int|
                0 <= k < out.len() && i <= l < left.len() ==> listed_before(
                    vs,
                    #[trigger] out@[k] as int,
                    #[trigger] left@[l] as int,
                ),
            forall|k: int, l: int|
                0 <= k < out.len() && j <= l < right.len() ==> listed_before(
                    vs,
                    #[trigger] out@[k] as int,
                    #[trigger] right@[l] as int,
                ),
        decreases left.len() - i + right.len() - j,
    {
        let from_left = if i == left.len() {
            false
        } else if j == right.len() {
            true
        } else {
            not_after(&names[left[i]], &names[right[j]])
        };
        let ghost was = out@;
        if from_left {
            let x = left[i];
            proof {
                if j < right.len() {
                    assert(listed_before(vs, x as int, right@[j as int] as int));
                    assert forall|l: int| j <= l < right.len() implies listed_before(
                        vs,
                        x as int,
                        #[trigger] right@[l] as int,
                    ) by {
                        if l > j {
                            lemma_listed_before_chains(vs, x as int, right@[j as int] as int, right@[l] as int);
                        }
                    }
                }
            }
            out.push(x);
            i += 1;
        } else {
            let x = right[j];
            proof {
                if i < left.len() {
                    law_natural_order_reverses(vs[left@[i as int] as int], vs[x as int]);
                    assert(listed_before(vs, x as int, left@[i as int] as int));
                    assert forall|l: int| i <= l < left.len() implies listed_before(
                        vs,
                        x as int,
                        #[trigger] left@[l] as int,
                    ) by {
                        if l > i {
                            lemma_listed_before_chains(vs, x as int, left@[i as int] as int, left@[l] as int);
                        }
                    }
                }
            }
            out.push(x);
            j += 1;
        }
        proof {
            assert(out@.last() == out@[out.len() - 1]);
            assert forall|y: usize| was.contains(y) implies #[trigger] out@.contains(y) by {
                let k = choose|k: int| 0 <= k < was.len() && was[k] == y;
                assert(out@[k] == y);
            }
            assert(out@.contains(out@.last()));
        }
    }
    proof {
        assert forall|y: usize| lo <= y < hi implies #[trigger] out@.contains(y) by {
            if y < mid {
                assert(left@.contains(y));
            } else {
                assert(right@.contains(y));
            }
        }
    }
    out
}

/// The names as character sequences.
pub open spec fn views(names: Seq<Vec<char>>) -> Seq<Seq<char>> {
    names.map_values(|n: Vec<char>| n@)
}

fn list_range(names: &Vec<Vec<char>>, lo: usize, hi: usize) -> (out: Vec<usize>)
    requires
        lo <= hi <= names.len(),
    ensures
        is_listing_of(out@, views(names@), lo as int, hi as int),
    decreases hi - lo,
{
    if hi - lo == 0 {
        return Vec::new();
    }
    if hi - lo == 1 {
        let mut out: Vec<usize> = Vec::new();
        out.push(lo);
        assert(out@[0] == lo);
        return out;
    }
    let mid = lo + (hi - lo) / 2;
    let left = list_range(names, lo, mid);
    let right = list_range(names, mid, hi);
    merge_listings(names, &left, &right, lo, mid, hi)
}

/// The indices of `names` in natural order; names that compare equal keep their given order.
pub fn natural_listing(names: &Vec<Vec<char>>) -> (order: Vec<usize>)
    ensures
        is_natural_listing(order@, views(names@)),
{
    list_range(names, 0, names.len())
}

proof fn lemma_whole_run(s: Seq<char>)
    requires
        forall|k: int| 0 <= k < s.len() ==> is_digit(#[trigger] s[k]),
    ensures
        run_len(s) == s.len(),
    decreases s.len(),
{
    if s.len() > 0 {
        assert(is_digit(s[0]));
        assert forall|k: int| 0 <= k < s.skip(1).len() implies is_digit(#[trigger] s.skip(1)[k]) by {
            assert(s.skip(1)[k] == s[k + 1]);
        }
        lemma_whole_run(s.skip(1));
    }
}

proof fn lemma_number_keys(s: Seq<char>)
    requires
        s.len() > 0,
        forall|k: int| 0 <= k < s.len() ==> is_digit(#[trigger] s[k]),
    ensures
        natural_keys(s).len() == 1,
        natural_keys(s)[0].1 == number(s),
        natural_keys(s)[0].2 == s.len(),
        natural_keys(s)[0].0 == 48,
{
    lemma_whole_run(s);
    assert(is_digit(s[0]));
    assert(s.take(s.len() as int) =~= s);
    assert(s.skip(s.len() as int) =~= Seq::<char>::empty());
    assert(natural_keys(s.skip(s.len() as int)).len() == 0);
}

/// Numbers go by their value, however many digits they have; of two ways to write one number the
/// shorter goes first.
pub proof fn law_numbers_go_by_value(a: Seq<char>, b: Seq<char>)
    requires
        a.len() > 0,
        b.len() > 0,
        forall|k: int| 0 <= k < a.len() ==> is_digit(#[trigger] a[k]),
        forall|k: int| 0 <= k < b.len() ==> is_digit(#[trigger] b[k]),
    ensures
        number(a) < number(b) ==> natural_order(a, b) < 0,
        number(a) > number(b) ==> natural_order(a, b) > 0,
        number(a) == number(b) && a.len() < b.len() ==> natural_order(a, b) < 0,
        number(a) == number(b) && a.len() == b.len() ==> natural_order(a, b) == 0,
{
    lemma_number_keys(a);
    lemma_number_keys(b);
    reveal_with_fuel(keys_sign, 2);
}

/// Where two names begin with different characters that are no digits, those decide, and case
/// counts for nothing. An empty name goes before every other.
pub proof fn law_first_characters_decide(a: Seq<char>, b: Seq<char>)
    ensures
        a.len() > 0 && b.len() > 0 && !is_digit(a[0]) && !is_digit(b[0]) && (ascii_lower(a[0]) as int)
            < (ascii_lower(b[0]) as int) ==> natural_order(a, b) < 0,
        a.len() == 0 && b.len() > 0 ==> natural_order(a, b) < 0,
        a.len() > 0 && b.len() > 0 && !is_digit(a[0]) && !is_digit(b[0]) && ascii_lower(a[0])
            == ascii_lower(b[0]) ==> natural_order(a, b) == natural_order(a.skip(1), b.skip(1)),
{
    if a.len() > 0 && !is_digit(a[0]) {
        let rest = natural_keys(a.skip(1));
        assert(natural_keys(a)[0] == (ascii_lower(a[0]) as int, 0int, 0int));
        assert(natural_keys(a).skip(1) =~= rest);
    }
    if b.len() > 0 && !is_digit(b[0]) {
        let rest = natural_keys(b.skip(1));
        assert(natural_keys(b)[0] == (ascii_lower(b[0]) as int, 0int, 0int));
        assert(natural_keys(b).skip(1) =~= rest);
    }
    if b.len() > 0 {
        assert(natural_keys(b).len() > 0);
    }
}

/// A digit is worth its distance from zero, and a digit added on the right makes ten times as
/// much and that.
pub proof fn law_numbers_are_decimal(s: Seq<char>, c: char)
    ensures
        is_digit(c) ==> digit_value(c) < 10 && digit_value(c) + 48 == c as int,
        number(s.push(c)) == 10 * number(s) + digit_value(c),
        number(seq!['0'] + s) == number(s),
    decreases s.len(),
{
    assert(s.push(c).drop_last() =~= s);
    let z = seq!['0'] + s;
    if s.len() == 0 {
        assert(z.drop_last() =~= Seq::<char>::empty());
        assert(number(z.drop_last()) == 0);
        assert(z.last() == '0');
    } else {
        assert(z.drop_last() =~= seq!['0'] + s.drop_last());
        law_numbers_are_decimal(s.drop_last(), c);
    }
}

/// The outcome of a comparison turns round with its sides, and is equality only for equals.
pub proof fn law_outcomes(s: int)
    ensures
        outcome(s) == Ordering::Less <==> s < 0,
        outcome(s) == Ordering::Greater <==> s > 0,
        outcome(s) == Ordering::Equal <==> s == 0,
        sign(s) == -sign(-s),
        sign(s) > 0 <==> s > 0,
{
}

/// A run of digits ends at the first character that is none.
pub proof fn law_runs_end_at_the_first_other_character(s: Seq<char>, k: int)
    ensures
        run_len(s) <= s.len(),
        0 <= k < run_len(s) ==> is_digit(s[k]),
        run_len(s) < s.len() ==> !is_digit(s[run_len(s) as int]),
    decreases s.len(),
{
    if s.len() > 0 && is_digit(s[0]) {
        law_runs_end_at_the_first_other_character(s.skip(1), k - 1);
    }
}

} // verus!
