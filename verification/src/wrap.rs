//! Positions on a loop: the remainder of a single-precision position by a whole number, and its
//! split into a whole part and a fraction.
use crate::ratio::{
    down, is_single_of, lemma_pow2_next, lemma_powers, rounds_to, single_ratio, up,
};
use crate::single::{
    exponent, is_finite, is_negative, pack, parts, significand, Single,
};
use vstd::arithmetic::power2::{lemma_pow2_pos, pow2};
use vstd::prelude::*;

verus! {

/// The magnitude of a finite number is `scaled(x) / scale(x)`.
pub open spec fn scaled(x: Single) -> nat {
    significand(x) * pow2(up(exponent(x)))
}

pub open spec fn scale(x: Single) -> nat {
    pow2(down(exponent(x)))
}

/// `r` is the positive single-precision number nearest to `num / den`.
pub open spec fn is_nearest(num: nat, den: nat, r: Single) -> bool {
    &&& is_finite(r)
    &&& !is_negative(r)
    &&& rounds_to(num, den, significand(r), exponent(r))
}

/// `r` is the remainder of `x` by the whole number `count` as `rem_euclid` gives it: what is left
/// of the magnitude, with the sign of `x` where that is zero; for a negative `x` what is missing to
/// the next multiple, in single precision.
pub open spec fn is_remainder(x: Single, count: nat, r: Single) -> bool {
    let turn = count * scale(x);
    let left = scaled(x) % turn;
    if scaled(x) < turn && !is_negative(x) {
        r == x
    } else if left == 0 {
        r == (Single { bits: if is_negative(x) { 0x8000_0000u32 } else { 0u32 } })
    } else if is_negative(x) {
        is_nearest((turn - left) as nat, scale(x), r)
    } else {
        is_nearest(left, scale(x), r)
    }
}

/// The nearest single-precision number to `num / den`.
fn nearest(num: u128, den: u128) -> (r: Single)
    requires
        0 < num <= 0x1_0000_0000_0000_0000_0000_0000,
        0 < den <= 0x1_0000_0000_0000_0000,
    ensures
        is_nearest(num as nat, den as nat, r),
{
    let (sig, exp) = single_ratio(num, den);
    pack(false, sig, exp)
}

fn signed_zero(negative: bool) -> (r: Single)
    ensures
        r == (Single { bits: if negative { 0x8000_0000u32 } else { 0u32 } }),
{
    Single { bits: if negative { 0x8000_0000 } else { 0 } }
}

/// `2^k` as an integer.
fn power(k: u32) -> (p: u128)
    requires
        k < 64,
    ensures
        p == pow2(k as nat),
        1 <= p <= 0x8000_0000_0000_0000,
{
    let p: u64 = 1u64 << (k as u64);
    proof {
        vstd::arithmetic::power2::lemma2_to64_rest();
        vstd::arithmetic::power2::lemma2_to64();
        if k < 63 {
            vstd::arithmetic::power2::lemma_pow2_strictly_increases(k as nat, 63);
        }
        lemma_pow2_pos(k as nat);
        vstd::bits::lemma_u64_shl_is_mul(1, k as u64);
    }
    p as u128
}

/// `sig * 2^e` by `count`: the remainder, doubled along.
fn doubled_remainder(sig: u32, e: u32, count: u64) -> (r: u64)
    requires
        0 < count <= 0x1_0000_0000,
    ensures
        r == (sig * pow2(e as nat)) % count as int,
        r < count,
{
    let mut r: u64 = sig as u64 % count;
    let mut i: u32 = 0;
    proof {
        lemma_pow2_next(0);
        assert(sig * 1 == sig) by (nonlinear_arith);
    }
    while i < e
        invariant
            i <= e,
            0 < count <= 0x1_0000_0000,
            r < count,
            r == (sig * pow2(i as nat)) % count as int,
        decreases e - i,
    {
        proof {
            lemma_pow2_next(i as nat);
            let v = sig * pow2(i as nat);
            assert(sig * (2 * pow2(i as nat)) == 2 * v) by (nonlinear_arith)
                requires
                    v == sig * pow2(i as nat),
            ;
            vstd::arithmetic::div_mod::lemma_mul_mod_noop_right(2, v as int, count as int);
        }
        r = (2 * r) % count;
        i += 1;
    }
    r
}

/// The remainder of a finite `x` by `count`, a whole number of single precision.
pub fn remainder(x: Single, count: u64) -> (r: Single)
    requires
        is_finite(x),
        0 < count <= 0x1_0000_0000,
        is_single_of(count as nat, count as nat),
    ensures
        is_remainder(x, count as nat, r),
{
    let negative = x.bits >= 0x8000_0000;
    let (sig, e) = parts(x);
    proof {
        lemma_pow2_next(0);
        assert(sig * 1 == sig) by (nonlinear_arith);
        assert(count * 1 == count) by (nonlinear_arith);
    }
    if e >= 0 {
        let left = doubled_remainder(sig, e as u32, count);
        proof {
            assert(scale(x) == 1);
            assert(scaled(x) == sig * pow2(e as nat));
        }
        if !negative && e < 40 {
            let p = power(e as u32);
            assert(sig * p <= 0xff_ffff * 0x8000_0000_0000_0000) by (nonlinear_arith)
                requires
                    sig <= 0xff_ffff,
                    p <= 0x8000_0000_0000_0000,
            ;
            if (sig as u128) * p < count as u128 {
                return x;
            }
        }
        proof {
            if !negative && e >= 40 {
                lemma_far_beyond(sig as nat, e as nat, count as nat);
            }
        }
        if left == 0 {
            return signed_zero(negative);
        }
        if negative {
            return nearest((count - left) as u128, 1);
        }
        return nearest(left as u128, 1);
    }
    let k: u32 = (-e) as u32;
    assert(scaled(x) == sig);
    assert(scale(x) == pow2(k as nat));
    if k >= 50 {
        proof {
            lemma_powers();
            if k > 50 {
                vstd::arithmetic::power2::lemma_pow2_strictly_increases(50, k as nat);
            }
            assert(count * pow2(k as nat) >= pow2(k as nat)) by (nonlinear_arith)
                requires
                    count >= 1,
            ;
            vstd::arithmetic::div_mod::lemma_small_mod(sig as nat, (count * pow2(k as nat)) as nat);
        }
        if !negative {
            return x;
        }
        if sig == 0 {
            return signed_zero(negative);
        }
        let r = nearest(count as u128, 1);
        proof {
            lemma_just_below(count as nat, sig as nat, k as nat, significand(r), exponent(r));
        }
        return r;
    }
    let den = power(k);
    proof {
        lemma_powers();
        if k < 50 {
            vstd::arithmetic::power2::lemma_pow2_strictly_increases(k as nat, 50);
        }
        assert(0 < count * den <= 0x1_0000_0000 * 0x4_0000_0000_0000) by (nonlinear_arith)
            requires
                1 <= count <= 0x1_0000_0000,
                1 <= den <= 0x4_0000_0000_0000,
        ;
    }
    let turn: u128 = count as u128 * den;
    if !negative && (sig as u128) < turn {
        return x;
    }
    let left: u128 = sig as u128 % turn;
    if left == 0 {
        return signed_zero(negative);
    }
    if negative {
        nearest(turn - left, den)
    } else {
        nearest(left, den)
    }
}

proof fn lemma_far_beyond(sig: nat, e: nat, count: nat)
    requires
        e >= 40,
        0x80_0000 <= sig,
        count <= 0x1_0000_0000,
    ensures
        sig * pow2(e) >= count,
{
    vstd::arithmetic::power2::lemma2_to64_rest();
    vstd::arithmetic::power2::lemma2_to64();
    if e > 40 {
        vstd::arithmetic::power2::lemma_pow2_strictly_increases(40, e);
    }
    assert(sig * pow2(e) >= pow2(e)) by (nonlinear_arith)
        requires
            sig >= 1,
    ;
}

/// Less than `2^-26` below a whole number of single precision, that number is the nearest one.
proof fn lemma_just_below(count: nat, sig: nat, k: nat, csig: nat, cexp: int)
    requires
        0 < count,
        0 < sig < 0x100_0000,
        k >= 50,
        is_single_of(count, count),
        rounds_to(count, 1, csig, cexp),
    ensures
        rounds_to((count * pow2(k) - sig) as nat, pow2(k), csig, cexp),
{
    lemma_powers();
    lemma_pow2_next(0);
    if k > 50 {
        vstd::arithmetic::power2::lemma_pow2_strictly_increases(50, k);
    }
    let den = pow2(k);
    let u = pow2(up(cexp));
    let dn = pow2(down(cexp));
    lemma_pow2_pos(up(cexp));
    lemma_pow2_pos(down(cexp));
    assert(1 * u == u) by (nonlinear_arith);
    lemma_whole_is_exact(count, csig, cexp);
    assert(count * dn == csig * u);
    // The exponent of a number of at least one.
    assert(dn <= 0x100_0000) by {
        assert(dn <= csig * u) by (nonlinear_arith)
            requires
                count * dn == csig * u,
                count >= 1,
        ;
        if cexp < 0 {
            assert(u == 1);
            assert(csig * 1 == csig) by (nonlinear_arith);
        }
    }
    let unit = den * u;
    let off = (count * den - sig) * dn - csig * unit;
    assert(off == -(sig * dn)) by (nonlinear_arith)
        requires
            off == (count * den - sig) * dn - csig * unit,
            unit == den * u,
            count * dn == csig * u,
    ;
    assert(sig * dn <= 0xff_ffff * 0x100_0000) by (nonlinear_arith)
        requires
            sig <= 0xff_ffff,
            dn <= 0x100_0000,
    ;
    assert(sig * dn > 0) by (nonlinear_arith)
        requires
            sig >= 1,
            dn >= 1,
    ;
    assert(unit >= den) by (nonlinear_arith)
        requires
            unit == den * u,
            u >= 1,
    ;
    assert(count * den - sig >= 0) by (nonlinear_arith)
        requires
            count >= 1,
            den >= 0x4_0000_0000_0000,
            sig < 0x100_0000,
    ;
}

/// A whole number of single precision rounds to itself.
proof fn lemma_whole_is_exact(count: nat, csig: nat, cexp: int)
    requires
        count > 0,
        is_single_of(count, count),
        rounds_to(count, 1, csig, cexp),
    ensures
        count * pow2(down(cexp)) == csig * pow2(up(cexp)),
{
    let (s, x) = choose|s: nat, x: int| #[trigger]
        rounds_to(count, 1, s, x) && count * pow2(down(x)) == s * pow2(up(x));
    crate::ratio::lemma_rounds_once(count, 1, s, x, csig, cexp);
}

/// The whole part of a finite number's magnitude.
pub open spec fn whole_part(p: Single) -> nat {
    scaled(p) / scale(p)
}

/// `t` is what is left of `p` above its whole part: nothing, `p` itself where that part is zero,
/// else the number it makes in single precision.
pub open spec fn is_fraction(p: Single, t: Single) -> bool {
    let left = scaled(p) % scale(p);
    if left == 0 {
        t == (Single { bits: 0 })
    } else if whole_part(p) == 0 {
        t == p
    } else {
        is_nearest(left, scale(p), t)
    }
}

/// Split a finite number that is not below zero into its whole part, capped to 33 bits, and its
/// fraction.
pub fn fraction(p: Single) -> (r: (u64, Single))
    requires
        is_finite(p),
        is_negative(p) ==> significand(p) == 0,
    ensures
        r.0 == whole_part(p) || (r.0 == 0x1_0000_0000 && whole_part(p) >= 0x1_0000_0000),
        is_fraction(p, r.1),
{
    let (sig, e) = parts(p);
    proof {
        lemma_pow2_next(0);
        assert(sig * 1 == sig) by (nonlinear_arith);
    }
    if e >= 0 {
        proof {
            assert(scale(p) == 1);
            let v = scaled(p);
            assert(v % 1 == 0 && v / 1 == v);
        }
        if e >= 9 {
            proof {
                lemma_powers();
                if e > 9 {
                    vstd::arithmetic::power2::lemma_pow2_strictly_increases(9, e as nat);
                }
                assert(sig * pow2(e as nat) >= 0x80_0000 * 0x200) by (nonlinear_arith)
                    requires
                        sig >= 0x80_0000,
                        pow2(e as nat) >= 0x200,
                ;
            }
            return (0x1_0000_0000, Single { bits: 0 });
        }
        let q = power(e as u32);
        proof {
            lemma_powers();
            vstd::arithmetic::power2::lemma_pow2_strictly_increases(e as nat, 9);
            assert(sig * q <= 0xff_ffff * 0x200) by (nonlinear_arith)
                requires
                    sig <= 0xff_ffff,
                    q <= 0x200,
            ;
        }
        return ((sig as u128 * q) as u64, Single { bits: 0 });
    }
    let k: u32 = (-e) as u32;
    assert(scaled(p) == sig);
    assert(scale(p) == pow2(k as nat));
    if k >= 24 {
        proof {
            lemma_powers();
            if k > 24 {
                vstd::arithmetic::power2::lemma_pow2_strictly_increases(24, k as nat);
            }
            vstd::arithmetic::div_mod::lemma_small_mod(sig as nat, pow2(k as nat));
            vstd::arithmetic::div_mod::lemma_basic_div(sig as int, pow2(k as nat) as int);
        }
        if sig == 0 {
            return (0, Single { bits: 0 });
        }
        return (0, p);
    }
    let den = power(k);
    let whole = sig as u128 / den;
    let left = sig as u128 % den;
    assert(whole <= sig) by (nonlinear_arith)
        requires
            whole == sig as u128 / den,
            den >= 1,
    ;
    if left == 0 {
        return (whole as u64, Single { bits: 0 });
    }
    if whole == 0 {
        return (0, p);
    }
    (whole as u64, nearest(left, den))
}

/// A number of single precision is its own.
pub proof fn lemma_single_is_single(n: nat, a: nat)
    requires
        is_single_of(n, a),
    ensures
        is_single_of(a, a),
{
    if n > 0 || a > 0 {
        let (s, x) = choose|s: nat, x: int| #[trigger]
            rounds_to(n, 1, s, x) && a * pow2(down(x)) == s * pow2(up(x));
        lemma_pow2_pos(up(x));
        assert(1 * pow2(up(x)) == pow2(up(x))) by (nonlinear_arith);
        assert(rounds_to(a, 1, s, x));
    }
}

/// A position on a loop is finite and not below zero.
pub proof fn lemma_remainder_is_finite(x: Single, p: Single, count: u32)
    requires
        count > 0,
        crate::flipbook::is_loop_position(x, count, p),
    ensures
        is_finite(p),
        is_negative(p) ==> significand(p) == 0,
{
    if is_finite(x) {
        let c = choose|c: nat| #[trigger] is_single_of(count as nat, c) && is_remainder(x, c, p);
        assert(is_remainder(x, c, p));
    }
}

/// `p` is `x` wrapped onto a loop of `count`: its remainder, or the start of the loop where that
/// remainder rounds up to its end or where `x` is not finite.
pub open spec fn is_wrapped(x: Single, count: nat, p: Single) -> bool {
    if is_finite(x) {
        exists|r: Single| #[trigger]
            is_remainder(x, count, r) && p == (if whole_part(r) < count {
                r
            } else {
                Single { bits: 0 }
            })
    } else {
        p == (Single { bits: 0 })
    }
}

/// Wrap `x` onto a loop of `count`, a whole number of single precision.
pub fn wrapped(x: Single, count: u64) -> (p: Single)
    requires
        0 < count <= 0x1_0000_0000,
        is_single_of(count as nat, count as nat),
    ensures
        is_wrapped(x, count as nat, p),
{
    if x.bits % 0x8000_0000 >= 0x7f80_0000 {
        return Single { bits: 0 };
    }
    let r = remainder(x, count);
    proof {
        lemma_remainder_not_below(x, count as nat, r);
    }
    let (whole, _rest) = fraction(r);
    if whole < count {
        r
    } else {
        Single { bits: 0 }
    }
}

pub(crate) proof fn lemma_zero_is_whole()
    ensures
        whole_part(Single { bits: 0 }) == 0,
        whole_part(Single { bits: 0x8000_0000 }) == 0,
{
    let one = pow2(up(-149));
    let d = pow2(down(-149));
    lemma_pow2_pos(down(-149));
    assert(0 * one == 0) by (nonlinear_arith);
    assert(0nat / d == 0) by (nonlinear_arith)
        requires
            d > 0,
    ;
}

/// A wrapped position lies on the loop: it is finite, not below zero, and below the count.
pub proof fn law_wrapped_lies_on_loop(x: Single, count: nat, p: Single)
    requires
        count > 0,
        is_wrapped(x, count, p),
    ensures
        is_finite(p),
        crate::single::rank(p) >= 0,
        whole_part(p) < count,
{
    lemma_zero_is_whole();
    if is_finite(x) {
        let r = choose|r: Single| #[trigger]
            is_remainder(x, count, r) && p == (if whole_part(r) < count {
                r
            } else {
                Single { bits: 0 }
            });
        lemma_remainder_not_below(x, count, r);
    }
}

/// A position on the loop stays where it is.
pub proof fn law_wrapping_settles(x: Single, count: nat, p: Single)
    requires
        is_finite(x),
        crate::single::rank(x) >= 0,
        whole_part(x) < count,
        is_wrapped(x, count, p),
    ensures
        p == x,
{
    let r = choose|r: Single| #[trigger]
        is_remainder(x, count, r) && p == (if whole_part(r) < count {
            r
        } else {
            Single { bits: 0 }
        });
    let d = scale(x);
    let turn = count * d;
    lemma_pow2_pos(down(exponent(x)));
    vstd::arithmetic::div_mod::lemma_fundamental_div_mod(scaled(x) as int, d as int);
    vstd::arithmetic::div_mod::lemma_mod_bound(scaled(x) as int, d as int);
    assert(scaled(x) < turn) by (nonlinear_arith)
        requires
            scaled(x) == d * whole_part(x) + scaled(x) % d,
            scaled(x) % d < d,
            whole_part(x) + 1 <= count,
            turn == count * d,
            d > 0,
    ;
    if is_negative(x) {
        assert(x.bits == 0x8000_0000u32);
        assert(scaled(x) == 0) by (nonlinear_arith)
            requires
                scaled(x) == significand(x) * pow2(up(exponent(x))),
                significand(x) == 0,
        ;
        vstd::arithmetic::div_mod::lemma_small_mod(0, turn);
    }
}

/// A remainder is finite and not below zero.
pub proof fn lemma_remainder_not_below(x: Single, count: nat, r: Single)
    requires
        is_finite(x),
        is_remainder(x, count, r),
    ensures
        is_finite(r),
        crate::single::rank(r) >= 0,
{
}

/// One turn: just past the end of the loop a position starts over, just before its start it comes
/// from the end, and whole turns lead back to the start.
pub proof fn law_one_turn(x: Single, count: nat, r: Single)
    requires
        count > 0,
        is_remainder(x, count, r),
    ensures
        ({
            let turn = count * scale(x);
            &&& !is_negative(x) && scaled(x) < turn ==> r == x
            &&& !is_negative(x) && turn < scaled(x) < 2 * turn ==> is_nearest(
                (scaled(x) - turn) as nat,
                scale(x),
                r,
            )
            &&& is_negative(x) && 0 < scaled(x) < turn ==> is_nearest(
                (turn - scaled(x)) as nat,
                scale(x),
                r,
            )
            &&& scaled(x) == turn ==> r.bits % 0x8000_0000 == 0
        }),
{
    let turn = count * scale(x);
    vstd::arithmetic::power2::lemma_pow2_pos(down(exponent(x)));
    assert(turn > 0) by (nonlinear_arith)
        requires
            count > 0,
            scale(x) > 0,
            turn == count * scale(x),
    ;
    let n = scaled(x) as int;
    if 0 <= n < turn {
        vstd::arithmetic::div_mod::lemma_small_mod(n as nat, turn);
    } else if turn < n < 2 * turn {
        vstd::arithmetic::div_mod::lemma_fundamental_div_mod_converse(
            n,
            turn as int,
            1,
            n - turn,
        );
    } else if n == turn {
        vstd::arithmetic::div_mod::lemma_mod_self_0(turn as int);
    }
}

/// The fraction of a position: none of a whole one, all of one before the first frame, and what
/// is left over the first frame between the first and the second.
pub proof fn law_fraction_is_what_is_left(p: Single, t: Single)
    requires
        is_fraction(p, t),
    ensures
        0 < scaled(p) < scale(p) ==> t == p,
        scaled(p) == scale(p) || scaled(p) == 0 ==> t.bits == 0,
        scale(p) < scaled(p) < 2 * scale(p) ==> is_nearest(
            (scaled(p) - scale(p)) as nat,
            scale(p),
            t,
        ) && whole_part(p) == 1,
{
    vstd::arithmetic::power2::lemma_pow2_pos(down(exponent(p)));
    let (n, d) = (scaled(p) as int, scale(p) as int);
    if n < d {
        vstd::arithmetic::div_mod::lemma_small_mod(n as nat, d as nat);
        vstd::arithmetic::div_mod::lemma_basic_div(n, d);
    } else if n == d {
        vstd::arithmetic::div_mod::lemma_mod_self_0(d);
    } else if n < 2 * d {
        vstd::arithmetic::div_mod::lemma_fundamental_div_mod_converse(n, d, 1, n - d);
    }
}

} // verus!
