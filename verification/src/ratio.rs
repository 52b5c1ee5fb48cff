//! Integer ratios in single precision: which number a division of two integers gives once the
//! operands and the quotient are rounded to 24 significant bits, ties to even.
use vstd::arithmetic::power2::{lemma_pow2_pos, lemma_pow2_unfold, pow2};
use vstd::prelude::*;

verus! {

/// The exponent where it is positive.
pub open spec fn up(exp: int) -> nat {
    if exp > 0 {
        exp as nat
    } else {
        0
    }
}

/// The exponent's amount where it is negative.
pub open spec fn down(exp: int) -> nat {
    if exp < 0 {
        (-exp) as nat
    } else {
        0
    }
}

/// `sig * 2^exp` is the number with a 24-bit significand nearest to `num / den`, the one with an
/// even significand where two are as near.
pub open spec fn rounds_to(num: nat, den: nat, sig: nat, exp: int) -> bool {
    let unit = den * pow2(up(exp));
    let off = num * pow2(down(exp)) - sig * unit;
    &&& 0x80_0000 <= sig < 0x100_0000
    &&& off >= 0 ==> 2 * off < unit || (2 * off == unit && sig % 2 == 0)
    // Below the least significand of a binade the numbers lie twice as dense.
    &&& off < 0 && sig == 0x80_0000 ==> -4 * off <= unit
    &&& off < 0 && sig > 0x80_0000 ==> -2 * off < unit || (-2 * off == unit && sig % 2 == 0)
}

/// `a` is the integer `n` in single precision.
pub open spec fn is_single_of(n: nat, a: nat) -> bool {
    ||| n == 0 && a == 0
    ||| exists|sig: nat, exp: int| #[trigger]
        rounds_to(n, 1, sig, exp) && a * pow2(down(exp)) == sig * pow2(up(exp))
}

/// `sig * 2^exp` to the nearest integer, a half away from zero.
pub open spec fn whole(sig: nat, exp: int) -> nat {
    if exp >= 0 {
        sig * pow2(exp as nat)
    } else {
        (2 * sig + pow2(down(exp))) / (2 * pow2(down(exp)))
    }
}

/// `q` is the single-precision quotient of the integers `num` and `den`, both taken in single
/// precision, rounded to the nearest integer and capped to 32 bits.
pub open spec fn is_rounded_ratio(num: nat, den: nat, q: nat) -> bool {
    exists|a: nat, b: nat| #[trigger]
        is_single_of(num, a) && #[trigger] is_single_of(den, b) && is_rounded_quotient(a, b, q)
}

/// [`is_rounded_ratio`] of numbers that are in single precision already.
pub open spec fn is_rounded_quotient(a: nat, b: nat, q: nat) -> bool {
    ||| a == 0 && q == 0
    ||| a > 0 && exists|sig: nat, exp: int| #[trigger]
        rounds_to(a, b, sig, exp) && q == capped_u32(whole(sig, exp))
}

pub open spec fn capped_u32(n: nat) -> nat {
    if n <= u32::MAX {
        n
    } else {
        u32::MAX as nat
    }
}

pub proof fn lemma_pow2_next(k: nat)
    ensures
        pow2(k + 1) == 2 * pow2(k),
        pow2(k) > 0,
        pow2(0) == 1,
{
    lemma_pow2_pos(k);
    lemma_pow2_unfold(k + 1);
    vstd::arithmetic::power2::lemma2_to64();
}

/// The significand and exponent of `num / den` in single precision.
pub fn single_ratio(num: u128, den: u128) -> (r: (u32, i32))
    requires
        0 < num <= 0x1_0000_0000_0000_0000_0000_0000,
        0 < den <= 0x1_0000_0000_0000_0000,
    ensures
        rounds_to(num as nat, den as nat, r.0 as nat, r.1 as int),
        -100 <= r.1 <= 80,
        num <= 0x1_0000_0000 ==> r.1 <= 16,
        den <= 0x1_0000_0000 ==> r.1 >= -64,
{
    let mut n = num;
    let mut d = den;
    let mut e: i32 = 0;
    proof {
        lemma_pow2_next(0);
        assert(den * 1 == den) by (nonlinear_arith);
        assert(num * 1 == num) by (nonlinear_arith);
    }
    while n >= 0x100_0000 * d
        invariant
            0 < num <= 0x1_0000_0000_0000_0000_0000_0000,
            0 < den <= d <= 0x1_0000_0000_0000_0000_0000,
            0 <= e <= 73,
            n == num,
            d == den * pow2(e as nat),
            e == 0 || n >= 0x80_0000 * d,
            pow2(e as nat) <= d,
        decreases 0x1_0000_0000_0000_0000_0000 - d,
    {
        proof {
            lemma_pow2_next(e as nat);
            assert(den * (2 * pow2(e as nat)) == 2 * (den * pow2(e as nat))) by (nonlinear_arith);
            assert(den * pow2((e + 1) as nat) >= pow2((e + 1) as nat)) by (nonlinear_arith)
                requires
                    den >= 1,
            ;
            lemma_powers();
            lemma_exponent_below(e as nat, 72);
        }
        d = 2 * d;
        e = e + 1;
    }
    proof {
        if num <= 0x1_0000_0000 && e > 0 {
            lemma_powers();
            lemma_exponent_below(e as nat, 9);
        }
        lemma_pow2_next(0);
        assert(num * 1 == num) by (nonlinear_arith);
        assert(den * 1 == den) by (nonlinear_arith);
    }
    if e == 0 {
        while n < 0x80_0000 * d
            invariant
                0 < num <= 0x1_0000_0000_0000_0000_0000_0000,
                0 < den <= 0x1_0000_0000_0000_0000,
                d == den,
                -89 <= e <= 0,
                n == num * pow2((-e) as nat),
                0 < n < 0x100_0000 * d,
                pow2((-e) as nat) <= n,
            decreases 0x100_0000 * d - n,
        {
            proof {
                let k = (-e) as nat;
                lemma_pow2_next(k);
                assert(num * (2 * pow2(k)) == 2 * (num * pow2(k))) by (nonlinear_arith);
                assert(num * (2 * pow2(k)) >= 2 * pow2(k)) by (nonlinear_arith)
                    requires
                        num >= 1,
                ;
                lemma_powers();
                lemma_exponent_below(k, 87);
            }
            n = 2 * n;
            e = e - 1;
        }
        proof {
            if den <= 0x1_0000_0000 {
                lemma_powers();
                lemma_exponent_below((-e) as nat, 56);
            }
        }
    }
    assert(n == num * pow2(down(e as int))) by {
        lemma_pow2_next(0);
        assert(num * 1 == num) by (nonlinear_arith);
    }
    assert(d == den * pow2(up(e as int))) by {
        lemma_pow2_next(0);
        assert(den * 1 == den) by (nonlinear_arith);
    }
    let q: u128 = n / d;
    let r: u128 = n % d;
    proof {
        vstd::arithmetic::div_mod::lemma_fundamental_div_mod(n as int, d as int);
        assert(q >= 0x80_0000 && q < 0x100_0000) by (nonlinear_arith)
            requires
                n == d * q + r,
                0 <= r < d,
                0x80_0000 * d <= n < 0x100_0000 * d,
        ;
        assert(d * q == q * d) by (nonlinear_arith);
    }
    if 2 * r < d || (2 * r == d && q % 2 == 0) {
        return (q as u32, e);
    }
    let s = q + 1;
    assert(s * d == q * d + d) by (nonlinear_arith)
        requires
            s == q + 1,
    ;
    if s < 0x100_0000 {
        return (s as u32, e);
    }
    proof {
        let k = e as int;
        if k >= 0 {
            lemma_pow2_next(k as nat);
            assert(den * (2 * pow2(k as nat)) == 2 * d) by (nonlinear_arith)
                requires
                    d == den * pow2(k as nat),
            ;
            assert(num * pow2(down(k + 1)) == n) by {
                lemma_pow2_next(0);
                assert(num * 1 == num) by (nonlinear_arith);
            }
        } else {
            let m = (-(k + 1)) as nat;
            lemma_pow2_next(m);
            assert(2 * (num * pow2(m)) == n) by (nonlinear_arith)
                requires
                    n == num * (2 * pow2(m)),
            ;
            assert(down(k + 1) == m);
            assert(up(k + 1) == 0);
        }
    }
    (0x80_0000, e + 1)
}

/// The powers of two that bound the exponents here.
pub proof fn lemma_powers()
    ensures
        pow2(9) == 0x200,
        pow2(23) == 0x80_0000,
        pow2(24) == 0x100_0000,
        pow2(49) == 0x2_0000_0000_0000,
        pow2(50) == 0x4_0000_0000_0000,
        pow2(56) == 0x100_0000_0000_0000,
        pow2(72) == 0x100_0000_0000_0000_0000,
        pow2(87) == 0x80_0000_0000_0000_0000_0000,
{
    vstd::arithmetic::power2::lemma2_to64();
    vstd::arithmetic::power2::lemma2_to64_rest();
    vstd::arithmetic::power2::lemma_pow2_adds(56, 16);
    vstd::arithmetic::power2::lemma_pow2_adds(64, 23);
}

/// A power of two up to `2^bound` has an exponent up to `bound`.
pub proof fn lemma_exponent_below(e: nat, bound: nat)
    requires
        pow2(e) <= pow2(bound),
    ensures
        e <= bound,
{
    if e > bound {
        vstd::arithmetic::power2::lemma_pow2_strictly_increases(bound, e);
    }
}

/// The integer `n` in single precision.
pub fn as_single(n: u32) -> (a: u64)
    ensures
        is_single_of(n as nat, a as nat),
        a <= 0x1_0000_0000,
        n > 0 ==> a > 0,
        n < 0x100_0000 ==> a == n,
{
    if n == 0 {
        return 0;
    }
    let (sig, exp) = single_ratio(n as u128, 1);
    proof {
        assert(rounds_to(n as nat, 1, sig as nat, exp as int));
        lemma_pow2_next(0);
    }
    if exp <= 0 {
        // The unit in the last place is no larger than one: the integer is held exactly.
        proof {
            assert(1 * pow2(up(exp as int)) == 1);
            assert(sig * 1 == sig) by (nonlinear_arith);
            assert(n * pow2(down(exp as int)) == sig);
            assert(sig * pow2(up(exp as int)) == sig);
        }
        return n as u64;
    }
    let shift: u32 = exp as u32;
    let a: u64 = (sig as u64) << (shift as u64);
    proof {
        let k = exp as nat;
        let p = pow2(k);
        lemma_pow2_next(k);
        assert(n * 1 == n) by (nonlinear_arith);
        assert(1 * p == p) by (nonlinear_arith);
        vstd::arithmetic::power2::lemma2_to64();
        if k < 16 {
            vstd::arithmetic::power2::lemma_pow2_strictly_increases(k, 16);
        }
        assert(sig * p <= 0xff_ffff * 0x1_0000) by (nonlinear_arith)
            requires
                sig <= 0xff_ffff,
                p <= 0x1_0000,
        ;
        vstd::bits::lemma_u64_shl_is_mul(sig as u64, shift as u64);
        assert(a == sig * p);
        assert(a * pow2(down(exp as int)) == sig * pow2(up(exp as int))) by {
            assert(a * 1 == a) by (nonlinear_arith);
        }
        lemma_whole_single(n as nat, sig as nat, k);
    }
    a
}

/// A 32-bit integer of single precision is at most `2^32`, and not below 24 bits where a unit is
/// more than one.
proof fn lemma_whole_single(n: nat, sig: nat, k: nat)
    requires
        n <= u32::MAX,
        k >= 1,
        rounds_to(n, 1, sig, k as int),
    ensures
        0 < sig * pow2(k) <= 0x1_0000_0000,
        n >= 0x100_0000,
{
    let p = pow2(k);
    lemma_pow2_next(k);
    lemma_pow2_next(0);
    lemma_pow2_next((k - 1) as nat);
    let off = n - sig * p;
    assert(n * 1 == n) by (nonlinear_arith);
    assert(1 * p == p) by (nonlinear_arith);
    assert(sig * p >= 0x80_0000 * p) by (nonlinear_arith)
        requires
            sig >= 0x80_0000,
    ;
    assert(p >= 2);
    // The next power of two above is a number of single precision itself.
    if sig * p > 0x1_0000_0000 {
        lemma_multiple_above(sig, k);
        if k > 32 {
            vstd::arithmetic::power2::lemma2_to64();
            vstd::arithmetic::power2::lemma_pow2_strictly_increases(32, k);
        }
        assert(-2 * off > p);
        assert(false);
    }
    if n < 0x100_0000 {
        assert(sig * p >= 0x100_0000 && -2 * off <= p) by (nonlinear_arith)
            requires
                off == n - sig * p,
                sig * p >= 0x80_0000 * p,
                p >= 2,
                off < 0 && sig == 0x80_0000 ==> -4 * off <= p,
                off < 0 && sig > 0x80_0000 ==> -2 * off <= p,
        ;
        assert(false) by (nonlinear_arith)
            requires
                n < 0x100_0000,
                off == n - sig * p,
                sig >= 0x80_0000,
                p >= 2,
                off < 0,
                sig == 0x80_0000 ==> -4 * off <= p,
                sig > 0x80_0000 ==> -2 * off <= p,
        ;
    }
}

/// A multiple of `2^k` above `2^32` with a 24-bit factor lies at least `2^k` above it.
proof fn lemma_multiple_above(sig: nat, k: nat)
    requires
        sig < 0x100_0000,
        sig * pow2(k) > 0x1_0000_0000,
    ensures
        k > 8,
        sig * pow2(k) >= 0x1_0000_0000 + pow2(k) || k > 32,
{
    vstd::arithmetic::power2::lemma2_to64();
    if k <= 8 {
        if k < 8 {
            vstd::arithmetic::power2::lemma_pow2_strictly_increases(k, 8);
        }
        assert(sig * pow2(k) <= 0xff_ffff * 256) by (nonlinear_arith)
            requires
                sig <= 0xff_ffff,
                pow2(k) <= 256,
        ;
    }
    if k <= 32 {
        let m = (32 - k) as nat;
        vstd::arithmetic::power2::lemma_pow2_adds(m, k);
        let (p, r) = (pow2(k), pow2(m));
        lemma_pow2_pos(k);
        assert(r * p == 0x1_0000_0000);
        assert(sig >= r + 1) by (nonlinear_arith)
            requires
                sig * p > r * p,
                p > 0,
        ;
        assert(sig * p >= (r + 1) * p) by (nonlinear_arith)
            requires
                sig >= r + 1,
                p > 0,
        ;
        assert((r + 1) * p == r * p + p) by (nonlinear_arith);
    }
}

/// The single-precision quotient of two integers, rounded to the nearest integer.
pub fn rounded_ratio(num: u32, den: u32) -> (q: u32)
    requires
        den > 0,
    ensures
        is_rounded_ratio(num as nat, den as nat, q as nat),
        num < 0x80_0000 && den < 0x100_0000 ==> q == (2 * num + den) / (2 * den as int),
{
    let a = as_single(num);
    let b = as_single(den);
    if a == 0 {
        proof {
            assert(is_rounded_quotient(a as nat, b as nat, 0));
            if num == 0 {
                vstd::arithmetic::div_mod::lemma_fundamental_div_mod_converse(
                    den as int,
                    2 * den,
                    0,
                    den as int,
                );
            }
        }
        return 0;
    }
    let (sig, exp) = single_ratio(a as u128, b as u128);
    let q: u32 = if exp >= 0 {
        scaled_up(sig, exp as u32)
    } else {
        scaled_down(sig, (-exp) as u32)
    };
    proof {
        assert(rounds_to(a as nat, b as nat, sig as nat, exp as int));
        assert(is_rounded_quotient(a as nat, b as nat, q as nat));
        if num < 0x80_0000 && den < 0x100_0000 {
            lemma_ratio_is_exact(num as nat, den as nat, sig as nat, exp as int);
        }
    }
    q
}

fn scaled_up(sig: u32, exp: u32) -> (q: u32)
    requires
        0x80_0000 <= sig < 0x100_0000,
        exp <= 16,
    ensures
        q == capped_u32(whole(sig as nat, exp as int)),
{
    let v: u64 = (sig as u64) << (exp as u64);
    proof {
        let p = pow2(exp as nat);
        vstd::arithmetic::power2::lemma2_to64();
        if exp < 16 {
            vstd::arithmetic::power2::lemma_pow2_strictly_increases(exp as nat, 16);
        }
        assert(sig * p <= 0xff_ffff * 0x1_0000) by (nonlinear_arith)
            requires
                sig <= 0xff_ffff,
                p <= 0x1_0000,
        ;
        vstd::bits::lemma_u64_shl_is_mul(sig as u64, exp as u64);
    }
    if v <= u32::MAX as u64 {
        v as u32
    } else {
        u32::MAX
    }
}

fn scaled_down(sig: u32, k: u32) -> (q: u32)
    requires
        0x80_0000 <= sig < 0x100_0000,
        1 <= k <= 64,
    ensures
        q == capped_u32(whole(sig as nat, -(k as int))),
{
    proof {
        assert(down(-(k as int)) == k as nat);
        lemma_pow2_next(k as nat);
        vstd::arithmetic::power2::lemma2_to64();
    }
    if k > 25 {
        proof {
            let p = pow2(k as nat);
            vstd::arithmetic::power2::lemma_pow2_strictly_increases(25, k as nat);
            vstd::arithmetic::div_mod::lemma_fundamental_div_mod_converse(
                2 * sig + p,
                (2 * p) as int,
                0,
                2 * sig + p,
            );
        }
        return 0;
    }
    let p: u64 = 1u64 << (k as u64);
    proof {
        if k < 25 {
            vstd::arithmetic::power2::lemma_pow2_strictly_increases(k as nat, 25);
        }
        vstd::bits::lemma_u64_shl_is_mul(1, k as u64);
        assert(p == pow2(k as nat));
    }
    let v: u64 = (2 * sig as u64 + p) / (2 * p);
    proof {
        assert(v <= 2 * sig as u64 + p) by (nonlinear_arith)
            requires
                v == (2 * sig as u64 + p) / (2 * p),
                p >= 1,
        ;
    }
    v as u32
}

/// Below `2^23` the two roundings never carry a quotient over a half: the result is the exact
/// quotient, rounded.
proof fn lemma_ratio_is_exact(num: nat, den: nat, sig: nat, exp: int)
    requires
        0 < num < 0x80_0000,
        0 < den < 0x100_0000,
        rounds_to(num, den, sig, exp),
    ensures
        capped_u32(whole(sig, exp)) == (2 * num + den) / (2 * den),
{
    lemma_pow2_next(0);
    let unit = den * pow2(up(exp));
    assert(den * 1 == den) by (nonlinear_arith);
    assert(num * 1 == num) by (nonlinear_arith);
    if exp >= 0 {
        lemma_pow2_pos(up(exp));
        assert(unit >= 1) by (nonlinear_arith)
            requires
                unit == den * pow2(up(exp)),
                den >= 1,
                pow2(up(exp)) >= 1,
        ;
        let off = num - sig * unit;
        assert(false) by (nonlinear_arith)
            requires
                off == num - sig * unit,
                unit >= 1,
                sig >= 0x80_0000,
                num < 0x80_0000,
                off < 0 && sig == 0x80_0000 ==> -4 * off <= unit,
                off < 0 && sig > 0x80_0000 ==> -2 * off <= unit,
        ;
    }
    let k = down(exp);
    let p = pow2(k);
    lemma_pow2_next((k - 1) as nat);
    let half = pow2((k - 1) as nat);
    assert(p == 2 * half && half >= 1);
    let off = num * p - sig * den;
    assert(-2 * off <= den && 2 * off <= den);
    assert(p > den) by (nonlinear_arith)
        requires
            off == num * p - sig * den,
            -2 * off <= den,
            sig >= 0x80_0000,
            num <= 0x7f_ffff,
            den >= 1,
            p >= 1,
    ;
    let m = ((2 * num + den) / (2 * den)) as int;
    vstd::arithmetic::div_mod::lemma_fundamental_div_mod((2 * num + den) as int, (2 * den) as int);
    let r = ((2 * num + den) % (2 * den)) as int;
    assert((2 * den) * m == 2 * (m * den)) by (nonlinear_arith);
    assert(2 * num == 2 * (m * den) + r - den);
    assert(0 <= r < 2 * den);
    // 2 sig < (2 m + 1) p
    assert(2 * sig < (2 * m + 1) * p) by (nonlinear_arith)
        requires
            off == num * p - sig * den,
            -2 * off <= den,
            p > den,
            2 * num == 2 * (m * den) + r - den,
            r < 2 * den,
            den >= 1,
    ;
    assert(2 * sig >= (2 * m - 1) * p) by {
        if 2 * sig < (2 * m - 1) * p {
            assert((2 * m - 1) * p == 2 * ((2 * m - 1) * half)) by (nonlinear_arith)
                requires
                    p == 2 * half,
            ;
            assert(sig <= (2 * m - 1) * half - 1);
            assert(false) by (nonlinear_arith)
                requires
                    off == num * p - sig * den,
                    2 * off <= den,
                    sig <= (2 * m - 1) * half - 1,
                    p == 2 * half,
                    2 * num == 2 * (m * den) + r - den,
                    r >= 0,
                    den >= 1,
                    half >= 1,
            ;
        }
    }
    let rem = 2 * sig + p - m * (2 * p);
    assert((2 * m + 1) * p == m * (2 * p) + p) by (nonlinear_arith);
    assert((2 * m - 1) * p == m * (2 * p) - p) by (nonlinear_arith);
    vstd::arithmetic::div_mod::lemma_fundamental_div_mod_converse(
        (2 * sig + p) as int,
        (2 * p) as int,
        m,
        rem,
    );
    assert(m <= 2 * num + den) by (nonlinear_arith)
        requires
            m == (2 * num + den) / (2 * den),
            den >= 1,
    ;
}

/// A ratio has one significand and exponent in single precision.
pub proof fn lemma_rounds_once(num: nat, den: nat, s: nat, x: int, t: nat, y: int)
    requires
        num > 0,
        den > 0,
        rounds_to(num, den, s, x),
        rounds_to(num, den, t, y),
    ensures
        s == t,
        x == y,
{
    lemma_exponents_apart(num, den, s, x, t, y);
    lemma_exponents_apart(num, den, t, y, s, x);
    if x == y {
        let unit = den * pow2(up(x));
        lemma_pow2_pos(up(x));
        assert(unit > 0) by (nonlinear_arith)
            requires
                unit == den * pow2(up(x)),
                den > 0,
                pow2(up(x)) > 0,
        ;
        let lhs = num * pow2(down(x));
        lemma_same_exponent(lhs, unit, s, t);
        lemma_same_exponent(lhs, unit, t, s);
    }
}

proof fn lemma_same_exponent(lhs: nat, unit: nat, s: nat, t: nat)
    requires
        unit > 0,
        lhs - s * unit >= 0 ==> 2 * (lhs - s * unit) < unit || (2 * (lhs - s * unit) == unit && s % 2
            == 0),
        lhs - t * unit < 0 ==> -2 * (lhs - t * unit) < unit || (-2 * (lhs - t * unit) == unit && t
            % 2 == 0),
    ensures
        t <= s,
{
    if s >= t {
        return;
    }
    assert(t * unit >= s * unit + unit) by (nonlinear_arith)
        requires
            t >= s + 1,
            unit > 0,
    ;
    if lhs - t * unit < 0 && lhs - s * unit >= 0 {
        if t > s + 1 {
            assert(t * unit >= s * unit + 2 * unit) by (nonlinear_arith)
                requires
                    t >= s + 2,
                    unit > 0,
            ;
        }
    }
}

proof fn lemma_exponents_apart(num: nat, den: nat, s: nat, x: int, t: nat, y: int)
    requires
        num > 0,
        den > 0,
        rounds_to(num, den, s, x),
        rounds_to(num, den, t, y),
    ensures
        x >= y,
{
    if x >= y {
        return;
    }
    // Bring both to the unit of the smaller exponent: num * a against s * u and t * u * p.
    let p = pow2((y - x) as nat);
    lemma_pow2_pos((y - x) as nat);
    lemma_pow2_next((y - x - 1) as nat);
    let h = pow2((y - x - 1) as nat);
    assert(p == 2 * h && h >= 1);
    let a = pow2(down(x));
    let u = den * pow2(up(x));
    let b = pow2(down(y));
    let v = den * pow2(up(y));
    lemma_pow2_pos(down(x));
    lemma_pow2_pos(up(x));
    lemma_pow2_pos(down(y));
    lemma_pow2_pos(up(y));
    // a * v == b * u * p
    assert(a * v == b * (u * p)) by {
        vstd::arithmetic::power2::lemma_pow2_adds(down(x), up(y));
        vstd::arithmetic::power2::lemma_pow2_adds(down(y), up(x));
        vstd::arithmetic::power2::lemma_pow2_adds(down(y) + up(x), (y - x) as nat);
        let (pu, pv) = (pow2(up(x)), pow2(up(y)));
        assert(down(x) + up(y) == down(y) + up(x) + (y - x));
        assert(a * pv == b * pu * p);
        assert(a * (den * pv) == b * ((den * pu) * p)) by (nonlinear_arith)
            requires
                a * pv == b * pu * p,
        ;
    }
    let lx = num * a;
    let ly = num * b;
    let off_x = lx - s * u;
    let off_y = ly - t * v;
    assert(u > 0) by (nonlinear_arith)
        requires
            u == den * pow2(up(x)),
            den > 0,
            pow2(up(x)) > 0,
    ;
    // The smaller exponent's number stays below its binade's end: 2 lx <= (2 s + 1) u.
    assert(2 * lx <= (2 * s + 1) * u) by (nonlinear_arith)
        requires
            off_x == lx - s * u,
            2 * off_x <= u || off_x < 0,
            u > 0,
    ;
    assert(off_x >= 0 && 2 * off_x == u ==> s % 2 == 0);
    // The larger exponent's number starts at its binade: 4 ly >= (4 t - 1) v at the least.
    assert(4 * ly >= (4 * t - 2) * v) by (nonlinear_arith)
        requires
            off_y == ly - t * v,
            off_y >= 0 || -2 * off_y <= v,
            v >= 0,
    ;
    assert(t == 0x80_0000 ==> 4 * ly >= (4 * t - 1) * v) by (nonlinear_arith)
        requires
            off_y == ly - t * v,
            t == 0x80_0000 ==> (off_y >= 0 || -4 * off_y <= v),
            v >= 0,
    ;
    assert(4 * ly >= 0x1ff_ffff * v) by (nonlinear_arith)
        requires
            4 * ly >= (4 * t - 2) * v,
            t == 0x80_0000 ==> 4 * ly >= (4 * t - 1) * v,
            t >= 0x80_0000,
            v >= 0,
    ;
    // Compare: lx * v == ly * u * p.
    assert(lx * v == ly * (u * p)) by (nonlinear_arith)
        requires
            a * v == b * (u * p),
            lx == num * a,
            ly == num * b,
    ;
    assert(v > 0) by (nonlinear_arith)
        requires
            v == den * pow2(up(y)),
            den > 0,
            pow2(up(y)) > 0,
    ;
    // 2 lx v <= (2 s + 1) u v, and 4 lx v = 4 ly u p >= 0x1ff_ffff u p v, so
    // 2 (2 s + 1) >= 0x1ff_ffff p with p >= 2, while 2 s + 1 <= 0x1ff_ffff.
    let w = u * v;
    assert(w > 0) by (nonlinear_arith)
        requires
            w == u * v,
            u > 0,
            v > 0,
    ;
    assert(2 * (lx * v) <= (2 * s + 1) * w) by (nonlinear_arith)
        requires
            2 * lx <= (2 * s + 1) * u,
            v > 0,
            w == u * v,
    ;
    assert(4 * (lx * v) >= 0x1ff_ffff * (p * w)) by (nonlinear_arith)
        requires
            4 * ly >= 0x1ff_ffff * v,
            lx * v == ly * (u * p),
            u > 0,
            p > 0,
            w == u * v,
    ;
    assert(0x1ff_ffff * (p * w) <= 2 * ((2 * s + 1) * w));
    assert(0x1ff_ffff * p <= 2 * (2 * s + 1)) by (nonlinear_arith)
        requires
            0x1ff_ffff * (p * w) <= 2 * ((2 * s + 1) * w),
            w > 0,
    ;
    // So p == 2, s is the largest significand, and both bounds are met with equality: a tie,
    // which an odd significand never takes.
    assert(p == 2 && s == 0xff_ffff);
    assert(2 * lx < (2 * s + 1) * u) by (nonlinear_arith)
        requires
            off_x == lx - s * u,
            2 * off_x < u || off_x < 0,
            u > 0,
    ;
    assert(2 * (lx * v) < (2 * s + 1) * w) by (nonlinear_arith)
        requires
            2 * lx < (2 * s + 1) * u,
            v > 0,
            w == u * v,
    ;
    assert(4 * (lx * v) >= 0x1ff_ffff * (2 * w));
    assert(false) by (nonlinear_arith)
        requires
            2 * (lx * v) < (2 * s + 1) * w,
            4 * (lx * v) >= 0x1ff_ffff * (2 * w),
            s == 0xff_ffff,
            w > 0,
    ;
}

} // verus!
