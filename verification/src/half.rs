//! Half floats: binary32 to binary16 and back, by their bits.
use crate::ratio::{down, lemma_pow2_next, lemma_powers, single_ratio, up};
use crate::single::{exponent, exponent_field, is_finite, is_negative, pack, significand, Single};
use crate::wrap::is_nearest;
use vstd::arithmetic::power2::{lemma_pow2_pos, pow2};
use vstd::prelude::*;

verus! {

/// The magnitude bits of infinity; above it stand the NaNs.
pub const HALF_INF: u16 = 0x7c00;

/// The value of a half's magnitude bits, in units of `2^-24`. At the bits of infinity this is the
/// next power of two above the largest half, the point from which numbers round to infinity.
pub open spec fn half_value(mag: int) -> nat {
    if mag < 1024 {
        mag as nat
    } else {
        ((1024 + mag % 1024) * pow2((mag / 1024 - 1) as nat)) as nat
    }
}

/// The magnitude of a finite `x` in units of `2^-24` is `units(x) / parts_of(x)`.
pub open spec fn units(x: Single) -> nat {
    significand(x) * pow2(up(exponent(x) + 24))
}

pub open spec fn unit_parts(x: Single) -> nat {
    pow2(down(exponent(x) + 24))
}

/// `mag` is the half magnitude nearest to `num / den` units, ties to the even one, and infinity
/// from half way past the largest half on.
pub open spec fn is_nearest_half(num: nat, den: nat, mag: int) -> bool {
    &&& 0 <= mag <= HALF_INF
    &&& mag < HALF_INF ==> 2 * num < (half_value(mag) + half_value(mag + 1)) * den || (2 * num == (
    half_value(mag) + half_value(mag + 1)) * den && mag % 2 == 0)
    &&& mag > 0 ==> 2 * num > (half_value(mag - 1) + half_value(mag)) * den || (2 * num == (
    half_value(mag - 1) + half_value(mag)) * den && mag % 2 == 0)
}

/// `h` is `x` as a half: the sign kept, a NaN kept as one, an infinity kept, everything else
/// rounded to the nearest.
pub open spec fn is_half_of(x: Single, h: u16) -> bool {
    let mag = h as int % 0x8000;
    &&& (h >= 0x8000) == is_negative(x)
    &&& if is_finite(x) {
        is_nearest_half(units(x), unit_parts(x), mag)
    } else if x.bits % 0x8000_0000 == 0x7f80_0000 {
        mag == HALF_INF
    } else {
        mag == 0x7e00
    }
}

/// `x` is the half `h`, which single precision holds exactly; a NaN keeps its payload.
pub open spec fn is_single_of_half(h: u16, x: Single) -> bool {
    let mag = h as int % 0x8000;
    &&& is_negative(x) == (h >= 0x8000)
    &&& if mag < HALF_INF {
        is_finite(x) && units(x) == half_value(mag) * unit_parts(x)
    } else {
        x.bits as int % 0x8000_0000 == 0x7f80_0000 + (mag - HALF_INF) * 0x2000
    }
}

proof fn lemma_half_value_step(mag: int)
    requires
        0 <= mag < HALF_INF,
    ensures
        half_value(mag) < half_value(mag + 1),
        mag >= 1024 ==> half_value(mag + 1) == half_value(mag) + pow2((mag / 1024 - 1) as nat),
        mag < 1024 ==> half_value(mag + 1) == mag + 1,
{
    lemma_pow2_next(0);
    if mag == 1023 {
        assert(1024int % 1024 == 0 && 1024int / 1024 == 1);
        assert(1024int * 1 == 1024);
    }
    if mag >= 1024 {
        let e = mag / 1024;
        let k = mag % 1024;
        let p = pow2((e - 1) as nat);
        lemma_pow2_next((e - 1) as nat);
        if k < 1023 {
            assert((mag + 1) / 1024 == e && (mag + 1) % 1024 == k + 1);
            assert((1024 + k + 1) * p == (1024 + k) * p + p) by (nonlinear_arith);
        } else {
            assert((mag + 1) / 1024 == e + 1 && (mag + 1) % 1024 == 0);
            assert(1024 * (2 * p) == (1024 + 1023) * p + p) by (nonlinear_arith);
        }
    }
}

proof fn lemma_half_value_grows(a: int, b: int)
    requires
        0 <= a < b <= HALF_INF,
    ensures
        half_value(a) < half_value(b),
    decreases b - a,
{
    lemma_half_value_step(b - 1);
    if a < b - 1 {
        lemma_half_value_grows(a, b - 1);
    }
}

/// The value of a whole number of parts below or at a half's.
proof fn lemma_rounded_half(num: nat, den: nat, mag: int, low: nat, step: nat)
    requires
        den > 0,
        0 <= mag < HALF_INF,
        low == half_value(mag),
        half_value(mag + 1) == low + step,
        step > 0,
        low * den <= num < (low + step) * den,
    ensures
        2 * num < (2 * low + step) * den ==> is_nearest_half(num, den, mag),
        2 * num > (2 * low + step) * den ==> is_nearest_half(num, den, mag + 1),
        2 * num == (2 * low + step) * den && mag % 2 == 0 ==> is_nearest_half(num, den, mag),
        2 * num == (2 * low + step) * den && mag % 2 == 1 ==> is_nearest_half(num, den, mag + 1),
{
    if mag > 0 {
        lemma_half_value_step(mag - 1);
        let below = half_value(mag - 1);
        assert((below + low) * den < 2 * (low * den)) by (nonlinear_arith)
            requires
                below < low,
                den > 0,
        ;
    }
    if mag + 1 < HALF_INF {
        lemma_half_value_step(mag + 1);
        let above = half_value(mag + 2);
        assert((low + step + above) * den > 2 * ((low + step) * den)) by (nonlinear_arith)
            requires
                above > low + step,
                den > 0,
        ;
    }
    assert((low + (low + step)) == 2 * low + step);
}

/// `2^k` for the shifts of a conversion.
fn small_power(k: u32) -> (p: u32)
    requires
        k <= 24,
    ensures
        p == pow2(k as nat),
        1 <= p <= 0x100_0000,
{
    let mut p: u32 = 1;
    let mut i: u32 = 0;
    proof {
        lemma_pow2_next(0);
        lemma_powers();
    }
    while i < k
        invariant
            i <= k <= 24,
            p == pow2(i as nat),
            1 <= p <= 0x100_0000,
        decreases k - i,
    {
        proof {
            lemma_pow2_next(i as nat);
            lemma_powers();
            if i + 1 < 24 {
                vstd::arithmetic::power2::lemma_pow2_strictly_increases((i + 1) as nat, 24);
            }
        }
        p = 2 * p;
        i += 1;
    }
    p
}

/// Binary32 to binary16: round to nearest even, overflow to infinity, a NaN kept.
#[verifier::spinoff_prover]
pub fn f32_to_f16_bits(x: Single) -> (h: u16)
    ensures
        is_half_of(x, h),
{
    let mag: u32 = x.bits % 0x8000_0000;
    let low: u16 = if mag > 0x7f80_0000 {
        // A NaN stays one.
        0x7e00
    } else if mag == 0x7f80_0000 {
        0x7c00
    } else {
        finite_half(x)
    };
    if x.bits >= 0x8000_0000 {
        0x8000 + low
    } else {
        low
    }
}

/// The half magnitude of a finite number.
#[verifier::spinoff_prover]
fn finite_half(x: Single) -> (h: u16)
    requires
        is_finite(x),
    ensures
        is_nearest_half(units(x), unit_parts(x), h as int),
        h <= HALF_INF,
{
    let mag: u32 = x.bits % 0x8000_0000;
    let exp: u32 = mag / 0x80_0000;
    let mant: u32 = mag % 0x80_0000;
    assert(x.bits as nat % 0x80_0000 == mant);
    assert((x.bits as nat / 0x80_0000) % 256 == exp);
    if exp >= 143 {
        proof {
            lemma_huge(x);
        }
        0x7c00
    } else if exp > 112 {
        normal_half(x, exp, mant)
    } else if exp >= 102 {
        subnormal_half(x, exp, mant)
    } else {
        proof {
            lemma_tiny(x);
        }
        0
    }
}

/// The half magnitude of a number in a subnormal half's range.
fn subnormal_half(x: Single, exp: u32, mant: u32) -> (h: u16)
    requires
        exp == exponent_field(x),
        mant == x.bits as nat % 0x80_0000,
        102 <= exp <= 112,
    ensures
        is_nearest_half(units(x), unit_parts(x), h as int),
{
    let m: u32 = mant + 0x80_0000;
    let shift: u32 = 126 - exp;
    let p = small_power(shift);
    let low: u32 = m / p;
    let rem: u32 = m % p;
    proof {
        lemma_pow2_next(0);
        assert(exponent(x) + 24 == -(shift as int));
        assert(down(exponent(x) + 24) == shift as nat);
        assert(up(exponent(x) + 24) == 0);
        assert(m * 1 == m) by (nonlinear_arith);
        assert(units(x) == m && unit_parts(x) == p);
        lemma_subnormal(m as nat, p as nat, shift as nat, low as nat, rem as nat);
    }
    if rem > p - rem || (rem == p - rem && low % 2 == 1) {
        (low + 1) as u16
    } else {
        low as u16
    }
}

/// The half magnitude of a number in a normal half's range.
fn normal_half(x: Single, exp: u32, mant: u32) -> (h: u16)
    requires
        exp == exponent_field(x),
        mant == x.bits as nat % 0x80_0000,
        112 < exp < 143,
    ensures
        is_nearest_half(units(x), unit_parts(x), h as int),
{
    let low: u32 = (exp - 112) * 1024 + mant / 8192;
    let rem: u32 = mant % 8192;
    proof {
        let q = (exp - 113) as nat;
        lemma_normal(
            mant as nat,
            q,
            low as int,
            rem as nat,
            units(x),
            unit_parts(x),
            exponent(x) + 24,
        );
    }
    // Rounding up may carry into the exponent: the next binade, or infinity at the top.
    if rem > 4096 || (rem == 4096 && low % 2 == 1) {
        (low + 1) as u16
    } else {
        low as u16
    }
}

/// A number past the halves' range is infinite.
proof fn lemma_huge(x: Single)
    requires
        143 <= exponent_field(x),
    ensures
        is_nearest_half(units(x), unit_parts(x), HALF_INF as int),
{
    let m = significand(x);
    let k = (exponent(x) + 24) as nat;
    lemma_pow2_next(0);
    vstd::arithmetic::power2::lemma2_to64();
    if k > 17 {
        vstd::arithmetic::power2::lemma_pow2_strictly_increases(17, k);
    }
    assert(m * pow2(k) >= 0x80_0000 * 0x2_0000) by (nonlinear_arith)
        requires
            m >= 0x80_0000,
            pow2(k) >= 0x2_0000,
    ;
    lemma_top_half();
    lemma_half_value_step(0x7bff);
    assert(unit_parts(x) == 1);
    assert((half_value(0x7bff) + half_value(0x7c00)) * 1 == half_value(0x7bff) + half_value(0x7c00))
        by (nonlinear_arith);
}

proof fn lemma_top_half()
    ensures
        half_value(0x7c00) == 0x100_0000_0000,
{
    vstd::arithmetic::power2::lemma2_to64();
    assert(0x7c00int / 1024 == 31 && 0x7c00int % 1024 == 0);
    assert(pow2(30) == 0x4000_0000);
}

/// A number below the least normal half's binade by more than its precision rounds to zero.
proof fn lemma_tiny(x: Single)
    requires
        exponent_field(x) < 102,
    ensures
        is_nearest_half(units(x), unit_parts(x), 0),
{
    let den = unit_parts(x);
    lemma_powers();
    lemma_pow2_next(0);
    let k = down(exponent(x) + 24);
    assert(exponent(x) + 24 <= -25);
    assert(significand(x) * 1 == significand(x)) by (nonlinear_arith);
    vstd::arithmetic::power2::lemma_pow2_strictly_increases(24, k);
    lemma_pow2_next(24);
    if k > 25 {
        vstd::arithmetic::power2::lemma_pow2_strictly_increases(25, k);
    }
    assert(half_value(0) == 0 && half_value(1) == 1);
    assert((0 + 1) * den == den) by (nonlinear_arith);
    assert(significand(x) < 0x100_0000);
}

proof fn lemma_subnormal(m: nat, p: nat, shift: nat, low: nat, rem: nat)
    requires
        0x80_0000 <= m < 0x100_0000,
        14 <= shift <= 24,
        p == pow2(shift),
        low == m / p,
        rem == m % p,
    ensures
        low < 1024,
        2 * rem > p || (2 * rem == p && low % 2 == 1) ==> is_nearest_half(m, p, low as int + 1),
        !(2 * rem > p || (2 * rem == p && low % 2 == 1)) ==> is_nearest_half(m, p, low as int),
{
    lemma_powers();
    vstd::arithmetic::power2::lemma2_to64();
    lemma_pow2_pos(shift);
    if shift > 14 {
        vstd::arithmetic::power2::lemma_pow2_strictly_increases(14, shift);
    }
    vstd::arithmetic::div_mod::lemma_fundamental_div_mod(m as int, p as int);
    assert(low < 1024) by (nonlinear_arith)
        requires
            m == p * low + rem,
            m < 0x100_0000,
            p >= 0x4000,
    ;
    lemma_half_value_step(low as int);
    assert(p * low == low * p) by (nonlinear_arith);
    assert((low + 1) * p == low * p + p) by (nonlinear_arith);
    assert((2 * low + 1) * p == 2 * (low * p) + p) by (nonlinear_arith);
    lemma_rounded_half(m, p, low as int, low, 1);
}

proof fn lemma_normal(mant: nat, q: nat, low: int, rem: nat, num: nat, den: nat, shift: int)
    requires
        mant < 0x80_0000,
        q <= 29,
        low == (q + 1) * 1024 + mant / 8192,
        rem == mant % 8192,
        shift == q - 13,
        num == (mant + 0x80_0000) * pow2(up(shift)),
        den == pow2(down(shift)),
    ensures
        0 <= low < HALF_INF,
        rem > 4096 || (rem == 4096 && low % 2 == 1) ==> is_nearest_half(num, den, low + 1),
        !(rem > 4096 || (rem == 4096 && low % 2 == 1)) ==> is_nearest_half(num, den, low),
{
    let k = (mant / 8192) as int;
    let m = (mant + 0x80_0000) as int;
    assert(m == (1024 + k) * 8192 + rem);
    assert(low / 1024 == q + 1 && low % 1024 == k);
    let s = pow2(q);
    let v = half_value(low);
    lemma_half_value_step(low);
    lemma_pow2_pos(q);
    lemma_pow2_pos(up(shift));
    lemma_pow2_pos(down(shift));
    assert(v == (1024 + k) * s);
    // m * 2^(q - 13) against (1024 + k) * 2^q: with a = 2^up, d = 2^down, a * 8192 == s * d.
    let a = pow2(up(shift));
    assert(a * 8192 == s * den) by {
        vstd::arithmetic::power2::lemma2_to64();
        vstd::arithmetic::power2::lemma_pow2_adds(up(shift), 13);
        vstd::arithmetic::power2::lemma_pow2_adds(q, down(shift));
        assert(up(shift) + 13 == q + down(shift));
    }
    assert(num == (1024 + k) * (a * 8192) + rem * a) by (nonlinear_arith)
        requires
            num == m * a,
            m == (1024 + k) * 8192 + rem,
    ;
    assert((1024 + k) * (a * 8192) == v * den) by (nonlinear_arith)
        requires
            a * 8192 == s * den,
            v == (1024 + k) * s,
    ;
    assert(num == v * den + rem * a);
    assert((v + s) * den == v * den + s * den) by (nonlinear_arith);
    assert((2 * v + s) * den == 2 * (v * den) + s * den) by (nonlinear_arith);
    assert(rem * a < a * 8192) by (nonlinear_arith)
        requires
            rem < 8192,
            a > 0,
    ;
    assert(rem * a >= 0) by (nonlinear_arith)
        requires
            rem >= 0,
            a > 0,
    ;
    assert(rem > 4096 ==> 2 * (rem * a) > a * 8192) by (nonlinear_arith)
        requires
            a > 0,
    ;
    assert(rem < 4096 ==> 2 * (rem * a) < a * 8192) by (nonlinear_arith)
        requires
            a > 0,
    ;
    assert(rem == 4096 ==> 2 * (rem * a) == a * 8192) by (nonlinear_arith);
    lemma_rounded_half(num, den, low, v, s);
}

/// Binary16 to binary32, which holds every half exactly.
pub fn f16_bits_to_f32(h: u16) -> (x: Single)
    ensures
        is_single_of_half(h, x),
{
    let negative = h >= 0x8000;
    let mag: u32 = h as u32 % 0x8000;
    let exp: u32 = mag / 1024;
    let mant: u32 = mag % 1024;
    if mag == 0 {
        let x = Single { bits: if negative { 0x8000_0000 } else { 0 } };
        proof {
            assert(significand(x) == 0);
            assert(0 * pow2(up(exponent(x) + 24)) == 0) by (nonlinear_arith);
            assert(0 * unit_parts(x) == 0) by (nonlinear_arith);
        }
        return x;
    }
    if exp == 31 {
        let low: u32 = 0x7f80_0000 + mant * 0x2000;
        return Single { bits: if negative { 0x8000_0000 + low } else { low } };
    }
    if exp == 0 {
        let mut m: u32 = mant;
        let mut j: u32 = 0;
        proof {
            lemma_pow2_next(0);
            assert(mant * 1 == mant) by (nonlinear_arith);
        }
        while m < 1024
            invariant
                0 < mant < 1024,
                0 < m < 2048,
                j <= 10,
                m == mant * pow2(j as nat),
                m >= pow2(j as nat),
            decreases 2048 - m,
        {
            proof {
                lemma_pow2_next(j as nat);
                assert(mant * (2 * pow2(j as nat)) == 2 * (mant * pow2(j as nat))) by (nonlinear_arith);
                vstd::arithmetic::power2::lemma2_to64();
                if j >= 10 {
                    assert(pow2(j as nat) >= 1024);
                }
            }
            m = 2 * m;
            j += 1;
        }
        let x = pack(negative, m * 8192, -37 - j as i32);
        proof {
            vstd::arithmetic::power2::lemma2_to64();
            lemma_pow2_next(0);
            assert(down(exponent(x) + 24) == 13 + j as nat);
            vstd::arithmetic::power2::lemma_pow2_adds(13, j as nat);
            assert((m * 8192) * 1 == m * 8192) by (nonlinear_arith);
            assert(m * 8192 == mant * (8192 * pow2(j as nat))) by (nonlinear_arith)
                requires
                    m == mant * pow2(j as nat),
            ;
        }
        return x;
    }
    let x = pack(negative, (1024 + mant) * 8192, exp as i32 - 38);
    proof {
        vstd::arithmetic::power2::lemma2_to64();
        lemma_pow2_next(0);
        let t = (1024 + mant) as nat;
        let shift = exponent(x) + 24;
        assert(shift == exp - 14);
        vstd::arithmetic::power2::lemma_pow2_adds(13, up(shift));
        vstd::arithmetic::power2::lemma_pow2_adds((exp - 1) as nat, down(shift));
        assert(13 + up(shift) == (exp - 1) + down(shift));
        let (a, b, c) = (pow2(up(shift)), pow2((exp - 1) as nat), pow2(down(shift)));
        assert(8192 * a == b * c);
        assert((t * 8192) * a == (t * b) * c) by (nonlinear_arith)
            requires
                8192 * a == b * c,
        ;
    }
    x
}

/// A half that is no NaN comes back from single precision as it was, and a NaN comes back as one.
pub proof fn law_half_round_trip(h: u16, x: Single, back: u16)
    requires
        is_single_of_half(h, x),
        is_half_of(x, back),
    ensures
        h as int % 0x8000 <= HALF_INF ==> back == h,
        h as int % 0x8000 > HALF_INF ==> back as int % 0x8000 > HALF_INF,
{
    let mag = h as int % 0x8000;
    let got = back as int % 0x8000;
    if mag < HALF_INF {
        let den = unit_parts(x);
        let v = half_value(mag);
        lemma_pow2_pos(down(exponent(x) + 24));
        if got < mag {
            lemma_half_value_step(got);
            lemma_half_value_grows(got, mag);
            if got + 1 < mag {
                lemma_half_value_grows(got + 1, mag);
            }
            let w = half_value(got) + half_value(got + 1);
            assert(w * den < 2 * (v * den)) by (nonlinear_arith)
                requires
                    w < 2 * v,
                    den > 0,
            ;
        }
        if got > mag {
            lemma_half_value_grows(mag, got);
            if mag < got - 1 {
                lemma_half_value_grows(mag, got - 1);
            }
            let w = half_value(got - 1) + half_value(got);
            assert(w * den > 2 * (v * den)) by (nonlinear_arith)
                requires
                    w > 2 * v,
                    den > 0,
            ;
        }
    }
}

/// The 16-bit number at `i`, its low byte first.
pub open spec fn le16_at(bytes: Seq<u8>, i: int) -> int {
    bytes[i] + 256 * bytes[i + 1]
}

/// The 32-bit number at `i`, its low byte first.
pub open spec fn le32_at(bytes: Seq<u8>, i: int) -> int {
    le16_at(bytes, i) + 65536 * le16_at(bytes, i + 2)
}

fn push_le16(out: &mut Vec<u8>, v: u16)
    ensures
        final(out)@ == old(out)@.push((v % 256) as u8).push((v / 256) as u8),
{
    out.push((v % 256) as u8);
    out.push((v / 256) as u8);
}

/// `h` is the 16-bit sample `v` of the range `0..=65535` as a half of the same value in `0..=1`,
/// by way of single precision.
pub open spec fn is_unorm_half(v: int, h: int) -> bool {
    if v == 0 {
        h == 0
    } else {
        exists|x: Single| is_half_by_way_of(v, x, h)
    }
}

/// `x` is `v / 65535` in single precision, and `h` is `x` as a half.
pub open spec fn is_half_by_way_of(v: int, x: Single, h: int) -> bool {
    is_nearest(v as nat, 65535, x) && 0 <= h <= u16::MAX && is_half_of(x, h as u16)
}

fn unorm_half(v: u16) -> (h: u16)
    ensures
        is_unorm_half(v as int, h as int),
{
    if v == 0 {
        return 0;
    }
    let (sig, exp) = single_ratio(v as u128, 65535);
    let x = pack(false, sig, exp);
    let h = f32_to_f16_bits(x);
    assert(is_half_by_way_of(v as int, x, h as int));
    h
}

/// Reinterpret 16-bit samples as halves of the same value; an odd byte at the end is dropped.
pub fn u16_to_f16(bytes: &[u8]) -> (out: Vec<u8>)
    ensures
        out.len() == bytes.len() / 2 * 2,
        forall|i: int|
            0 <= i < bytes.len() / 2 ==> is_unorm_half(
                #[trigger] le16_at(bytes@, 2 * i),
                le16_at(out@, 2 * i),
            ),
{
    let n = bytes.len() / 2;
    let mut out: Vec<u8> = Vec::new();
    let mut i: usize = 0;
    while i < n
        invariant
            n == bytes.len() / 2,
            i <= n,
            out.len() == 2 * i,
            forall|k: int|
                0 <= k < i ==> is_unorm_half(
                    #[trigger] le16_at(bytes@, 2 * k),
                    le16_at(out@, 2 * k),
                ),
        decreases n - i,
    {
        let v: u16 = bytes[2 * i] as u16 + 256 * bytes[2 * i + 1] as u16;
        let ghost was = out@;
        let h = unorm_half(v);
        push_le16(&mut out, h);
        proof {
            assert(le16_at(out@, 2 * i) == h);
            assert forall|k: int| 0 <= k < i + 1 implies is_unorm_half(
                #[trigger] le16_at(bytes@, 2 * k),
                le16_at(out@, 2 * k),
            ) by {
                if k < i {
                    assert(le16_at(out@, 2 * k) == le16_at(was, 2 * k));
                }
            }
        }
        i += 1;
    }
    out
}

/// `h` is the single-precision number of these bits as a half.
pub open spec fn is_narrowed(bits: int, h: int) -> bool {
    0 <= bits <= u32::MAX && 0 <= h <= u16::MAX && is_half_of(
        Single { bits: bits as u32 },
        h as u16,
    )
}

/// Narrow single-precision samples to halves; up to three bytes at the end are dropped.
pub fn f32_to_f16(bytes: &[u8]) -> (out: Vec<u8>)
    ensures
        out.len() == bytes.len() / 4 * 2,
        forall|i: int|
            0 <= i < bytes.len() / 4 ==> is_narrowed(
                #[trigger] le32_at(bytes@, 4 * i),
                le16_at(out@, 2 * i),
            ),
{
    let n = bytes.len() / 4;
    let mut out: Vec<u8> = Vec::new();
    let mut i: usize = 0;
    while i < n
        invariant
            n == bytes.len() / 4,
            i <= n,
            out.len() == 2 * i,
            forall|k: int|
                0 <= k < i ==> is_narrowed(
                    #[trigger] le32_at(bytes@, 4 * k),
                    le16_at(out@, 2 * k),
                ),
        decreases n - i,
    {
        let lo: u32 = bytes[4 * i] as u32 + 256 * bytes[4 * i + 1] as u32;
        let hi: u32 = bytes[4 * i + 2] as u32 + 256 * bytes[4 * i + 3] as u32;
        let bits: u32 = lo + 65536 * hi;
        let ghost was = out@;
        let h = f32_to_f16_bits(Single { bits });
        push_le16(&mut out, h);
        proof {
            assert(le16_at(out@, 2 * i) == h);
            assert(le32_at(bytes@, 4 * i) == bits);
            assert forall|k: int| 0 <= k < i + 1 implies is_narrowed(
                #[trigger] le32_at(bytes@, 4 * k),
                le16_at(out@, 2 * k),
            ) by {
                if k < i {
                    assert(le16_at(out@, 2 * k) == le16_at(was, 2 * k));
                }
            }
        }
        i += 1;
    }
    out
}

/// Samples are stored lowest byte first.
pub proof fn law_lowest_byte_comes_first(bytes: Seq<u8>, i: int)
    ensures
        le16_at(bytes, i) % 256 == bytes[i],
        le16_at(bytes, i) / 256 == bytes[i + 1],
        le32_at(bytes, i) % 256 == bytes[i],
        le32_at(bytes, i) / 256 % 256 == bytes[i + 1],
        le32_at(bytes, i) / 65536 % 256 == bytes[i + 2],
        le32_at(bytes, i) / 16777216 == bytes[i + 3],
        0 <= le16_at(bytes, i) <= 0xffff,
        0 <= le32_at(bytes, i) <= 0xffff_ffff,
{
}

/// A half has the sign of the number it stands for, and what is no number stays none.
pub proof fn law_halves_keep_sign_and_kind(x: Single, h: u16)
    requires
        is_half_of(x, h),
    ensures
        h >= 0x8000 <==> is_negative(x),
        !is_finite(x) && x.bits % 0x8000_0000 != 0x7f80_0000 <==> h as int % 0x8000 > HALF_INF,
        !is_finite(x) && x.bits % 0x8000_0000 == 0x7f80_0000 ==> h as int % 0x8000 == HALF_INF,
{
}

/// Finite halves grow with their bits: the next bit pattern stands for the next larger number.
pub proof fn law_halves_grow_with_their_bits(mag: int)
    requires
        0 <= mag < HALF_INF,
    ensures
        half_value(mag) < half_value(mag + 1),
        half_value(0) == 0,
        half_value(1) == 1,
{
    let (e, m) = (mag / 1024, mag % 1024);
    vstd::arithmetic::power2::lemma2_to64();
    if e >= 1 {
        let p = pow2((e - 1) as nat) as int;
        vstd::arithmetic::power2::lemma_pow2_pos((e - 1) as nat);
        crate::ratio::lemma_pow2_next((e - 1) as nat);
        assert(half_value(mag) == (1024 + m) * p);
        if m < 1023 {
            assert((mag + 1) / 1024 == e && (mag + 1) % 1024 == m + 1);
            assert(half_value(mag + 1) == (1024 + (m + 1)) * p);
            assert((1024 + m) * p < (1024 + (m + 1)) * p) by (nonlinear_arith)
                requires
                    p > 0,
            ;
        } else {
            assert((mag + 1) / 1024 == e + 1 && (mag + 1) % 1024 == 0);
            assert((e - 1) + 1 == e);
            assert(pow2(e as nat) == 2 * p);
            assert(half_value(mag + 1) == 1024 * (2 * p));
            assert((1024 + m) * p == 2047 * p);
        }
    } else if mag == 1023 {
        assert((mag + 1) / 1024 == 1 && (mag + 1) % 1024 == 0);
        assert(half_value(mag + 1) == 1024);
    }
}

} // verus!
