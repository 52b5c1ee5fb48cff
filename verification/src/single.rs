//! Single-precision numbers by their bit patterns: finiteness, order and the range clamp of the
//! settings.
use vstd::prelude::*;

verus! {

/// An IEEE binary32 number, held as its bits.
#[derive(Clone, Copy, Debug, PartialEq, Eq, Structural)]
pub struct Single {
    pub bits: u32,
}

/// Whether the number is neither infinite nor a NaN: its exponent field is not all ones.
pub open spec fn is_finite(x: Single) -> bool {
    x.bits % 0x8000_0000 < 0x7f80_0000
}

/// The place of a finite number in numeric order: the magnitude bits count up with the value, and
/// both zeros stand at `0`.
pub open spec fn rank(x: Single) -> int {
    if x.bits < 0x8000_0000 {
        x.bits as int
    } else {
        0x8000_0000 - x.bits
    }
}

/// `v` brought into `lo..=hi`, or `fallback` where it is not finite.
pub open spec fn clamped(v: Single, fallback: Single, lo: Single, hi: Single) -> Single {
    if !is_finite(v) {
        fallback
    } else if rank(v) < rank(lo) {
        lo
    } else if rank(v) > rank(hi) {
        hi
    } else {
        v
    }
}

/// Whether `v` is a number of the range.
pub open spec fn in_range(v: Single, lo: Single, hi: Single) -> bool {
    is_finite(v) && rank(lo) <= rank(v) <= rank(hi)
}

impl Single {
    /// The number with these bits.
    pub fn from_bits(bits: u32) -> (r: Single)
        ensures
            r == (Single { bits }),
    {
        Single { bits }
    }

    /// The bits of the number.
    pub fn to_bits(self) -> (r: u32)
        ensures
            r == self.bits,
    {
        self.bits
    }

    fn rank_of(self) -> (r: i64)
        ensures
            r == rank(self),
    {
        if self.bits < 0x8000_0000 {
            self.bits as i64
        } else {
            0x8000_0000 - self.bits as i64
        }
    }
}

/// Clamp `v` into `lo..=hi`, with `fallback` in place of a NaN or an infinity.
pub fn clamp_finite(v: Single, fallback: Single, lo: Single, hi: Single) -> (r: Single)
    ensures
        r == clamped(v, fallback, lo, hi),
{
    if v.bits % 0x8000_0000 >= 0x7f80_0000 {
        fallback
    } else if v.rank_of() < lo.rank_of() {
        lo
    } else if v.rank_of() > hi.rank_of() {
        hi
    } else {
        v
    }
}

/// A clamped value is in range, and one in range is kept as it is: clamping twice changes nothing.
pub proof fn law_clamp_lands_in_range(v: Single, fallback: Single, lo: Single, hi: Single)
    requires
        in_range(fallback, lo, hi),
        is_finite(lo),
        is_finite(hi),
    ensures
        in_range(clamped(v, fallback, lo, hi), lo, hi),
        in_range(v, lo, hi) ==> clamped(v, fallback, lo, hi) == v,
        clamped(clamped(v, fallback, lo, hi), fallback, lo, hi) == clamped(v, fallback, lo, hi),
{
}

/// The sign of a number: whether its sign bit is set.
pub open spec fn is_negative(x: Single) -> bool {
    x.bits >= 0x8000_0000
}

/// The significand of a finite number.
pub open spec fn significand(x: Single) -> nat {
    let fraction = x.bits as nat % 0x80_0000;
    if exponent_field(x) == 0 {
        fraction
    } else {
        fraction + 0x80_0000
    }
}

/// The exponent bits.
pub open spec fn exponent_field(x: Single) -> nat {
    (x.bits as nat / 0x80_0000) % 256
}

/// The exponent of a finite number: its magnitude is `significand * 2^exponent`.
pub open spec fn exponent(x: Single) -> int {
    if exponent_field(x) == 0 {
        -149
    } else {
        exponent_field(x) - 150
    }
}

/// The number with a normal significand and exponent.
pub open spec fn packed(negative: bool, sig: nat, exp: int) -> Single {
    Single {
        bits: ((if negative {
            0x8000_0000int
        } else {
            0int
        }) + (exp + 149) * 0x80_0000 + sig) as u32,
    }
}

/// The bits of `sig * 2^exp` for a normal significand and exponent.
pub fn pack(negative: bool, sig: u32, exp: i32) -> (x: Single)
    requires
        0x80_0000 <= sig < 0x100_0000,
        -149 <= exp <= 104,
    ensures
        x == packed(negative, sig as nat, exp as int),
        is_finite(x),
        is_negative(x) == negative,
        significand(x) == sig,
        exponent(x) == exp,
{
    let field: u32 = (exp + 150) as u32;
    let low: u32 = field * 0x80_0000 + (sig - 0x80_0000);
    let x = Single { bits: if negative { 0x8000_0000 + low } else { low } };
    proof {
        let f = field as int;
        let b = x.bits as int;
        let base = if negative { 256int } else { 0int };
        vstd::arithmetic::div_mod::lemma_fundamental_div_mod_converse(
            b,
            0x80_0000,
            base + f,
            sig - 0x80_0000,
        );
        vstd::arithmetic::div_mod::lemma_fundamental_div_mod_converse(
            base + f,
            256,
            base / 256,
            f,
        );
        assert(x.bits % 0x8000_0000 == low);
    }
    x
}

/// The significand and exponent of a number, as executed.
pub fn parts(x: Single) -> (r: (u32, i32))
    ensures
        r.0 == significand(x),
        r.1 == exponent(x),
        r.0 < 0x100_0000,
        is_finite(x) ==> -149 <= r.1 <= 104,
        r.0 < 0x80_0000 ==> r.1 == -149,
{
    let fraction = x.bits % 0x80_0000;
    let field = (x.bits / 0x80_0000) % 256;
    proof {
        let q = x.bits / 0x80_0000;
        assert(x.bits == q * 0x80_0000 + fraction);
        if is_finite(x) && field == 255 {
            assert(x.bits % 0x8000_0000 >= 0x7f80_0000);
        }
    }
    if field == 0 {
        (fraction, -149)
    } else {
        (fraction + 0x80_0000, field as i32 - 150)
    }
}

/// Clamping moves a number no further than it must: to the lower end where it lies below, to
/// the upper end where it lies above, and only what is no number takes the fallback.
pub proof fn law_clamp_moves_to_the_near_end(v: Single, fallback: Single, lo: Single, hi: Single)
    requires
        rank(lo) <= rank(hi),
        is_finite(v),
    ensures
        rank(v) <= rank(lo) ==> rank(clamped(v, fallback, lo, hi)) == rank(lo),
        rank(v) >= rank(hi) ==> rank(clamped(v, fallback, lo, hi)) == rank(hi),
        rank(lo) <= rank(v) <= rank(hi) ==> clamped(v, fallback, lo, hi) == v,
        clamped(Single { bits: 0x7fc0_0000 }, fallback, lo, hi) == fallback,
{
}

/// The order of numbers: flipping the sign mirrors it about zero, and among positive numbers the
/// greater exponent, then the greater significand, ranks higher.
pub proof fn law_rank_orders_numbers(x: Single, y: Single)
    ensures
        x.bits < 0x8000_0000 ==> rank(Single { bits: (x.bits + 0x8000_0000) as u32 }) == -rank(x),
        !is_negative(x) && !is_negative(y) && exponent_field(x) < exponent_field(y) ==> rank(x)
            < rank(y),
        !is_negative(x) && !is_negative(y) && exponent_field(x) == exponent_field(y)
            && significand(x) < significand(y) ==> rank(x) < rank(y),
        is_negative(x) && !is_negative(y) ==> rank(x) <= rank(y),
{
}

/// A number is finite unless its exponent is the largest there is, and negative, zero included,
/// where its topmost bit is set.
pub proof fn law_kinds_of_numbers(x: Single)
    ensures
        is_finite(x) <==> exponent_field(x) < 255,
        !is_finite(Single { bits: 0x7f80_0000 }),
        is_finite(Single { bits: 0x7f7f_ffff }),
        is_negative(x) <==> x.bits / 0x8000_0000 == 1,
        is_negative(Single { bits: 0x8000_0000 }),
{
}

} // verus!
