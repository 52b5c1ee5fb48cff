//! The image's mip chain: its length, the dimensions of its levels, which of a file's own levels
//! are kept, and the box filter that makes the others.
//!
//! Averaging four texels is the caller's; what is stated here is which texels make which, and that
//! no level is read past its end.
use crate::image::{bytes_per_texel, texel_bytes, PixelFormat};
use crate::ratio::lemma_pow2_next;
use vstd::arithmetic::power2::{lemma_pow2_pos, pow2};
use vstd::prelude::*;

verus! {

pub open spec fn larger(a: u32, b: u32) -> u32 {
    if a > b {
        a
    } else {
        b
    }
}

/// `n` is the number of levels of a full chain whose longer side is `m` texels.
pub open spec fn is_level_count(m: nat, n: nat) -> bool {
    n >= 1 && pow2((n - 1) as nat) <= m && m < pow2(n)
}

/// The number of mip levels in a full chain for a `w` by `h` texture.
pub fn level_count(w: u32, h: u32) -> (n: u32)
    ensures
        is_level_count(larger(larger(w, h), 1) as nat, n as nat),
        1 <= n <= 32,
{
    let mut m: u32 = if w > h {
        w
    } else {
        h
    };
    if m < 1 {
        m = 1;
    }
    let ghost top = m as nat;
    let mut n: u32 = 1;
    proof {
        lemma_pow2_next(0);
        assert(top * 1 == top) by (nonlinear_arith);
        vstd::arithmetic::div_mod::lemma_div_basics(top as int);
    }
    while m > 1
        invariant
            1 <= m <= u32::MAX,
            1 <= n <= 32,
            top <= u32::MAX,
            m == top / pow2((n - 1) as nat),
            m * pow2((n - 1) as nat) <= top,
        decreases m,
    {
        proof {
            let p = pow2((n - 1) as nat);
            lemma_pow2_next((n - 1) as nat);
            vstd::arithmetic::div_mod::lemma_div_denominator(top as int, p as int, 2);
            assert(p * 2 == 2 * p) by (nonlinear_arith);
            let half = m / 2;
            assert(half * (2 * p) <= m * p) by (nonlinear_arith)
                requires
                    half * 2 <= m,
                    p >= 0,
            ;
            // At most 32 levels: the power stays within the longer side.
            vstd::arithmetic::power2::lemma2_to64();
            if n >= 32 {
                assert(p >= 0x8000_0000) by {
                    if n > 32 {
                        vstd::arithmetic::power2::lemma_pow2_strictly_increases(31, (n - 1) as nat);
                    }
                }
                assert(m * p >= 2 * 0x8000_0000) by (nonlinear_arith)
                    requires
                        m >= 2,
                        p >= 0x8000_0000,
                ;
            }
        }
        m = m / 2;
        n += 1;
    }
    proof {
        let p = pow2((n - 1) as nat);
        lemma_pow2_next((n - 1) as nat);
        vstd::arithmetic::div_mod::lemma_fundamental_div_mod(top as int, p as int);
        assert(p * 1 == p) by (nonlinear_arith);
        vstd::arithmetic::div_mod::lemma_mod_bound(top as int, p as int);
    }
    n
}

/// One axis of a level: halved as often as the level says, rounding down, and at least one.
pub open spec fn level_dim(len: u32, level: nat) -> nat {
    let d = len as nat / pow2(level);
    if d > 1 {
        d
    } else {
        1
    }
}

fn level_axis(len: u32, level: u32) -> (d: u32)
    ensures
        d == level_dim(len, level as nat),
        d >= 1,
        d <= len || d == 1,
{
    let mut d = len;
    let mut i: u32 = 0;
    proof {
        lemma_pow2_next(0);
        vstd::arithmetic::div_mod::lemma_div_basics(len as int);
    }
    while i < level && d > 0
        invariant
            i <= level,
            d <= len,
            d == len as nat / pow2(i as nat),
        decreases level - i,
    {
        proof {
            lemma_pow2_next(i as nat);
            let p = pow2(i as nat);
            vstd::arithmetic::div_mod::lemma_div_denominator(len as int, p as int, 2);
            assert(p * 2 == 2 * p) by (nonlinear_arith);
        }
        d = d / 2;
        i += 1;
    }
    proof {
        if i < level {
            lemma_stays_zero(len as nat, i as nat, level as nat);
        }
    }
    if d > 1 {
        d
    } else {
        1
    }
}

proof fn lemma_stays_zero(len: nat, i: nat, j: nat)
    requires
        i <= j,
        len / pow2(i) == 0,
    ensures
        len / pow2(j) == 0,
{
    lemma_pow2_pos(i);
    lemma_pow2_pos(j);
    if i < j {
        vstd::arithmetic::power2::lemma_pow2_strictly_increases(i, j);
    }
    vstd::arithmetic::div_mod::lemma_div_is_ordered_by_denominator(
        len as int,
        pow2(i) as int,
        pow2(j) as int,
    );
    vstd::arithmetic::div_mod::lemma_div_pos_is_pos(len as int, pow2(j) as int);
}

/// The dimensions of a level: each axis halves on its own, rounding down, and never reaches zero.
pub fn level_dims(w: u32, h: u32, level: u32) -> (r: (u32, u32))
    ensures
        r.0 == level_dim(w, level as nat),
        r.1 == level_dim(h, level as nat),
        r.0 >= 1 && r.1 >= 1,
{
    (level_axis(w, level), level_axis(h, level))
}

/// Each axis of a level is half the axis of the level above, rounded down, and never below one.
pub proof fn law_levels_halve(len: u32, level: nat)
    ensures
        level_dim(len, level + 1) == (if level_dim(len, level) / 2 > 1 {
            level_dim(len, level) / 2
        } else {
            1
        }),
{
    let p = pow2(level);
    lemma_pow2_next(level);
    vstd::arithmetic::div_mod::lemma_div_denominator(len as int, p as int, 2);
    assert(p * 2 == 2 * p) by (nonlinear_arith);
}

/// A chain ends in a single texel, and no level before the last is one.
pub proof fn law_chain_ends_in_one_texel(w: u32, h: u32, n: nat, level: nat)
    requires
        is_level_count(larger(larger(w, h), 1) as nat, n),
    ensures
        level_dim(w, (n - 1) as nat) == 1,
        level_dim(h, (n - 1) as nat) == 1,
        level + 1 < n ==> level_dim(w, level) > 1 || level_dim(h, level) > 1,
{
    let m = larger(larger(w, h), 1) as nat;
    let p = pow2((n - 1) as nat);
    lemma_pow2_next((n - 1) as nat);
    lemma_below_twice(w as nat, p);
    lemma_below_twice(h as nat, p);
    if level + 1 < n {
        let q = pow2(level);
        lemma_pow2_next(level);
        if level + 1 < n - 1 {
            vstd::arithmetic::power2::lemma_pow2_strictly_increases(level + 1, (n - 1) as nat);
        }
        assert(m >= 2 * q);
        vstd::arithmetic::div_mod::lemma_fundamental_div_mod(m as int, q as int);
        vstd::arithmetic::div_mod::lemma_mod_bound(m as int, q as int);
        let d = (m / q) as int;
        assert(d >= 2) by (nonlinear_arith)
            requires
                m == q * d + m % q,
                m % q < q,
                m >= 2 * q,
                q >= 1,
        ;
    }
}

proof fn lemma_below_twice(v: nat, p: nat)
    requires
        p > 0,
        v < 2 * p,
    ensures
        v / p <= 1,
{
    let d = v / p;
    vstd::arithmetic::div_mod::lemma_fundamental_div_mod(v as int, p as int);
    vstd::arithmetic::div_mod::lemma_mod_bound(v as int, p as int);
    assert(d <= 1) by (nonlinear_arith)
        requires
            v == p * d + v % p,
            v % p >= 0,
            v < 2 * p,
            p > 0,
    ;
}

/// The two positions along an axis of `len` texels that make position `i` of the next level, the
/// last texel standing in past an odd edge.
pub open spec fn taps(i: int, len: int) -> (int, int) {
    (
        if 2 * i < len {
            2 * i
        } else {
            len - 1
        },
        if 2 * i + 1 < len {
            2 * i + 1
        } else {
            len - 1
        },
    )
}

fn taps_of(i: u32, len: u32) -> (r: (u32, u32))
    requires
        len > 0,
    ensures
        (r.0 as int, r.1 as int) == taps(i as int, len as int),
        r.0 < len && r.1 < len,
{
    let a: u64 = 2 * i as u64;
    (
        if a < len as u64 {
            a as u32
        } else {
            len - 1
        },
        if a + 1 < len as u64 {
            (a + 1) as u32
        } else {
            len - 1
        },
    )
}

/// The byte offset of a texel.
pub open spec fn texel_at(x: int, y: int, w: int, e: int) -> int {
    (y * w + x) * e
}

/// `average` takes the offsets of four texels of `e` bytes each in a level, and gives one texel.
pub open spec fn averages_texels<F: Fn(&Vec<u8>, usize, usize, usize, usize) -> Vec<u8>>(
    average: F,
    e: int,
) -> bool {
    &&& forall|s: &Vec<u8>, a: usize, b: usize, c: usize, d: usize|
        a + e <= s@.len() && b + e <= s@.len() && c + e <= s@.len() && d + e <= s@.len()
            ==> #[trigger] average.requires((s, a, b, c, d))
    &&& forall|s: &Vec<u8>, a: usize, b: usize, c: usize, d: usize, r: Vec<u8>| #[trigger]
        average.ensures((s, a, b, c, d), r) ==> r@.len() == e
}

/// Texel `(x, y)` of a level is the average of its four texels of the `sw` by `sh` level `src`.
pub open spec fn is_average<F: Fn(&Vec<u8>, usize, usize, usize, usize) -> Vec<u8>>(
    average: F,
    src: &Vec<u8>,
    sw: int,
    sh: int,
    e: int,
    x: int,
    y: int,
    texel: Seq<u8>,
) -> bool {
    let (x0, x1) = taps(x, sw);
    let (y0, y1) = taps(y, sh);
    exists|t: Vec<u8>| #[trigger]
        average.ensures(
            (
                src,
                texel_at(x0, y0, sw, e) as usize,
                texel_at(x1, y0, sw, e) as usize,
                texel_at(x0, y1, sw, e) as usize,
                texel_at(x1, y1, sw, e) as usize,
            ),
            t,
        ) && t@ == texel
}

/// `out` holds the rows `first..first + rows` of the `dw` wide level below `src`.
pub open spec fn is_reduced<F: Fn(&Vec<u8>, usize, usize, usize, usize) -> Vec<u8>>(
    average: F,
    src: &Vec<u8>,
    sw: int,
    sh: int,
    dw: int,
    e: int,
    first: int,
    rows: int,
    out: Seq<u8>,
) -> bool {
    &&& out.len() == rows * dw * e
    &&& forall|x: int, y: int|
        0 <= x < dw && 0 <= y < rows ==> #[trigger] is_average(
            average,
            src,
            sw,
            sh,
            e,
            x,
            first + y,
            out.subrange(texel_at(x, y, dw, e), texel_at(x, y, dw, e) + e),
        )
}

proof fn lemma_texel_inside(x: int, y: int, w: int, h: int, e: int)
    requires
        0 <= x < w,
        0 <= y < h,
        e > 0,
    ensures
        0 <= texel_at(x, y, w, e),
        texel_at(x, y, w, e) + e <= w * h * e,
{
    let i = y * w + x;
    assert(0 <= i < w * h) by (nonlinear_arith)
        requires
            0 <= x < w,
            0 <= y < h,
            i == y * w + x,
    ;
    assert(0 <= i * e && i * e + e <= w * h * e) by (nonlinear_arith)
        requires
            0 <= i < w * h,
            e > 0,
    ;
}

/// Reduce the rows `first..first + rows` of the level below the `sw` by `sh` level `src`.
pub fn reduce_rows<F: Fn(&Vec<u8>, usize, usize, usize, usize) -> Vec<u8>>(
    src: &Vec<u8>,
    sw: u32,
    sh: u32,
    dw: u32,
    e: usize,
    first: u32,
    rows: u32,
    average: &F,
) -> (out: Vec<u8>)
    requires
        sw > 0,
        sh > 0,
        0 < e <= 16,
        first + rows <= u32::MAX,
        sw * sh * e <= src.len(),
        averages_texels(*average, e as int),
    ensures
        is_reduced(
            *average,
            src,
            sw as int,
            sh as int,
            dw as int,
            e as int,
            first as int,
            rows as int,
            out@,
        ),
{
    let mut out: Vec<u8> = Vec::new();
    let mut y: u32 = 0;
    assert(0 * dw * e == 0) by (nonlinear_arith);
    while y < rows
        invariant
            sw > 0,
            sh > 0,
            0 < e <= 16,
            y <= rows,
            first + rows <= u32::MAX,
            sw * sh * e <= src.len(),
            averages_texels(*average, e as int),
            is_reduced(
                *average,
                src,
                sw as int,
                sh as int,
                dw as int,
                e as int,
                first as int,
                y as int,
                out@,
            ),
        decreases rows - y,
    {
        let (y0, y1) = taps_of(first + y, sh);
        let ghost done = out@;
        let mut x: u32 = 0;
        assert(done.len() == texel_at(0, y as int, dw as int, e as int)) by (nonlinear_arith)
            requires
                done.len() == y * dw * e,
                texel_at(0, y as int, dw as int, e as int) == (y * dw + 0) * e,
        ;
        while x < dw
            invariant
                sw > 0,
                sh > 0,
                0 < e <= 16,
                y < rows,
                x <= dw,
                first + rows <= u32::MAX,
                sw * sh * e <= src.len(),
                averages_texels(*average, e as int),
                (y0 as int, y1 as int) == taps(first + y, sh as int),
                y0 < sh && y1 < sh,
                is_reduced(
                    *average,
                    src,
                    sw as int,
                    sh as int,
                    dw as int,
                    e as int,
                    first as int,
                    y as int,
                    done,
                ),
                out@.len() == texel_at(x as int, y as int, dw as int, e as int),
                done.len() == texel_at(0, y as int, dw as int, e as int),
                done.len() <= out@.len(),
                out@.take(done.len() as int) == done,
                forall|k: int|
                    0 <= k < x ==> #[trigger] is_average(
                        *average,
                        src,
                        sw as int,
                        sh as int,
                        e as int,
                        k,
                        first + y,
                        out@.subrange(
                            texel_at(k, y as int, dw as int, e as int),
                            texel_at(k, y as int, dw as int, e as int) + e,
                        ),
                    ),
            decreases dw - x,
        {
            let (x0, x1) = taps_of(x, sw);
            proof {
                lemma_texel_inside(x0 as int, y0 as int, sw as int, sh as int, e as int);
                lemma_texel_inside(x1 as int, y0 as int, sw as int, sh as int, e as int);
                lemma_texel_inside(x0 as int, y1 as int, sw as int, sh as int, e as int);
                lemma_texel_inside(x1 as int, y1 as int, sw as int, sh as int, e as int);
            }
            let a = texel_offset(x0, y0, sw, sh, e, src.len());
            let b = texel_offset(x1, y0, sw, sh, e, src.len());
            let c = texel_offset(x0, y1, sw, sh, e, src.len());
            let d = texel_offset(x1, y1, sw, sh, e, src.len());
            let mut t = average(src, a, b, c, d);
            let ghost texel = t@;
            let ghost before = out@;
            assert(is_average(
                *average,
                src,
                sw as int,
                sh as int,
                e as int,
                x as int,
                first + y,
                texel,
            ));
            out.append(&mut t);
            proof {
                let at = texel_at(x as int, y as int, dw as int, e as int);
                assert(texel_at(x + 1, y as int, dw as int, e as int) == at + e) by (nonlinear_arith)
                    requires
                        at == texel_at(x as int, y as int, dw as int, e as int),
                        at == (y * dw + x) * e,
                        texel_at(x + 1, y as int, dw as int, e as int) == (y * dw + (x + 1)) * e,
                ;
                assert(out@.subrange(at, at + e) =~= texel);
                assert(out@.take(done.len() as int) =~= before.take(done.len() as int));
                assert forall|k: int| 0 <= k < x + 1 implies #[trigger] is_average(
                    *average,
                    src,
                    sw as int,
                    sh as int,
                    e as int,
                    k,
                    first + y,
                    out@.subrange(
                        texel_at(k, y as int, dw as int, e as int),
                        texel_at(k, y as int, dw as int, e as int) + e,
                    ),
                ) by {
                    if k < x {
                        let o = texel_at(k, y as int, dw as int, e as int);
                        lemma_texel_order(k, x as int, y as int, dw as int, e as int);
                        assert(out@.subrange(o, o + e) =~= before.subrange(o, o + e));
                        assert(is_average(
                            *average,
                            src,
                            sw as int,
                            sh as int,
                            e as int,
                            k,
                            first + y,
                            before.subrange(o, o + e),
                        ));
                    }
                }
            }
            x += 1;
        }
        proof {
            lemma_row_added(
                *average,
                src,
                sw as int,
                sh as int,
                dw as int,
                e as int,
                first as int,
                y as int,
                done,
                out@,
            );
        }
        y += 1;
    }
    out
}

proof fn lemma_texel_order(k: int, x: int, y: int, w: int, e: int)
    requires
        0 <= k < x,
        0 <= y,
        0 <= w,
        e > 0,
    ensures
        0 <= texel_at(k, y, w, e),
        texel_at(k, y, w, e) + e <= texel_at(x, y, w, e),
{
    assert(0 <= (y * w + k) * e) by (nonlinear_arith)
        requires
            0 <= k,
            0 <= y,
            0 <= w,
            e > 0,
    ;
    assert((y * w + k) * e + e <= (y * w + x) * e) by (nonlinear_arith)
        requires
            k + 1 <= x,
            e > 0,
    ;
}

/// A finished row behind the rows before it.
proof fn lemma_row_added<F: Fn(&Vec<u8>, usize, usize, usize, usize) -> Vec<u8>>(
    average: F,
    src: &Vec<u8>,
    sw: int,
    sh: int,
    dw: int,
    e: int,
    first: int,
    y: int,
    done: Seq<u8>,
    out: Seq<u8>,
)
    requires
        e > 0,
        dw >= 0,
        y >= 0,
        is_reduced(average, src, sw, sh, dw, e, first, y, done),
        out.len() == texel_at(dw, y, dw, e),
        done.len() <= out.len(),
        out.take(done.len() as int) == done,
        forall|k: int|
            0 <= k < dw ==> #[trigger] is_average(
                average,
                src,
                sw,
                sh,
                e,
                k,
                first + y,
                out.subrange(texel_at(k, y, dw, e), texel_at(k, y, dw, e) + e),
            ),
    ensures
        is_reduced(average, src, sw, sh, dw, e, first, y + 1, out),
{
    assert(texel_at(dw, y, dw, e) == (y + 1) * dw * e) by (nonlinear_arith)
        requires
            texel_at(dw, y, dw, e) == (y * dw + dw) * e,
    ;
    assert forall|x: int, r: int| 0 <= x < dw && 0 <= r < y + 1 implies #[trigger] is_average(
        average,
        src,
        sw,
        sh,
        e,
        x,
        first + r,
        out.subrange(texel_at(x, r, dw, e), texel_at(x, r, dw, e) + e),
    ) by {
        if r < y {
            let o = texel_at(x, r, dw, e);
            lemma_texel_inside(x, r, dw, y, e);
            assert(dw * y * e == y * dw * e) by (nonlinear_arith);
            assert(out.subrange(o, o + e) =~= out.take(done.len() as int).subrange(o, o + e));
            assert(is_average(average, src, sw, sh, e, x, first + r, done.subrange(o, o + e)));
        }
    }
}

/// The byte offset of a texel inside a level of `len` bytes.
fn texel_offset(x: u32, y: u32, w: u32, h: u32, e: usize, len: usize) -> (o: usize)
    requires
        x < w,
        y < h,
        0 < e <= 16,
        w * h * e <= len,
    ensures
        o == texel_at(x as int, y as int, w as int, e as int),
        o + e <= len,
{
    proof {
        lemma_texel_inside(x as int, y as int, w as int, h as int, e as int);
        assert(y * w + x <= (y * w + x) * e) by (nonlinear_arith)
            requires
                e >= 1,
                y * w + x >= 0,
        ;
        assert(0 <= y * w) by (nonlinear_arith)
            requires
                y >= 0,
                w >= 0,
        ;
    }
    (y as usize * w as usize + x as usize) * e
}

/// Two bands of rows, one behind the other, are one band.
pub proof fn law_bands_join<F: Fn(&Vec<u8>, usize, usize, usize, usize) -> Vec<u8>>(
    average: F,
    src: &Vec<u8>,
    sw: int,
    sh: int,
    dw: int,
    e: int,
    first: int,
    m: int,
    n: int,
    a: Seq<u8>,
    b: Seq<u8>,
)
    requires
        e > 0,
        dw >= 0,
        m >= 0,
        n >= 0,
        is_reduced(average, src, sw, sh, dw, e, first, m, a),
        is_reduced(average, src, sw, sh, dw, e, first + m, n, b),
    ensures
        is_reduced(average, src, sw, sh, dw, e, first, m + n, a + b),
{
    let out = a + b;
    assert((m + n) * dw * e == m * dw * e + n * dw * e) by (nonlinear_arith);
    assert forall|x: int, y: int| 0 <= x < dw && 0 <= y < m + n implies #[trigger] is_average(
        average,
        src,
        sw,
        sh,
        e,
        x,
        first + y,
        out.subrange(texel_at(x, y, dw, e), texel_at(x, y, dw, e) + e),
    ) by {
        let o = texel_at(x, y, dw, e);
        if y < m {
            lemma_texel_inside(x, y, dw, m, e);
            assert(dw * m * e == m * dw * e) by (nonlinear_arith);
            assert(out.subrange(o, o + e) =~= a.subrange(o, o + e));
            assert(is_average(average, src, sw, sh, e, x, first + y, a.subrange(o, o + e)));
        } else {
            let r = y - m;
            let p = texel_at(x, r, dw, e);
            lemma_texel_inside(x, r, dw, n, e);
            assert(dw * n * e == n * dw * e) by (nonlinear_arith);
            assert(o == p + m * dw * e) by (nonlinear_arith)
                requires
                    o == (y * dw + x) * e,
                    p == (r * dw + x) * e,
                    r == y - m,
            ;
            assert(out.subrange(o, o + e) =~= b.subrange(p, p + e));
            assert(is_average(average, src, sw, sh, e, x, first + m + r, b.subrange(p, p + e)));
        }
    }
}

/// The number of bytes of a level.
pub open spec fn level_bytes(w: u32, h: u32, level: nat, e: int) -> int {
    level_dim(w, level) * level_dim(h, level) * e
}

/// The level that level `i + 1` is made from.
pub open spec fn upstream<'a>(level0: &'a Vec<u8>, chain: Seq<Vec<u8>>, i: int) -> Vec<u8> {
    if i == 0 {
        *level0
    } else {
        chain[i - 1]
    }
}

/// The levels of `chain` from index `from` on are each the reduction of the one before.
pub open spec fn is_chain<F: Fn(&Vec<u8>, usize, usize, usize, usize) -> Vec<u8>>(
    average: F,
    level0: &Vec<u8>,
    chain: Seq<Vec<u8>>,
    w: u32,
    h: u32,
    e: int,
    from: int,
) -> bool {
    forall|i: int|
        from <= i < chain.len() ==> is_reduced(
            average,
            &upstream(level0, chain, i),
            level_dim(w, i as nat) as int,
            level_dim(h, i as nat) as int,
            level_dim(w, (i + 1) as nat) as int,
            e,
            0,
            level_dim(h, (i + 1) as nat) as int,
            (#[trigger] chain[i])@,
        )
}

proof fn lemma_level_shrinks(len: u32, level: nat)
    ensures
        level_dim(len, level) <= level_dim(len, 0),
        level_dim(len, 0) == larger(len, 1),
{
    lemma_pow2_next(0);
    lemma_pow2_pos(level);
    vstd::arithmetic::div_mod::lemma_div_basics(len as int);
    vstd::arithmetic::div_mod::lemma_div_is_ordered_by_denominator(
        len as int,
        1,
        pow2(level) as int,
    );
}

/// No level holds more bytes than the first.
proof fn lemma_level_bytes(w: u32, h: u32, level: nat, e: int)
    requires
        e > 0,
    ensures
        0 <= level_bytes(w, h, level, e) <= level_bytes(w, h, 0, e),
        level_dim(w, level) * level_dim(h, level) <= level_bytes(w, h, level, e),
{
    lemma_level_shrinks(w, level);
    lemma_level_shrinks(h, level);
    let (a, b, c, d) = (
        level_dim(w, level) as int,
        level_dim(h, level) as int,
        level_dim(w, 0) as int,
        level_dim(h, 0) as int,
    );
    assert(a * b <= c * d && 0 <= a * b) by (nonlinear_arith)
        requires
            0 <= a <= c,
            0 <= b <= d,
    ;
    assert(a * b * e <= c * d * e && a * b <= a * b * e && 0 <= a * b * e) by (nonlinear_arith)
        requires
            0 <= a * b <= c * d,
            e >= 1,
    ;
}

/// Reduce one more level of a chain that is made from index `from` on.
fn add_level<F: Fn(&Vec<u8>, usize, usize, usize, usize) -> Vec<u8>>(
    level0: &Vec<u8>,
    chain: &mut Vec<Vec<u8>>,
    w: u32,
    h: u32,
    e: usize,
    from: Ghost<int>,
    average: &F,
)
    requires
        0 < e <= 16,
        old(chain).len() < 32,
        0 <= from@ <= old(chain).len(),
        averages_texels(*average, e as int),
        level_bytes(w, h, old(chain).len() as nat, e as int) <= upstream(
            level0,
            old(chain)@,
            old(chain).len() as int,
        )@.len(),
        is_chain(*average, level0, old(chain)@, w, h, e as int, from@),
    ensures
        final(chain).len() == old(chain).len() + 1,
        final(chain)@.drop_last() == old(chain)@,
        final(chain)@.last()@.len() == level_bytes(w, h, final(chain).len() as nat, e as int),
        is_chain(*average, level0, final(chain)@, w, h, e as int, from@),
{
    let n = chain.len() as u32;
    let (sw, sh) = level_dims(w, h, n);
    let (dw, dh) = level_dims(w, h, n + 1);
    let ghost was = chain@;
    let ghost src = upstream(level0, was, n as int);
    let next = if n == 0 {
        reduce_rows(level0, sw, sh, dw, e, 0, dh, average)
    } else {
        reduce_rows(&chain[n as usize - 1], sw, sh, dw, e, 0, dh, average)
    };
    proof {
        assert(dh * dw * e == dw * dh * e) by (nonlinear_arith);
    }
    chain.push(next);
    proof {
        assert(chain@.drop_last() =~= was);
        assert(chain@.last() == next);
        assert forall|i: int| from@ <= i < chain.len() implies is_reduced(
            *average,
            &upstream(level0, chain@, i),
            level_dim(w, i as nat) as int,
            level_dim(h, i as nat) as int,
            level_dim(w, (i + 1) as nat) as int,
            e as int,
            0,
            level_dim(h, (i + 1) as nat) as int,
            (#[trigger] chain@[i])@,
        ) by {
            assert(upstream(level0, chain@, i) == upstream(level0, was, i));
            if i < n {
                assert(chain@[i] == was[i]);
            }
        }
    }
}

/// `chain` holds the levels below level 0 of the chain of `pixels`: each the reduction of the one
/// before, down to a single texel; none where `pixels` is shorter than its dimensions declare.
pub open spec fn is_built<F: Fn(&Vec<u8>, usize, usize, usize, usize) -> Vec<u8>>(
    average: F,
    pixels: &Vec<u8>,
    w: u32,
    h: u32,
    e: int,
    chain: Seq<Vec<u8>>,
) -> bool {
    if pixels@.len() < w * h * e {
        chain.len() == 0
    } else {
        &&& is_level_count(larger(larger(w, h), 1) as nat, (chain.len() + 1) as nat)
        &&& is_chain(average, pixels, chain, w, h, e, 0)
    }
}

/// Build the levels below level 0 of the chain of `pixels`, smallest last; none for a single texel,
/// or where `pixels` is shorter than its dimensions declare.
pub fn build<F: Fn(&Vec<u8>, usize, usize, usize, usize) -> Vec<u8>>(
    pixels: &Vec<u8>,
    w: u32,
    h: u32,
    format: PixelFormat,
    average: &F,
) -> (chain: Vec<Vec<u8>>)
    requires
        averages_texels(*average, texel_bytes(format) as int),
        w > 1 ==> h > 0,
        h > 1 ==> w > 0,
    ensures
        is_built(*average, pixels, w, h, texel_bytes(format) as int, chain@),
{
    let e = bytes_per_texel(format);
    let mut chain: Vec<Vec<u8>> = Vec::new();
    let texels: u64 = {
        assert(w * h <= 0xffff_ffff * 0xffff_ffff) by (nonlinear_arith)
            requires
                0 <= w <= 0xffff_ffff,
                0 <= h <= 0xffff_ffff,
        ;
        assert(w * h >= 0) by (nonlinear_arith)
            requires
                0 <= w,
                0 <= h,
        ;
        w as u64 * h as u64
    };
    assert(texels * e <= 0x1_0000_0000_0000_0000 * 16) by (nonlinear_arith)
        requires
            0 <= texels <= 0x1_0000_0000_0000_0000,
            0 <= e <= 16,
    ;
    if (pixels.len() as u128) < texels as u128 * e as u128 {
        return chain;
    }
    let levels = level_count(w, h);
    proof {
        if levels > 1 {
            lemma_pow2_next(0);
            lemma_pow2_next((levels - 2) as nat);
            lemma_pow2_pos((levels - 2) as nat);
            assert(larger(larger(w, h), 1) >= 2);
        }
    }
    while (chain.len() as u32) < levels - 1
        invariant
            1 <= levels <= 32,
            chain.len() < levels,
            0 < e <= 16,
            levels > 1 ==> w > 0 && h > 0,
            w * h * e <= pixels.len(),
            averages_texels(*average, e as int),
            chain.len() > 0 ==> chain@.last()@.len() == level_bytes(
                w,
                h,
                chain.len() as nat,
                e as int,
            ),
            is_chain(*average, pixels, chain@, w, h, e as int, 0),
        decreases levels - chain.len(),
    {
        proof {
            lemma_level_shrinks(w, 0);
            lemma_level_shrinks(h, 0);
        }
        add_level(pixels, &mut chain, w, h, e, Ghost(0), average);
    }
    chain
}

/// The number of supplied levels, from index `i` on, that are kept: while there is room, and each
/// is as long as its dimensions demand.
pub open spec fn kept_from(supplied: Seq<Vec<u8>>, w: u32, h: u32, e: int, room: int, i: int) -> int
    decreases supplied.len() - i,
{
    if i < 0 || i >= supplied.len() || i >= room || supplied[i]@.len() != level_bytes(
        w,
        h,
        (i + 1) as nat,
        e,
    ) {
        i
    } else {
        kept_from(supplied, w, h, e, room, i + 1)
    }
}

/// Turn a file's own mip chain into a full one. Each supplied level is kept while its length
/// matches its dimensions; the first that does not ends the run, and the rest is reduced from the
/// last level kept, so that authored levels stay upstream of computed ones. Where nothing is kept
/// and level 0 is too short, there is no chain.
pub fn complete<F: Fn(&Vec<u8>, usize, usize, usize, usize) -> Vec<u8>>(
    supplied: Vec<Vec<u8>>,
    level0: &Vec<u8>,
    w: u32,
    h: u32,
    format: PixelFormat,
    average: &F,
) -> (chain: Vec<Vec<u8>>)
    requires
        averages_texels(*average, texel_bytes(format) as int),
        level_bytes(w, h, 0, texel_bytes(format) as int) <= usize::MAX,
    ensures
        exists|levels: nat| #[trigger]
            is_level_count(larger(larger(w, h), 1) as nat, levels) && is_completed(
                *average,
                supplied@,
                level0,
                w,
                h,
                texel_bytes(format) as int,
                levels as int,
                chain@,
            ),
{
    let e = bytes_per_texel(format);
    let levels = level_count(w, h);
    let room: usize = levels as usize - 1;
    let mut kept: usize = 0;
    while kept < supplied.len() && kept < room && supplied[kept].len() == bytes_of_level(
        w,
        h,
        kept as u32 + 1,
        e,
    )
        invariant
            room < 32,
            kept <= supplied.len(),
            kept <= room,
            0 < e <= 16,
            level_bytes(w, h, 0, e as int) <= usize::MAX,
            kept_from(supplied@, w, h, e as int, room as int, 0) == kept_from(
                supplied@,
                w,
                h,
                e as int,
                room as int,
                kept as int,
            ),
            forall|i: int|
                0 <= i < kept ==> (#[trigger] supplied@[i])@.len() == level_bytes(
                    w,
                    h,
                    (i + 1) as nat,
                    e as int,
                ),
        decreases supplied.len() - kept,
    {
        kept += 1;
    }
    let ghost given = supplied@;
    assert(kept == kept_from(given, w, h, e as int, room as int, 0));
    let mut chain = supplied;
    chain.truncate(kept);
    if kept == 0 && room > 0 && level0.len() < bytes_of_level(w, h, 0, e) {
        return chain;
    }
    while chain.len() < room
        invariant
            room == levels - 1,
            1 <= levels <= 32,
            kept <= chain.len() <= room,
            0 < e <= 16,
            averages_texels(*average, e as int),
            level_bytes(w, h, 0, e as int) <= usize::MAX,
            chain.len() == 0 && room > 0 ==> level_bytes(w, h, 0, e as int) <= level0.len(),
            chain.len() > 0 ==> chain@.last()@.len() == level_bytes(
                w,
                h,
                chain.len() as nat,
                e as int,
            ),
            kept <= given.len(),
            chain@.take(kept as int) == given.take(kept as int),
            is_chain(*average, level0, chain@, w, h, e as int, kept as int),
        decreases room - chain.len(),
    {
        let ghost was = chain@;
        add_level(level0, &mut chain, w, h, e, Ghost(kept as int), average);
        assert(chain@.take(kept as int) =~= was.take(kept as int)) by {
            assert(chain@.drop_last() == was);
            assert forall|i: int| 0 <= i < kept implies chain@[i] == was[i] by {
                assert(chain@.drop_last()[i] == was[i]);
            }
        }
    }
    chain
}

/// `chain` is the completion of `supplied` to a chain of `levels` levels in all.
pub open spec fn is_completed<F: Fn(&Vec<u8>, usize, usize, usize, usize) -> Vec<u8>>(
    average: F,
    supplied: Seq<Vec<u8>>,
    level0: &Vec<u8>,
    w: u32,
    h: u32,
    e: int,
    levels: int,
    chain: Seq<Vec<u8>>,
) -> bool {
    let kept = kept_from(supplied, w, h, e, levels - 1, 0);
    if kept == 0 && levels > 1 && level0@.len() < level_bytes(w, h, 0, e) {
        chain.len() == 0
    } else {
        &&& chain.len() == levels - 1
        &&& kept <= supplied.len()
        &&& chain.take(kept) == supplied.take(kept)
        &&& is_chain(average, level0, chain, w, h, e, kept)
    }
}

fn bytes_of_level(w: u32, h: u32, level: u32, e: usize) -> (n: usize)
    requires
        0 < e <= 16,
        level_bytes(w, h, 0, e as int) <= usize::MAX,
    ensures
        n == level_bytes(w, h, level as nat, e as int),
{
    let (lw, lh) = level_dims(w, h, level);
    proof {
        lemma_level_bytes(w, h, level as nat, e as int);
        assert(lw * lh >= 0) by (nonlinear_arith)
            requires
                lw >= 0,
                lh >= 0,
        ;
    }
    lw as usize * lh as usize * e
}

/// A full chain of rightly sized levels is kept as it is.
pub proof fn law_full_chain_is_kept<F: Fn(&Vec<u8>, usize, usize, usize, usize) -> Vec<u8>>(
    average: F,
    supplied: Seq<Vec<u8>>,
    level0: &Vec<u8>,
    w: u32,
    h: u32,
    e: int,
    levels: int,
    chain: Seq<Vec<u8>>,
)
    requires
        levels >= 1,
        supplied.len() == levels - 1,
        forall|i: int|
            0 <= i < supplied.len() ==> (#[trigger] supplied[i])@.len() == level_bytes(
                w,
                h,
                (i + 1) as nat,
                e,
            ),
        is_completed(average, supplied, level0, w, h, e, levels, chain),
    ensures
        chain == supplied,
{
    lemma_all_kept(supplied, w, h, e, levels - 1, 0);
    assert(chain =~= chain.take(levels - 1));
    assert(supplied =~= supplied.take(levels - 1));
}

proof fn lemma_all_kept(supplied: Seq<Vec<u8>>, w: u32, h: u32, e: int, room: int, i: int)
    requires
        supplied.len() == room,
        0 <= i <= room,
        forall|k: int|
            0 <= k < supplied.len() ==> (#[trigger] supplied[k])@.len() == level_bytes(
                w,
                h,
                (k + 1) as nat,
                e,
            ),
    ensures
        kept_from(supplied, w, h, e, room, i) == room,
    decreases room - i,
{
    if i < room {
        lemma_all_kept(supplied, w, h, e, room, i + 1);
    }
}

/// `average` gives one result for the same bytes and the same places.
pub open spec fn is_functional<F: Fn(&Vec<u8>, usize, usize, usize, usize) -> Vec<u8>>(
    average: F,
) -> bool {
    forall|
        s: &Vec<u8>,
        t: &Vec<u8>,
        a: usize,
        b: usize,
        c: usize,
        d: usize,
        p: Vec<u8>,
        q: Vec<u8>,
    |
        #[trigger] average.ensures((s, a, b, c, d), p) && #[trigger] average.ensures(
            (t, a, b, c, d),
            q,
        ) && s@ == t@ ==> p@ == q@
}

proof fn lemma_level_of_level(len: u32, k: nat, i: nat)
    ensures
        level_dim(level_dim(len, k) as u32, i) == level_dim(len, k + i),
    decreases i,
{
    lemma_level_shrinks(len, k);
    let d = level_dim(len, k) as u32;
    if i == 0 {
        lemma_level_shrinks(d, 0);
    } else {
        lemma_level_of_level(len, k, (i - 1) as nat);
        law_levels_halve(d, (i - 1) as nat);
        law_levels_halve(len, (k + i - 1) as nat);
    }
}

/// The chain of a level is as long as what is left of the chain that it stands in.
proof fn lemma_rest_of_chain(w: u32, h: u32, n: nat, k: nat, m: nat)
    requires
        k < n,
        is_level_count(larger(larger(w, h), 1) as nat, n),
        is_level_count(
            larger(larger(level_dim(w, k) as u32, level_dim(h, k) as u32), 1) as nat,
            m,
        ),
    ensures
        m == n - k,
{
    let (a, b) = (level_dim(w, k) as u32, level_dim(h, k) as u32);
    law_chain_ends_in_one_texel(w, h, n, (k + m - 1) as nat);
    lemma_level_of_level(w, k, (m - 1) as nat);
    lemma_level_of_level(h, k, (m - 1) as nat);
    law_chain_ends_in_one_texel(a, b, m, (n - 1 - k) as nat);
    lemma_level_of_level(w, k, (n - 1 - k) as nat);
    lemma_level_of_level(h, k, (n - 1 - k) as nat);
}

/// A level has one reduction.
proof fn lemma_reduction_is_unique<F: Fn(&Vec<u8>, usize, usize, usize, usize) -> Vec<u8>>(
    average: F,
    s: &Vec<u8>,
    t: &Vec<u8>,
    sw: int,
    sh: int,
    dw: int,
    e: int,
    rows: int,
    a: Seq<u8>,
    b: Seq<u8>,
)
    requires
        is_functional(average),
        s@ == t@,
        dw > 0,
        e > 0,
        is_reduced(average, s, sw, sh, dw, e, 0, rows, a),
        is_reduced(average, t, sw, sh, dw, e, 0, rows, b),
    ensures
        a == b,
{
    assert forall|i: int| 0 <= i < a.len() implies a[i] == b[i] by {
        let q = i / e;
        let (x, y) = (q % dw, q / dw);
        vstd::arithmetic::div_mod::lemma_fundamental_div_mod(i, e);
        vstd::arithmetic::div_mod::lemma_mod_bound(i, e);
        vstd::arithmetic::div_mod::lemma_div_pos_is_pos(i, e);
        vstd::arithmetic::div_mod::lemma_fundamental_div_mod(q, dw);
        vstd::arithmetic::div_mod::lemma_mod_bound(q, dw);
        vstd::arithmetic::div_mod::lemma_div_pos_is_pos(q, dw);
        let o = texel_at(x, y, dw, e);
        assert(o == q * e) by (nonlinear_arith)
            requires
                o == (y * dw + x) * e,
                q == dw * y + x,
        ;
        assert(q < rows * dw) by (nonlinear_arith)
            requires
                i == e * q + i % e,
                i % e >= 0,
                i < rows * dw * e,
                e > 0,
        ;
        assert(y < rows) by (nonlinear_arith)
            requires
                q == dw * y + x,
                x >= 0,
                q < rows * dw,
                dw > 0,
        ;
        lemma_texel_inside(x, y, dw, rows, e);
        assert(dw * rows * e == rows * dw * e) by (nonlinear_arith);
        assert(e * q == q * e) by (nonlinear_arith);
        assert(is_average(average, s, sw, sh, e, x, 0 + y, a.subrange(o, o + e)));
        assert(is_average(average, t, sw, sh, e, x, 0 + y, b.subrange(o, o + e)));
        assert(a.subrange(o, o + e)[i - o] == a[i]);
        assert(b.subrange(o, o + e)[i - o] == b[i]);
    }
    assert(a =~= b);
}

proof fn lemma_kept_fit(supplied: Seq<Vec<u8>>, w: u32, h: u32, e: int, room: int, from: int)
    requires
        0 <= from,
    ensures
        from <= kept_from(supplied, w, h, e, room, from),
        kept_from(supplied, w, h, e, room, from) <= room || kept_from(supplied, w, h, e, room, from)
            == from,
        kept_from(supplied, w, h, e, room, from) <= supplied.len() || kept_from(
            supplied,
            w,
            h,
            e,
            room,
            from,
        ) == from,
        forall|i: int|
            from <= i < kept_from(supplied, w, h, e, room, from) ==> (#[trigger] supplied[i])@.len()
                == level_bytes(w, h, (i + 1) as nat, e),
    decreases supplied.len() - from,
{
    if !(from >= supplied.len() || from >= room || supplied[from]@.len() != level_bytes(
        w,
        h,
        (from + 1) as nat,
        e,
    )) {
        lemma_kept_fit(supplied, w, h, e, room, from + 1);
    }
}

/// What follows the levels kept is what building gives of the last of them at its own dimensions,
/// or of level 0 where none is kept.
pub proof fn law_tail_is_built_from_last_kept<
    F: Fn(&Vec<u8>, usize, usize, usize, usize) -> Vec<u8>,
>(
    average: F,
    supplied: Seq<Vec<u8>>,
    level0: &Vec<u8>,
    w: u32,
    h: u32,
    e: int,
    levels: nat,
    chain: Seq<Vec<u8>>,
    tail: Seq<Vec<u8>>,
)
    requires
        e > 0,
        is_functional(average),
        is_level_count(larger(larger(w, h), 1) as nat, levels),
        is_completed(average, supplied, level0, w, h, e, levels as int, chain),
        kept_from(supplied, w, h, e, levels - 1, 0) > 0 || level0@.len() >= level_bytes(w, h, 0, e),
        is_built(
            average,
            &upstream(level0, chain, kept_from(supplied, w, h, e, levels - 1, 0)),
            level_dim(w, kept_from(supplied, w, h, e, levels - 1, 0) as nat) as u32,
            level_dim(h, kept_from(supplied, w, h, e, levels - 1, 0) as nat) as u32,
            e,
            tail,
        ),
    ensures
        tail.len() == chain.len() - kept_from(supplied, w, h, e, levels - 1, 0),
        forall|i: int|
            0 <= i < tail.len() ==> (#[trigger] tail[i])@ == chain[kept_from(
                supplied,
                w,
                h,
                e,
                levels - 1,
                0,
            ) + i]@,
{
    let k = kept_from(supplied, w, h, e, levels - 1, 0);
    lemma_kept_fit(supplied, w, h, e, levels - 1, 0);
    let top = upstream(level0, chain, k);
    let (a, b) = (level_dim(w, k as nat) as u32, level_dim(h, k as nat) as u32);
    lemma_level_shrinks(w, k as nat);
    lemma_level_shrinks(h, k as nat);
    assert(a * b * e == level_bytes(w, h, k as nat, e));
    if k > 0 {
        assert(chain.take(k)[k - 1] == supplied.take(k)[k - 1]);
        assert(chain[k - 1] == supplied[k - 1]);
    }
    assert(top@.len() >= a * b * e);
    lemma_rest_of_chain(w, h, levels, k as nat, (tail.len() + 1) as nat);
    assert(continue_alike(average, level0, &top, w, h, e, k, chain, tail)) by {
        reveal(continue_alike);
    }
    lemma_tail(average, level0, &top, w, h, e, k, chain, tail, tail.len() as int);
}

/// `chain` goes on from its level `k`, `top`, as `tail` does.
#[verifier::opaque]
spec fn continue_alike<F: Fn(&Vec<u8>, usize, usize, usize, usize) -> Vec<u8>>(
    average: F,
    level0: &Vec<u8>,
    top: &Vec<u8>,
    w: u32,
    h: u32,
    e: int,
    k: int,
    chain: Seq<Vec<u8>>,
    tail: Seq<Vec<u8>>,
) -> bool {
    &&& e > 0
    &&& is_functional(average)
    &&& 0 <= k
    &&& tail.len() == chain.len() - k
    &&& *top == upstream(level0, chain, k)
    &&& is_chain(average, level0, chain, w, h, e, k)
    &&& is_chain(
        average,
        top,
        tail,
        level_dim(w, k as nat) as u32,
        level_dim(h, k as nat) as u32,
        e,
        0,
    )
}

proof fn lemma_tail<F: Fn(&Vec<u8>, usize, usize, usize, usize) -> Vec<u8>>(
    average: F,
    level0: &Vec<u8>,
    top: &Vec<u8>,
    w: u32,
    h: u32,
    e: int,
    k: int,
    chain: Seq<Vec<u8>>,
    tail: Seq<Vec<u8>>,
    n: int,
)
    requires
        continue_alike(average, level0, top, w, h, e, k, chain, tail),
        0 <= n <= tail.len(),
    ensures
        forall|i: int| 0 <= i < n ==> (#[trigger] tail[i])@ == chain[k + i]@,
    decreases n,
{
    if n > 0 {
        lemma_tail(average, level0, top, w, h, e, k, chain, tail, n - 1);
        if n > 1 {
            assert(tail[n - 2]@ == chain[k + (n - 2)]@);
        }
        lemma_tail_step(average, level0, top, w, h, e, k, chain, tail, n - 1);
    }
}

proof fn lemma_tail_step<F: Fn(&Vec<u8>, usize, usize, usize, usize) -> Vec<u8>>(
    average: F,
    level0: &Vec<u8>,
    top: &Vec<u8>,
    w: u32,
    h: u32,
    e: int,
    k: int,
    chain: Seq<Vec<u8>>,
    tail: Seq<Vec<u8>>,
    i: int,
)
    requires
        continue_alike(average, level0, top, w, h, e, k, chain, tail),
        0 <= i < tail.len(),
        i > 0 ==> tail[i - 1]@ == chain[k + i - 1]@,
    ensures
        tail[i]@ == chain[k + i]@,
{
    reveal(continue_alike);
    let (s, t) = (upstream(top, tail, i), upstream(level0, chain, k + i));
    let (a, b) = (level_dim(w, k as nat) as u32, level_dim(h, k as nat) as u32);
    lemma_level_of_level(w, k as nat, i as nat);
    lemma_level_of_level(h, k as nat, i as nat);
    lemma_level_of_level(w, k as nat, (i + 1) as nat);
    lemma_level_of_level(h, k as nat, (i + 1) as nat);
    let (sw, sh) = (level_dim(a, i as nat) as int, level_dim(b, i as nat) as int);
    let (dw, dh) = (level_dim(a, (i + 1) as nat) as int, level_dim(b, (i + 1) as nat) as int);
    assert(is_reduced(average, &s, sw, sh, dw, e, 0, dh, tail[i]@));
    assert(is_reduced(average, &t, sw, sh, dw, e, 0, dh, chain[k + i]@)) by {
        assert(k as nat + i as nat == (k + i) as nat);
        assert(k as nat + (i + 1) as nat == (k + i + 1) as nat);
    }
    lemma_reduction_is_unique(average, &s, &t, sw, sh, dw, e, dh, tail[i]@, chain[k + i]@);
}

/// Completing nothing is building.
pub proof fn law_completing_nothing_builds<F: Fn(&Vec<u8>, usize, usize, usize, usize) -> Vec<u8>>(
    average: F,
    level0: &Vec<u8>,
    w: u32,
    h: u32,
    e: int,
    levels: nat,
    chain: Seq<Vec<u8>>,
)
    requires
        w >= 1,
        h >= 1,
        is_level_count(larger(larger(w, h), 1) as nat, levels),
        is_completed(average, Seq::<Vec<u8>>::empty(), level0, w, h, e, levels as int, chain),
        level0@.len() >= w * h * e,
    ensures
        is_built(average, level0, w, h, e, chain),
{
    lemma_level_shrinks(w, 0);
    lemma_level_shrinks(h, 0);
}

/// Levels with at least this many texels are reduced in several bands.
pub const PARALLEL_MIN_TEXELS: u64 = 65536;

/// `bands` cut `rows` rows into consecutive bands, none of them empty.
pub open spec fn are_bands(bands: Seq<(u32, u32)>, rows: int) -> bool {
    &&& forall|i: int|
        0 <= i < bands.len() ==> (#[trigger] bands[i]).1 > 0 && bands[i].0 == bands_end(bands, i)
    &&& bands_end(bands, bands.len() as int) == rows
}

/// The row at which band `i` has to start.
pub open spec fn bands_end(bands: Seq<(u32, u32)>, i: int) -> int {
    if i <= 0 {
        0
    } else {
        bands[i - 1].0 + bands[i - 1].1
    }
}

/// The number of bands that a level is reduced in on a machine of `parallelism` threads.
pub open spec fn band_limit(dw: u32, dh: u32, parallelism: usize) -> int {
    if dw * dh >= PARALLEL_MIN_TEXELS {
        let n = if parallelism < 1 {
            1
        } else if parallelism > 8 {
            8
        } else {
            parallelism as int
        };
        if n < dh {
            n
        } else {
            dh as int
        }
    } else {
        1
    }
}

/// Cut a level of `dh` rows into bands of equal height, the last one shorter: one band for a small
/// level, at most eight for a large one.
pub fn row_bands(dw: u32, dh: u32, parallelism: usize) -> (bands: Vec<(u32, u32)>)
    ensures
        are_bands(bands@, dh as int),
        bands.len() <= band_limit(dw, dh, parallelism),
        dh > 0 ==> forall|i: int|
            0 <= i < bands.len() - 1 ==> (#[trigger] bands@[i]).1 == (dh + band_limit(
                dw,
                dh,
                parallelism,
            ) - 1) / band_limit(dw, dh, parallelism),
{
    let mut bands: Vec<(u32, u32)> = Vec::new();
    if dh == 0 {
        return bands;
    }
    proof {
        assert(dw * dh <= 0xffff_ffff * 0xffff_ffff) by (nonlinear_arith)
            requires
                0 <= dw <= 0xffff_ffff,
                0 <= dh <= 0xffff_ffff,
        ;
        assert(dw * dh >= 0) by (nonlinear_arith)
            requires
                0 <= dw,
                0 <= dh,
        ;
    }
    let threads: u32 = if dw as u64 * dh as u64 >= PARALLEL_MIN_TEXELS {
        let n: u32 = if parallelism < 1 {
            1
        } else if parallelism > 8 {
            8
        } else {
            parallelism as u32
        };
        if n < dh {
            n
        } else {
            dh
        }
    } else {
        1
    };
    let per: u32 = ((dh as u64 + threads as u64 - 1) / threads as u64) as u32;
    proof {
        let q = (dh + threads - 1) / (threads as int);
        vstd::arithmetic::div_mod::lemma_fundamental_div_mod(dh + threads - 1, threads as int);
        vstd::arithmetic::div_mod::lemma_mod_bound(dh + threads - 1, threads as int);
        assert(threads * q >= dh && 1 <= q <= dh) by (nonlinear_arith)
            requires
                dh + threads - 1 == threads * q + (dh + threads - 1) % (threads as int),
                0 <= (dh + threads - 1) % (threads as int) < threads,
                1 <= threads <= 8,
                dh >= 1,
        ;
    }
    let mut at: u32 = 0;
    assert(0 * per == 0) by (nonlinear_arith);
    while at < dh
        invariant
            at <= dh,
            1 <= per <= dh,
            threads * per >= dh,
            at == dh || at == bands.len() * per,
            bands.len() <= threads,
            at < dh ==> bands.len() < threads,
            at == bands_end(bands@, bands.len() as int),
            forall|i: int|
                0 <= i < bands.len() ==> (#[trigger] bands@[i]).1 > 0 && bands@[i].0 == bands_end(
                    bands@,
                    i,
                ),
            forall|i: int| 0 <= i < bands.len() - 1 ==> (#[trigger] bands@[i]).1 == per,
            at < dh ==> forall|i: int| 0 <= i < bands.len() ==> (#[trigger] bands@[i]).1 == per,
        decreases dh - at,
    {
        let n: u32 = if dh - at > per {
            per
        } else {
            dh - at
        };
        let ghost was = bands@;
        bands.push((at, n));
        proof {
            assert forall|i: int| 0 <= i < bands.len() implies (#[trigger] bands@[i]).1 > 0
                && bands@[i].0 == bands_end(bands@, i) by {
                if i < was.len() {
                    assert(bands@[i] == was[i]);
                    assert(bands_end(bands@, i) == bands_end(was, i));
                } else {
                    assert(bands_end(bands@, i) == bands_end(was, i));
                }
            }
            let k = was.len() as int;
            assert((k + 1) * per == k * per + per) by (nonlinear_arith);
            if at + n < dh {
                assert(n == per);
                assert(k + 1 < threads) by (nonlinear_arith)
                    requires
                        (k + 1) * per < dh,
                        threads * per >= dh,
                        per >= 1,
                ;
            }
        }
        at += n;
    }
    bands
}

/// A position of the next level reads the two texels below it on an axis that has them: every texel
/// of an axis of even length is read by exactly one position, and the blocks of different positions
/// lie apart and together cover the axis; past an odd edge the last texel stands in.
pub proof fn law_blocks_cover_the_axis(i: int, j: int, p: int, len: int)
    requires
        0 <= i < j,
        0 <= p < len,
    ensures
        taps(0, len).0 == 0,
        2 * i + 1 < len ==> taps(i, len).1 == taps(i, len).0 + 1,
        2 * j + 1 < len ==> taps(i, len).1 < taps(j, len).0,
        2 * j + 1 < len ==> taps(j, len).0 - taps(i, len).0 == 2 * (j - i),
        2 * (p / 2) + 1 < len ==> taps(p / 2, len).0 == p || taps(p / 2, len).1 == p,
        len % 2 == 0 && (taps(i, len).0 == p || taps(i, len).1 == p) && 2 * i < len ==> i == p / 2,
        2 * i >= len - 1 ==> taps(i, len).0 == len - 1 && taps(i, len).1 == len - 1,
        0 <= taps(i, len).0 <= taps(i, len).1 < len,
{
}

/// The texels of a level lie row by row, each right behind the one to its left.
pub proof fn law_texels_lie_in_rows(x: int, y: int, w: int, e: int)
    ensures
        texel_at(0, 0, w, e) == 0,
        texel_at(x + 1, y, w, e) == texel_at(x, y, w, e) + e,
        texel_at(x, y + 1, w, e) == texel_at(x, y, w, e) + w * e,
        texel_at(w, y, w, e) == texel_at(0, y + 1, w, e),
{
    assert((0 * w + 0) * e == 0) by (nonlinear_arith);
    assert((y * w + (x + 1)) * e == (y * w + x) * e + e) by (nonlinear_arith);
    assert(((y + 1) * w + x) * e == (y * w + x) * e + w * e) by (nonlinear_arith);
    assert((y + 1) * w + 0 == y * w + w) by (nonlinear_arith);
}

/// A texel of a reduced level is the average of the two by two block of the level above that lies
/// over it, upper row first.
pub proof fn law_texels_average_their_block<F: Fn(&Vec<u8>, usize, usize, usize, usize) -> Vec<u8>>(
    average: F,
    src: &Vec<u8>,
    sw: int,
    sh: int,
    dw: int,
    e: int,
    rows: int,
    out: Seq<u8>,
    x: int,
    y: int,
)
    requires
        is_reduced(average, src, sw, sh, dw, e, 0, rows, out),
        0 <= x < dw,
        0 <= y < rows,
        2 * x + 1 < sw,
        2 * y + 1 < sh,
    ensures
        out.len() == dw * rows * e,
        exists|t: Vec<u8>| #[trigger]
            average.ensures(
                (
                    src,
                    ((2 * y * sw + 2 * x) * e) as usize,
                    ((2 * y * sw + 2 * x + 1) * e) as usize,
                    (((2 * y + 1) * sw + 2 * x) * e) as usize,
                    (((2 * y + 1) * sw + 2 * x + 1) * e) as usize,
                ),
                t,
            ) && t@ == out.subrange((y * dw + x) * e, (y * dw + x) * e + e),
{
    assert(rows * dw * e == dw * rows * e) by (nonlinear_arith);
    assert(is_average(
        average,
        src,
        sw,
        sh,
        e,
        x,
        0 + y,
        out.subrange(texel_at(x, y, dw, e), texel_at(x, y, dw, e) + e),
    ));
    assert(2 * y * sw == (2 * y) * sw) by (nonlinear_arith);
}

/// The first level of a chain is the picture itself, and a level holds its texels and nothing more.
pub proof fn law_levels_start_with_the_picture(w: u32, h: u32, level: nat, e: int)
    ensures
        level_dim(w, 0) == (if w > 0 {
            w as int
        } else {
            1
        }),
        level_bytes(w, h, level, e) == level_dim(w, level) * level_dim(h, level) * e,
        level_dim(w, level) >= 1,
        w > 0 && h > 0 ==> level_bytes(w, h, 0, e) == w * h * e,
{
    lemma_level_shrinks(w, 0);
    lemma_level_shrinks(h, 0);
}

/// As many of a file's own levels are kept as fit one after the other: each of them has its size,
/// and the first that is not kept has another, or there is no room or none left.
pub proof fn law_fitting_levels_are_kept(
    supplied: Seq<Vec<u8>>,
    w: u32,
    h: u32,
    e: int,
    room: int,
    i: int,
)
    requires
        room >= 0,
    ensures
        ({
            let k = kept_from(supplied, w, h, e, room, 0);
            &&& 0 <= k <= room
            &&& k <= supplied.len()
            &&& 0 <= i < k ==> supplied[i]@.len() == level_bytes(w, h, (i + 1) as nat, e)
            &&& k < supplied.len() && k < room ==> supplied[k]@.len() != level_bytes(
                w,
                h,
                (k + 1) as nat,
                e,
            )
        }),
{
    lemma_kept_fit(supplied, w, h, e, room, 0);
    lemma_run_ends(supplied, w, h, e, room, 0);
}

proof fn lemma_run_ends(supplied: Seq<Vec<u8>>, w: u32, h: u32, e: int, room: int, from: int)
    requires
        0 <= from,
    ensures
        ({
            let k = kept_from(supplied, w, h, e, room, from);
            k < supplied.len() && k < room ==> supplied[k]@.len() != level_bytes(
                w,
                h,
                (k + 1) as nat,
                e,
            )
        }),
    decreases supplied.len() - from,
{
    if !(from >= supplied.len() || from >= room || supplied[from]@.len() != level_bytes(
        w,
        h,
        (from + 1) as nat,
        e,
    )) {
        lemma_run_ends(supplied, w, h, e, room, from + 1);
    }
}

/// Bands of rows follow one another from the first row to the last; a small level is one band, a
/// large one at most eight and never more than it has rows.
pub proof fn law_bands_are_few(dw: u32, dh: u32, parallelism: usize)
    ensures
        dw * dh < 65536 ==> band_limit(dw, dh, parallelism) == 1,
        band_limit(dw, dh, parallelism) <= 8,
        dh >= 1 ==> 1 <= band_limit(dw, dh, parallelism) <= dh || band_limit(dw, dh, parallelism)
            == 1,
        dw * dh >= 65536 && 1 <= parallelism <= 8 && dh >= parallelism ==> band_limit(
            dw,
            dh,
            parallelism,
        ) == parallelism,
{
}

/// Each level is made from the one above it, the first from the picture, each at half the size in
/// both directions; the chain ends where one texel is left.
pub proof fn law_each_level_comes_from_the_one_above<
    F: Fn(&Vec<u8>, usize, usize, usize, usize) -> Vec<u8>,
>(average: F, pixels: &Vec<u8>, w: u32, h: u32, e: int, chain: Seq<Vec<u8>>, i: int)
    requires
        is_built(average, pixels, w, h, e, chain),
        pixels@.len() >= w * h * e,
        0 <= i < chain.len(),
    ensures
        i == 0 ==> is_reduced(
            average,
            pixels,
            level_dim(w, 0) as int,
            level_dim(h, 0) as int,
            level_dim(w, 1) as int,
            e,
            0,
            level_dim(h, 1) as int,
            chain[0]@,
        ),
        i > 0 ==> is_reduced(
            average,
            &chain[i - 1],
            level_dim(w, i as nat) as int,
            level_dim(h, i as nat) as int,
            level_dim(w, (i + 1) as nat) as int,
            e,
            0,
            level_dim(h, (i + 1) as nat) as int,
            chain[i]@,
        ),
        level_dim(w, chain.len()) == 1,
        level_dim(h, chain.len()) == 1,
{
    law_chain_ends_in_one_texel(w, h, (chain.len() + 1) as nat, 0);
    assert(is_reduced(
        average,
        &upstream(pixels, chain, i),
        level_dim(w, i as nat) as int,
        level_dim(h, i as nat) as int,
        level_dim(w, (i + 1) as nat) as int,
        e,
        0,
        level_dim(h, (i + 1) as nat) as int,
        chain[i]@,
    ));
}

/// The bands of rows follow one another without a gap from the first row to the last.
pub proof fn law_bands_follow_one_another(bands: Seq<(u32, u32)>, rows: int, i: int)
    requires
        are_bands(bands, rows),
        0 <= i < bands.len(),
    ensures
        bands[i].1 > 0,
        i == 0 ==> bands[i].0 == 0,
        i > 0 ==> bands[i].0 == bands[i - 1].0 + bands[i - 1].1,
        i == bands.len() - 1 ==> bands[i].0 + bands[i].1 == rows,
        rows > 0,
{
    assert(bands[i].1 > 0);
    assert(bands[bands.len() - 1].1 > 0);
}

/// A picture of twice the size has one level more, and a single texel has one level.
pub proof fn law_doubling_adds_a_level(m: nat, n: nat)
    ensures
        is_level_count(1, 1),
        is_level_count(m, n) ==> is_level_count(2 * m, n + 1) && is_level_count(2 * m + 1, n + 1),
        is_level_count(m, n) ==> m >= 1,
{
    vstd::arithmetic::power2::lemma2_to64();
    if is_level_count(m, n) {
        crate::ratio::lemma_pow2_next((n - 1) as nat);
        crate::ratio::lemma_pow2_next(n);
        vstd::arithmetic::power2::lemma_pow2_pos((n - 1) as nat);
        assert((n - 1) as nat + 1 == n);
        assert((n + 1 - 1) as nat == n);
    }
}

/// Too few bytes for the picture make no levels; enough make all of them.
pub proof fn law_short_pictures_have_no_levels<
    F: Fn(&Vec<u8>, usize, usize, usize, usize) -> Vec<u8>,
>(average: F, pixels: &Vec<u8>, w: u32, h: u32, e: int, chain: Seq<Vec<u8>>)
    requires
        is_built(average, pixels, w, h, e, chain),
    ensures
        pixels@.len() < w * h * e ==> chain.len() == 0,
        pixels@.len() >= w * h * e && (w > 1 || h > 1) ==> chain.len() > 0,
{
    vstd::arithmetic::power2::lemma2_to64();
}

} // verus!
